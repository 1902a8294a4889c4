//! Errors returned by the library.

use crate::object::kit::macros::{MacroParameterPage, MacroTrack};
use vstd::prelude::*;

verus! {

/// Names the value that failed validation.
#[derive(Debug, Clone, Copy, PartialEq, Eq, Structural)]
pub enum ParameterName {
    MacroVoiceTrack,
    MacroParameter,
    SceneLockValue,
    MacroId,
    SongPattern,
    SongMutedTracks,
    SongMuteTrack,
    SongRowRepeats,
    SongRowPatternCount,
    SongRowCount,
    SongPatternPositionCount,
    SongPatternPositions,
    SongIndex,
    ObjectName,
    MacroLocks,
}

/// The value that a compatibility error is about.
#[derive(Debug, Clone, Copy, PartialEq, Eq, Structural)]
pub enum CompatibilityValue {
    /// A number, such as a raw id or a count.
    Number(usize),
    /// A macro parameter, by its page and its raw id.
    PageAndId(MacroParameterPage, u8),
    /// A lock target, by its raw track id and its raw parameter id.
    Target(u8, u8),
}

/// Why a value is not usable in its context.
#[derive(Debug, Clone, Copy, PartialEq, Eq, Structural)]
pub enum CompatibilityReason {
    /// The parameter is not available for this track.
    NotAvailableForTrack(MacroTrack),
    /// The parameter was built for another page than the one its id has on the target track.
    ExpectedPage(MacroParameterPage),
    /// A macro cannot contain duplicate targets.
    DuplicateTargets,
    /// The row counts exceed the 256-position Song pool.
    SongPoolExceeded,
}

/// A rejected parameter value.
#[derive(Debug, Clone, Copy, PartialEq, Eq, Structural)]
pub enum ParameterError {
    /// The value lies outside the accepted range.
    Range { value: usize, parameter_name: ParameterName },
    /// The value is in range but not usable in this context.
    Compatibility {
        value: CompatibilityValue,
        parameter_name: ParameterName,
        reason: Option<CompatibilityReason>,
    },
}

/// Failures of the `SysEx` envelope and of the codec.
#[derive(Debug, Clone, Copy, PartialEq, Eq, Structural)]
pub enum SysexConversionError {
    NotASysexMsg,
    ShortRead,
    EndOfMessage,
    Abort,
    InvalidManufacturerId,
    InvalidProductId,
    InvalidDumpMsgId,
    InvalidObjType,
    Chksum,
    NullPtr,
    InvalidObjNr,
    NotAPattern,
    NotAKit,
    NotASound,
    NotASettings,
    /// Expected size, then actual size.
    InvalidSize(usize, usize),
    /// A codec return code without a known meaning.
    Unknown(u8),
}

/// The library's error type.
#[derive(Debug, Clone, Copy, PartialEq, Eq, Structural)]
pub enum RytmError {
    Parameter(ParameterError),
    SysexConversion(SysexConversionError),
    /// Every slot of a pattern's parameter-lock pool is in use.
    ParameterLockMemoryFull,
    /// An error that no other variant describes.
    Custom(CustomError),
}

/// Errors that no other variant of [`RytmError`] describes.
#[derive(Debug, Clone, Copy, PartialEq, Eq, Structural)]
pub enum CustomError {
    /// Every one of a kit's 48 macro lock records is in use.
    KitMacroLockMemoryFull,
}

impl CustomError {
    /// The error's message.
    pub fn message(self) -> (r: &'static str) {
        match self {
            CustomError::KitMacroLockMemoryFull => {
                "Kit macro lock memory full; at most 48 locks are available"
            },
        }
    }
}

/// The error for a kit macro table with no room left.
pub open spec fn spec_macro_memory_full() -> RytmError {
    RytmError::Custom(CustomError::KitMacroLockMemoryFull)
}

/// The error for `value` outside the accepted range of `parameter_name`.
pub open spec fn spec_range_error(value: int, parameter_name: ParameterName) -> RytmError {
    RytmError::Parameter(ParameterError::Range { value: value as usize, parameter_name })
}

/// Builds the error for `value` outside the accepted range of `parameter_name`.
pub fn range_error(value: usize, parameter_name: ParameterName) -> (r: RytmError)
    ensures
        r == spec_range_error(value as int, parameter_name),
{
    RytmError::Parameter(ParameterError::Range { value, parameter_name })
}

/// The codec error that a `libanalogrytm` return code stands for.
pub open spec fn spec_conversion_error_from_code(code: u8) -> SysexConversionError {
    match code {
        1 => SysexConversionError::NotASysexMsg,
        2 => SysexConversionError::ShortRead,
        3 => SysexConversionError::EndOfMessage,
        4 => SysexConversionError::Abort,
        5 => SysexConversionError::InvalidManufacturerId,
        6 => SysexConversionError::InvalidProductId,
        7 => SysexConversionError::InvalidDumpMsgId,
        8 => SysexConversionError::InvalidObjType,
        9 => SysexConversionError::Chksum,
        10 => SysexConversionError::NullPtr,
        11 => SysexConversionError::InvalidObjNr,
        12 => SysexConversionError::NotAPattern,
        13 => SysexConversionError::NotAKit,
        14 => SysexConversionError::NotASound,
        15 => SysexConversionError::NotASettings,
        _ => SysexConversionError::Unknown(code),
    }
}

impl SysexConversionError {
    /// Maps a non-zero `libanalogrytm` return code to its error.
    pub fn from_code(code: u8) -> (r: SysexConversionError)
        ensures
            r == spec_conversion_error_from_code(code),
    {
        match code {
            1 => SysexConversionError::NotASysexMsg,
            2 => SysexConversionError::ShortRead,
            3 => SysexConversionError::EndOfMessage,
            4 => SysexConversionError::Abort,
            5 => SysexConversionError::InvalidManufacturerId,
            6 => SysexConversionError::InvalidProductId,
            7 => SysexConversionError::InvalidDumpMsgId,
            8 => SysexConversionError::InvalidObjType,
            9 => SysexConversionError::Chksum,
            10 => SysexConversionError::NullPtr,
            11 => SysexConversionError::InvalidObjNr,
            12 => SysexConversionError::NotAPattern,
            13 => SysexConversionError::NotAKit,
            14 => SysexConversionError::NotASound,
            15 => SysexConversionError::NotASettings,
            _ => SysexConversionError::Unknown(code),
        }
    }
}

} // verus!
