//! Scene and Performance macro definitions of a Kit.
//!
//! A Kit stores 48 four-byte lock records shared by its 12 Scenes (and, in a second table, its 12
//! Performance macros). A record is `[value, track, parameter, macro id]`; the id byte `0xFF`
//! marks a free record. Records that cannot be typed are kept untouched at their slot.

use crate::error::{
    range_error, spec_macro_memory_full, spec_range_error, CompatibilityReason,
    CompatibilityValue, CustomError, ParameterError, ParameterName, RytmError,
};
use crate::object::kit::macro_records::{
    available_records, clear_records, copy_records, lemma_clear_lists, lemma_copy_records_lists,
    lemma_lists_agree, lemma_replace_records_lists, lemma_write_record_lists, lemma_first_target,
    lemma_first_free, rec_is_free, rec_id, replace_records, same_record,
    set_record, spec_clear, spec_copy_records, spec_decode_record, spec_decoded_records,
    spec_empty_record_byte, spec_empty_table, spec_macro_locks, spec_macro_unknown,
    spec_replace_records, spec_set_record_slot, spec_undecodable_count, spec_unknown_model,
    spec_unknown_records, spec_used_count, spec_write_record, used_record_count, MacroLockModel,
    UnknownMacroLockModel, rec_value, rec_track, rec_parameter, spec_decode_slot,
    lemma_no_free_record_iff_full, lemma_used_count_write, spec_first_target,
    lemma_clear_idempotent, lemma_unknown_records_by_id, spec_unknown_with_id,
    lemma_available_is_free_and_own, lemma_first_duplicate_finds_shared_targets,
    lemma_records_with_id_count, spec_first_duplicate, spec_free_count, spec_id_count,
    spec_records_with_id, spec_available,
};
use vstd::prelude::*;

verus! {

/// Number of Scenes (and of Performance macros) in a Kit.
pub const KIT_MACRO_COUNT: usize = 12;
/// Number of lock records shared by all Scenes (or all Performance macros) of a Kit.
pub const KIT_MACRO_LOCK_CAPACITY: usize = 48;
/// Size of one lock record in bytes.
pub const MACRO_RECORD_SIZE: usize = 4;
/// Size of one lock-record table in bytes.
pub const MACRO_RAW_SIZE: usize = 192;
/// The id byte of a free record.
pub const FREE_RECORD_ID: u8 = 0xFF;

/// A track that can be targeted by a Scene or Performance lock.
#[derive(Debug, Clone, Copy, PartialEq, Eq, Hash, Structural)]
pub enum MacroTrack {
    /// One of the 12 voice tracks, indexed from zero.
    Voice(u8),
    /// The Kit FX track.
    Fx,
}

/// The raw track id: the voice index, or 12 for FX.
pub open spec fn spec_track_raw_id(track: MacroTrack) -> u8 {
    match track {
        MacroTrack::Voice(index) => index,
        MacroTrack::Fx => 12,
    }
}

/// Whether a track names one of the 12 voices or the FX track.
pub open spec fn spec_track_is_valid(track: MacroTrack) -> bool {
    match track {
        MacroTrack::Voice(index) => index < 12,
        MacroTrack::Fx => true,
    }
}

/// The track that a raw track id stands for.
pub open spec fn spec_track_from_raw(value: u8) -> Option<MacroTrack> {
    if value <= 11 {
        Some(MacroTrack::Voice(value))
    } else if value == 12 {
        Some(MacroTrack::Fx)
    } else {
        None
    }
}

impl MacroTrack {
    /// Creates a voice-track target.
    ///
    /// # Errors
    ///
    /// Returns an error when `index` is outside `0..=11`.
    pub fn try_voice(index: usize) -> (r: Result<Self, RytmError>)
        ensures
            index < 12 ==> r == Ok::<MacroTrack, RytmError>(MacroTrack::Voice(index as u8)),
            index >= 12 ==> r == Err::<MacroTrack, RytmError>(
                spec_range_error(index as int, ParameterName::MacroVoiceTrack),
            ),
    {
        if index >= 12 {
            return Err(range_error(index, ParameterName::MacroVoiceTrack));
        }
        Ok(MacroTrack::Voice(index as u8))
    }

    /// Returns the zero-based voice-track index, or 12 for FX.
    pub fn raw_id(self) -> (r: u8)
        ensures
            r == spec_track_raw_id(self),
    {
        match self {
            MacroTrack::Voice(index) => index,
            MacroTrack::Fx => 12,
        }
    }

    fn validate(self) -> (r: Result<(), RytmError>)
        ensures
            spec_track_is_valid(self) ==> r == Ok::<(), RytmError>(()),
            !spec_track_is_valid(self) ==> r == Err::<(), RytmError>(
                spec_range_error(spec_track_raw_id(self) as int, ParameterName::MacroVoiceTrack),
            ),
    {
        match self {
            MacroTrack::Voice(index) => {
                if index >= 12 {
                    return Err(range_error(index as usize, ParameterName::MacroVoiceTrack));
                }
                Ok(())
            },
            MacroTrack::Fx => Ok(()),
        }
    }

    fn from_raw(value: u8) -> (r: Option<Self>)
        ensures
            r == spec_track_from_raw(value),
    {
        if value <= 11 {
            Some(MacroTrack::Voice(value))
        } else if value == 12 {
            Some(MacroTrack::Fx)
        } else {
            None
        }
    }
}

/// Logical parameter pages used by Scene and Performance locks.
#[derive(Debug, Clone, Copy, PartialEq, Eq, Hash, Structural)]
pub enum MacroParameterPage {
    Machine,
    Sample,
    Filter,
    Amp,
    Lfo,
    Delay,
    Reverb,
    Distortion,
    Compressor,
    FxLfo,
}

/// The page of a parameter id in the namespace of a track family, if the id is not reserved.
pub open spec fn spec_parameter_page(track: MacroTrack, raw_id: u8) -> Option<MacroParameterPage> {
    match track {
        MacroTrack::Voice(_) => {
            if raw_id <= 7 {
                Some(MacroParameterPage::Machine)
            } else if 8 <= raw_id <= 15 {
                Some(MacroParameterPage::Sample)
            } else if 16 <= raw_id <= 23 {
                Some(MacroParameterPage::Filter)
            } else if 24 <= raw_id <= 31 {
                Some(MacroParameterPage::Amp)
            } else if 33 <= raw_id <= 40 {
                Some(MacroParameterPage::Lfo)
            } else {
                None
            }
        },
        MacroTrack::Fx => {
            if raw_id <= 7 {
                Some(MacroParameterPage::Delay)
            } else if raw_id == 8 || raw_id == 9 || (17 <= raw_id <= 19) {
                Some(MacroParameterPage::Distortion)
            } else if 10 <= raw_id <= 16 {
                Some(MacroParameterPage::Reverb)
            } else if 21 <= raw_id <= 28 {
                Some(MacroParameterPage::Compressor)
            } else if 29 <= raw_id <= 36 {
                Some(MacroParameterPage::FxLfo)
            } else {
                None
            }
        },
    }
}

/// The plain value of a [`MacroParameter`].
pub struct MacroParameterModel {
    pub page: MacroParameterPage,
    pub raw_id: u8,
}

/// The parameter that `raw_id` names for `track`, if any.
pub open spec fn spec_parameter_from_raw(track: MacroTrack, raw_id: u8) -> Option<MacroParameterModel> {
    match spec_parameter_page(track, raw_id) {
        Some(page) => Some(MacroParameterModel { page, raw_id }),
        None => None,
    }
}

/// A validated parameter ID in the voice or FX p-lock namespace.
#[derive(Debug, Clone, Copy, PartialEq, Eq, Hash, Structural)]
pub struct MacroParameter {
    page: MacroParameterPage,
    raw_id: u8,
}

impl View for MacroParameter {
    type V = MacroParameterModel;

    closed spec fn view(&self) -> MacroParameterModel {
        MacroParameterModel { page: self.page, raw_id: self.raw_id }
    }
}

fn parameter_from_raw(track: MacroTrack, raw_id: u8) -> (r: Option<MacroParameter>)
    ensures
        r is Some <==> spec_parameter_page(track, raw_id) is Some,
        r matches Some(p) ==> p@ == spec_parameter_from_raw(track, raw_id)->0,
{
    let page = match track {
        MacroTrack::Voice(_) => {
            if raw_id <= 7 {
                MacroParameterPage::Machine
            } else if 8 <= raw_id && raw_id <= 15 {
                MacroParameterPage::Sample
            } else if 16 <= raw_id && raw_id <= 23 {
                MacroParameterPage::Filter
            } else if 24 <= raw_id && raw_id <= 31 {
                MacroParameterPage::Amp
            } else if 33 <= raw_id && raw_id <= 40 {
                MacroParameterPage::Lfo
            } else {
                return None;
            }
        },
        MacroTrack::Fx => {
            if raw_id <= 7 {
                MacroParameterPage::Delay
            } else if raw_id == 8 || raw_id == 9 || (17 <= raw_id && raw_id <= 19) {
                MacroParameterPage::Distortion
            } else if 10 <= raw_id && raw_id <= 16 {
                MacroParameterPage::Reverb
            } else if 21 <= raw_id && raw_id <= 28 {
                MacroParameterPage::Compressor
            } else if 29 <= raw_id && raw_id <= 36 {
                MacroParameterPage::FxLfo
            } else {
                return None;
            }
        },
    };
    Some(MacroParameter { page, raw_id })
}

/// The error for a parameter id that the track family does not offer.
pub open spec fn spec_unavailable_parameter_error(track: MacroTrack, raw_id: u8) -> RytmError {
    RytmError::Parameter(
        ParameterError::Compatibility {
            value: CompatibilityValue::Number(raw_id as usize),
            parameter_name: ParameterName::MacroParameter,
            reason: Some(CompatibilityReason::NotAvailableForTrack(track)),
        },
    )
}

/// The error for a parameter built for another page than the one its id has on the target
/// track.
pub open spec fn spec_page_mismatch_error(
    parameter: MacroParameterModel,
    expected: MacroParameterPage,
) -> RytmError {
    RytmError::Parameter(
        ParameterError::Compatibility {
            value: CompatibilityValue::PageAndId(parameter.page, parameter.raw_id),
            parameter_name: ParameterName::MacroParameter,
            reason: Some(CompatibilityReason::ExpectedPage(expected)),
        },
    )
}

/// The outcome of [`MacroParameter::try_from_raw`].
pub open spec fn spec_try_parameter(track: MacroTrack, raw_id: u8) -> Result<MacroParameterModel, RytmError> {
    if !spec_track_is_valid(track) {
        Err(spec_range_error(spec_track_raw_id(track) as int, ParameterName::MacroVoiceTrack))
    } else {
        match spec_parameter_from_raw(track, raw_id) {
            Some(p) => Ok(p),
            None => Err(spec_unavailable_parameter_error(track, raw_id)),
        }
    }
}

/// The semantic name of a parameter.
pub open spec fn spec_parameter_name(page: MacroParameterPage, raw_id: u8) -> Seq<char> {
    match (page, raw_id) {
        (MacroParameterPage::Machine, 0) => "machine_parameter_1"@,
        (MacroParameterPage::Machine, 1) => "machine_parameter_2"@,
        (MacroParameterPage::Machine, 2) => "machine_parameter_3"@,
        (MacroParameterPage::Machine, 3) => "machine_parameter_4"@,
        (MacroParameterPage::Machine, 4) => "machine_parameter_5"@,
        (MacroParameterPage::Machine, 5) => "machine_parameter_6"@,
        (MacroParameterPage::Machine, 6) => "machine_parameter_7"@,
        (MacroParameterPage::Machine, 7) => "machine_parameter_8"@,
        (MacroParameterPage::Sample, 8) => "sample_tune"@,
        (MacroParameterPage::Sample, 9) => "sample_fine_tune"@,
        (MacroParameterPage::Sample, 10) => "sample_number"@,
        (MacroParameterPage::Sample, 11) => "sample_bit_reduction"@,
        (MacroParameterPage::Sample, 12) => "sample_start"@,
        (MacroParameterPage::Sample, 13) => "sample_end"@,
        (MacroParameterPage::Sample, 14) => "sample_loop"@,
        (MacroParameterPage::Sample, 15) => "sample_level"@,
        (MacroParameterPage::Filter, 16) => "filter_attack"@,
        (MacroParameterPage::Filter, 17) => "filter_sustain"@,
        (MacroParameterPage::Filter, 18) => "filter_decay"@,
        (MacroParameterPage::Filter, 19) => "filter_release"@,
        (MacroParameterPage::Filter, 20) => "filter_frequency"@,
        (MacroParameterPage::Filter, 21) => "filter_resonance"@,
        (MacroParameterPage::Filter, 22) => "filter_type"@,
        (MacroParameterPage::Filter, 23) => "filter_envelope"@,
        (MacroParameterPage::Amp, 24) => "amp_attack"@,
        (MacroParameterPage::Amp, 25) => "amp_hold"@,
        (MacroParameterPage::Amp, 26) => "amp_decay"@,
        (MacroParameterPage::Amp, 27) => "amp_overdrive"@,
        (MacroParameterPage::Amp, 28) => "amp_delay_send"@,
        (MacroParameterPage::Amp, 29) => "amp_reverb_send"@,
        (MacroParameterPage::Amp, 30) => "amp_pan"@,
        (MacroParameterPage::Amp, 31) => "amp_volume"@,
        (MacroParameterPage::Lfo, 33) => "lfo_speed"@,
        (MacroParameterPage::Lfo, 34) => "lfo_multiplier"@,
        (MacroParameterPage::Lfo, 35) => "lfo_fade"@,
        (MacroParameterPage::Lfo, 36) => "lfo_destination"@,
        (MacroParameterPage::Lfo, 37) => "lfo_waveform"@,
        (MacroParameterPage::Lfo, 38) => "lfo_phase"@,
        (MacroParameterPage::Lfo, 39) => "lfo_mode"@,
        (MacroParameterPage::Lfo, 40) => "lfo_depth"@,
        (MacroParameterPage::Delay, 0) => "delay_time"@,
        (MacroParameterPage::Delay, 1) => "delay_ping_pong"@,
        (MacroParameterPage::Delay, 2) => "delay_stereo_width"@,
        (MacroParameterPage::Delay, 3) => "delay_feedback"@,
        (MacroParameterPage::Delay, 4) => "delay_hpf"@,
        (MacroParameterPage::Delay, 5) => "delay_lpf"@,
        (MacroParameterPage::Delay, 6) => "delay_reverb_send"@,
        (MacroParameterPage::Delay, 7) => "delay_volume"@,
        (MacroParameterPage::Distortion, 8) => "distortion_delay_overdrive"@,
        (MacroParameterPage::Distortion, 9) => "distortion_delay_post"@,
        (MacroParameterPage::Reverb, 10) => "reverb_pre_delay"@,
        (MacroParameterPage::Reverb, 11) => "reverb_decay"@,
        (MacroParameterPage::Reverb, 12) => "reverb_shelving_frequency"@,
        (MacroParameterPage::Reverb, 13) => "reverb_shelving_gain"@,
        (MacroParameterPage::Reverb, 14) => "reverb_hpf"@,
        (MacroParameterPage::Reverb, 15) => "reverb_lpf"@,
        (MacroParameterPage::Reverb, 16) => "reverb_volume"@,
        (MacroParameterPage::Distortion, 17) => "distortion_reverb_post"@,
        (MacroParameterPage::Distortion, 18) => "distortion_amount"@,
        (MacroParameterPage::Distortion, 19) => "distortion_symmetry"@,
        (MacroParameterPage::Compressor, 21) => "compressor_threshold"@,
        (MacroParameterPage::Compressor, 22) => "compressor_attack"@,
        (MacroParameterPage::Compressor, 23) => "compressor_release"@,
        (MacroParameterPage::Compressor, 24) => "compressor_ratio"@,
        (MacroParameterPage::Compressor, 25) => "compressor_sidechain_eq"@,
        (MacroParameterPage::Compressor, 26) => "compressor_makeup_gain"@,
        (MacroParameterPage::Compressor, 27) => "compressor_mix"@,
        (MacroParameterPage::Compressor, 28) => "compressor_volume"@,
        (MacroParameterPage::FxLfo, 29) => "fx_lfo_speed"@,
        (MacroParameterPage::FxLfo, 30) => "fx_lfo_multiplier"@,
        (MacroParameterPage::FxLfo, 31) => "fx_lfo_fade"@,
        (MacroParameterPage::FxLfo, 32) => "fx_lfo_destination"@,
        (MacroParameterPage::FxLfo, 33) => "fx_lfo_waveform"@,
        (MacroParameterPage::FxLfo, 34) => "fx_lfo_phase"@,
        (MacroParameterPage::FxLfo, 35) => "fx_lfo_mode"@,
        (MacroParameterPage::FxLfo, 36) => "fx_lfo_depth"@,
        _ => "unknown"@,
    }
}

impl MacroParameter {
    /// Creates a parameter after validating it against the target track family.
    ///
    /// # Errors
    ///
    /// Returns an error for reserved IDs or voice/FX namespace mismatches.
    pub fn try_from_raw(track: MacroTrack, raw_id: u8) -> (r: Result<Self, RytmError>)
        ensures
            r is Ok <==> spec_try_parameter(track, raw_id) is Ok,
            r matches Ok(p) ==> p@ == spec_try_parameter(track, raw_id)->Ok_0,
            r matches Err(e) ==> e == spec_try_parameter(track, raw_id)->Err_0,
    {
        track.validate()?;
        match parameter_from_raw(track, raw_id) {
            Some(p) => Ok(p),
            None => Err(
                RytmError::Parameter(
                    ParameterError::Compatibility {
                        value: CompatibilityValue::Number(raw_id as usize),
                        parameter_name: ParameterName::MacroParameter,
                        reason: Some(CompatibilityReason::NotAvailableForTrack(track)),
                    },
                ),
            ),
        }
    }

    /// Returns the p-lock namespace ID stored by the device.
    pub fn raw_id(self) -> (r: u8)
        ensures
            r == self@.raw_id,
    {
        self.raw_id
    }

    /// Returns the logical parameter page.
    pub fn page(self) -> (r: MacroParameterPage)
        ensures
            r == self@.page,
    {
        self.page
    }

    /// Returns a stable semantic name for compact inspection and declarative tools.
    pub fn name(self) -> (r: &'static str)
        ensures
            r@ == spec_parameter_name(self@.page, self@.raw_id),
    {
        match (self.page, self.raw_id) {
            (MacroParameterPage::Machine, 0) => "machine_parameter_1",
            (MacroParameterPage::Machine, 1) => "machine_parameter_2",
            (MacroParameterPage::Machine, 2) => "machine_parameter_3",
            (MacroParameterPage::Machine, 3) => "machine_parameter_4",
            (MacroParameterPage::Machine, 4) => "machine_parameter_5",
            (MacroParameterPage::Machine, 5) => "machine_parameter_6",
            (MacroParameterPage::Machine, 6) => "machine_parameter_7",
            (MacroParameterPage::Machine, 7) => "machine_parameter_8",
            (MacroParameterPage::Sample, 8) => "sample_tune",
            (MacroParameterPage::Sample, 9) => "sample_fine_tune",
            (MacroParameterPage::Sample, 10) => "sample_number",
            (MacroParameterPage::Sample, 11) => "sample_bit_reduction",
            (MacroParameterPage::Sample, 12) => "sample_start",
            (MacroParameterPage::Sample, 13) => "sample_end",
            (MacroParameterPage::Sample, 14) => "sample_loop",
            (MacroParameterPage::Sample, 15) => "sample_level",
            (MacroParameterPage::Filter, 16) => "filter_attack",
            (MacroParameterPage::Filter, 17) => "filter_sustain",
            (MacroParameterPage::Filter, 18) => "filter_decay",
            (MacroParameterPage::Filter, 19) => "filter_release",
            (MacroParameterPage::Filter, 20) => "filter_frequency",
            (MacroParameterPage::Filter, 21) => "filter_resonance",
            (MacroParameterPage::Filter, 22) => "filter_type",
            (MacroParameterPage::Filter, 23) => "filter_envelope",
            (MacroParameterPage::Amp, 24) => "amp_attack",
            (MacroParameterPage::Amp, 25) => "amp_hold",
            (MacroParameterPage::Amp, 26) => "amp_decay",
            (MacroParameterPage::Amp, 27) => "amp_overdrive",
            (MacroParameterPage::Amp, 28) => "amp_delay_send",
            (MacroParameterPage::Amp, 29) => "amp_reverb_send",
            (MacroParameterPage::Amp, 30) => "amp_pan",
            (MacroParameterPage::Amp, 31) => "amp_volume",
            (MacroParameterPage::Lfo, 33) => "lfo_speed",
            (MacroParameterPage::Lfo, 34) => "lfo_multiplier",
            (MacroParameterPage::Lfo, 35) => "lfo_fade",
            (MacroParameterPage::Lfo, 36) => "lfo_destination",
            (MacroParameterPage::Lfo, 37) => "lfo_waveform",
            (MacroParameterPage::Lfo, 38) => "lfo_phase",
            (MacroParameterPage::Lfo, 39) => "lfo_mode",
            (MacroParameterPage::Lfo, 40) => "lfo_depth",
            (MacroParameterPage::Delay, 0) => "delay_time",
            (MacroParameterPage::Delay, 1) => "delay_ping_pong",
            (MacroParameterPage::Delay, 2) => "delay_stereo_width",
            (MacroParameterPage::Delay, 3) => "delay_feedback",
            (MacroParameterPage::Delay, 4) => "delay_hpf",
            (MacroParameterPage::Delay, 5) => "delay_lpf",
            (MacroParameterPage::Delay, 6) => "delay_reverb_send",
            (MacroParameterPage::Delay, 7) => "delay_volume",
            (MacroParameterPage::Distortion, 8) => "distortion_delay_overdrive",
            (MacroParameterPage::Distortion, 9) => "distortion_delay_post",
            (MacroParameterPage::Reverb, 10) => "reverb_pre_delay",
            (MacroParameterPage::Reverb, 11) => "reverb_decay",
            (MacroParameterPage::Reverb, 12) => "reverb_shelving_frequency",
            (MacroParameterPage::Reverb, 13) => "reverb_shelving_gain",
            (MacroParameterPage::Reverb, 14) => "reverb_hpf",
            (MacroParameterPage::Reverb, 15) => "reverb_lpf",
            (MacroParameterPage::Reverb, 16) => "reverb_volume",
            (MacroParameterPage::Distortion, 17) => "distortion_reverb_post",
            (MacroParameterPage::Distortion, 18) => "distortion_amount",
            (MacroParameterPage::Distortion, 19) => "distortion_symmetry",
            (MacroParameterPage::Compressor, 21) => "compressor_threshold",
            (MacroParameterPage::Compressor, 22) => "compressor_attack",
            (MacroParameterPage::Compressor, 23) => "compressor_release",
            (MacroParameterPage::Compressor, 24) => "compressor_ratio",
            (MacroParameterPage::Compressor, 25) => "compressor_sidechain_eq",
            (MacroParameterPage::Compressor, 26) => "compressor_makeup_gain",
            (MacroParameterPage::Compressor, 27) => "compressor_mix",
            (MacroParameterPage::Compressor, 28) => "compressor_volume",
            (MacroParameterPage::FxLfo, 29) => "fx_lfo_speed",
            (MacroParameterPage::FxLfo, 30) => "fx_lfo_multiplier",
            (MacroParameterPage::FxLfo, 31) => "fx_lfo_fade",
            (MacroParameterPage::FxLfo, 32) => "fx_lfo_destination",
            (MacroParameterPage::FxLfo, 33) => "fx_lfo_waveform",
            (MacroParameterPage::FxLfo, 34) => "fx_lfo_phase",
            (MacroParameterPage::FxLfo, 35) => "fx_lfo_mode",
            (MacroParameterPage::FxLfo, 36) => "fx_lfo_depth",
            _ => "unknown",
        }
    }
}

/// The outcome of checking that `parameter` belongs to the namespace of `track`.
pub open spec fn spec_validate_target(track: MacroTrack, parameter: MacroParameterModel) -> Result<
    (),
    RytmError,
> {
    match spec_try_parameter(track, parameter.raw_id) {
        Err(e) => Err(e),
        Ok(expected) => if expected.page != parameter.page {
            Err(spec_page_mismatch_error(parameter, expected.page))
        } else {
            Ok(())
        },
    }
}

fn validate_target(track: MacroTrack, parameter: MacroParameter) -> (r: Result<(), RytmError>)
    ensures
        r == spec_validate_target(track, parameter@),
{
    track.validate()?;
    let expected = MacroParameter::try_from_raw(track, parameter.raw_id)?;
    if expected.page != parameter.page {
        return Err(
            RytmError::Parameter(
                ParameterError::Compatibility {
                    value: CompatibilityValue::PageAndId(parameter.page, parameter.raw_id),
                    parameter_name: ParameterName::MacroParameter,
                    reason: Some(CompatibilityReason::ExpectedPage(expected.page)),
                },
            ),
        );
    }
    Ok(())
}

/// The accepted macro ids are `0..=11`.
pub open spec fn spec_validate_macro_id(id: int) -> Result<u8, RytmError> {
    if id >= 12 {
        Err(spec_range_error(id, ParameterName::MacroId))
    } else {
        Ok(id as u8)
    }
}

fn validate_macro_id(id: usize) -> (r: Result<u8, RytmError>)
    ensures
        r == spec_validate_macro_id(id as int),
{
    if id >= KIT_MACRO_COUNT {
        return Err(range_error(id, ParameterName::MacroId));
    }
    Ok(id as u8)
}

/// A valid target decodes back to the lock that was written for it.
pub proof fn lemma_valid_target_decodes(scene: bool, lock: MacroLockModel)
    requires
        spec_validate_target(lock.track, lock.parameter) is Ok,
        scene ==> lock.value <= 127,
    ensures
        spec_decode_record(scene, lock.value, spec_track_raw_id(lock.track), lock.parameter.raw_id)
            == Some(lock),
{
}

/// A fixed-value lock in a Scene definition.
#[derive(Debug, Clone, Copy, PartialEq, Eq, Hash, Structural)]
pub struct SceneLock {
    track: MacroTrack,
    parameter: MacroParameter,
    value: u8,
}

impl SceneLock {
    /// The parameter belongs to the track and the value is at most 127.
    #[verifier::type_invariant]
    spec fn is_valid(self) -> bool {
        &&& spec_validate_target(self.track, self.parameter@) is Ok
        &&& self.value <= 127
    }
}

impl View for SceneLock {
    type V = MacroLockModel;

    closed spec fn view(&self) -> MacroLockModel {
        MacroLockModel { track: self.track, parameter: self.parameter@, value: self.value }
    }
}

/// The lock views of a sequence of Scene locks.
pub open spec fn scene_lock_views(locks: Seq<SceneLock>) -> Seq<MacroLockModel> {
    locks.map_values(|lock: SceneLock| lock@)
}

impl SceneLock {
    /// Creates a fixed Scene lock.
    ///
    /// # Errors
    ///
    /// Returns an error for incompatible targets or values outside `0..=127`.
    pub fn try_new(track: MacroTrack, parameter: MacroParameter, value: usize) -> (r: Result<
        Self,
        RytmError,
    >)
        ensures
            spec_validate_target(track, parameter@) matches Err(e) ==> r == Err::<SceneLock, RytmError>(e),
            spec_validate_target(track, parameter@) is Ok && value > 127 ==> r == Err::<
                SceneLock,
                RytmError,
            >(spec_range_error(value as int, ParameterName::SceneLockValue)),
            spec_validate_target(track, parameter@) is Ok && value <= 127 ==> r is Ok && r->Ok_0@
                == (MacroLockModel { track, parameter: parameter@, value: value as u8 }),
    {
        validate_target(track, parameter)?;
        if value > 127 {
            return Err(range_error(value, ParameterName::SceneLockValue));
        }
        Ok(SceneLock { track, parameter, value: value as u8 })
    }

    pub fn track(self) -> (r: MacroTrack)
        ensures
            r == self@.track,
            spec_validate_target(self@.track, self@.parameter) is Ok,
    {
        proof {
            use_type_invariant(&self);
        }
        self.track
    }

    pub fn parameter(self) -> (r: MacroParameter)
        ensures
            r@ == self@.parameter,
            spec_validate_target(self@.track, self@.parameter) is Ok,
    {
        proof {
            use_type_invariant(&self);
        }
        self.parameter
    }

    pub fn value(self) -> (r: u8)
        ensures
            r == self@.value,
            r <= 127,
    {
        proof {
            use_type_invariant(&self);
        }
        self.value
    }
}

/// A signed modulation-depth assignment in a Performance definition.
#[derive(Debug, Clone, Copy, PartialEq, Eq, Hash, Structural)]
pub struct PerformanceLock {
    track: MacroTrack,
    parameter: MacroParameter,
    depth: i8,
}

impl PerformanceLock {
    /// The parameter belongs to the track.
    #[verifier::type_invariant]
    spec fn is_valid(self) -> bool {
        spec_validate_target(self.track, self.parameter@) is Ok
    }
}

impl View for PerformanceLock {
    type V = MacroLockModel;

    /// The stored value byte is the depth's two's-complement byte.
    closed spec fn view(&self) -> MacroLockModel {
        MacroLockModel { track: self.track, parameter: self.parameter@, value: self.depth as u8 }
    }
}

/// The lock views of a sequence of Performance locks.
pub open spec fn performance_lock_views(locks: Seq<PerformanceLock>) -> Seq<MacroLockModel> {
    locks.map_values(|lock: PerformanceLock| lock@)
}

impl PerformanceLock {
    /// Creates a Performance modulation assignment.
    ///
    /// # Errors
    ///
    /// Returns an error when the parameter is incompatible with the target track.
    pub fn try_new(track: MacroTrack, parameter: MacroParameter, depth: i8) -> (r: Result<
        Self,
        RytmError,
    >)
        ensures
            spec_validate_target(track, parameter@) matches Err(e) ==> r == Err::<
                PerformanceLock,
                RytmError,
            >(e),
            spec_validate_target(track, parameter@) is Ok ==> r is Ok && r->Ok_0@ == (MacroLockModel {
                track,
                parameter: parameter@,
                value: depth as u8,
            }),
    {
        validate_target(track, parameter)?;
        Ok(PerformanceLock { track, parameter, depth })
    }

    pub fn track(self) -> (r: MacroTrack)
        ensures
            r == self@.track,
            spec_validate_target(self@.track, self@.parameter) is Ok,
    {
        proof {
            use_type_invariant(&self);
        }
        self.track
    }

    pub fn parameter(self) -> (r: MacroParameter)
        ensures
            r@ == self@.parameter,
            spec_validate_target(self@.track, self@.parameter) is Ok,
    {
        proof {
            use_type_invariant(&self);
        }
        self.parameter
    }

    pub fn depth(self) -> (r: i8)
        ensures
            r as u8 == self@.value,
            r == self@.value as i8,
    {
        let d = self.depth;
        assert((d as u8) as i8 == d) by (bit_vector);
        d
    }
}

/// One unrecognized four-byte record retained at its original slot.
#[derive(Debug, Clone, Copy, PartialEq, Eq, Hash)]
pub struct UnknownMacroLock {
    slot: u8,
    raw: [u8; 4],
}

impl View for UnknownMacroLock {
    type V = UnknownMacroLockModel;

    closed spec fn view(&self) -> UnknownMacroLockModel {
        UnknownMacroLockModel { slot: self.slot, raw: self.raw@ }
    }
}

/// The views of a sequence of unknown records.
pub open spec fn unknown_lock_views(locks: Seq<UnknownMacroLock>) -> Seq<UnknownMacroLockModel> {
    locks.map_values(|lock: UnknownMacroLock| lock@)
}

impl UnknownMacroLock {
    pub fn slot(self) -> (r: u8)
        ensures
            r == self@.slot,
    {
        self.slot
    }

    pub fn raw(self) -> (r: [u8; 4])
        ensures
            r@ == self@.raw,
    {
        self.raw
    }
}

fn unknown_lock(raw: &[u8; 192], slot: usize) -> (r: UnknownMacroLock)
    requires
        slot < 48,
    ensures
        r@ == spec_unknown_model(raw@, slot as int),
{
    let record = [raw[4 * slot], raw[4 * slot + 1], raw[4 * slot + 2], raw[4 * slot + 3]];
    let r = UnknownMacroLock { slot: slot as u8, raw: record };
    assert(r@.raw =~= raw@.subrange(4 * slot as int, 4 * slot as int + 4));
    r
}

fn decode_scene_record(value: u8, track: u8, parameter: u8) -> (r: Option<SceneLock>)
    ensures
        r is None <==> spec_decode_record(true, value, track, parameter) is None,
        r matches Some(lock) ==> spec_decode_record(true, value, track, parameter) == Some(lock@),
{
    if value > 127 {
        return None;
    }
    let track = MacroTrack::from_raw(track)?;
    let parameter = parameter_from_raw(track, parameter)?;
    Some(SceneLock { track, parameter, value })
}

fn decode_performance_record(value: u8, track: u8, parameter: u8) -> (r: Option<PerformanceLock>)
    ensures
        r is None <==> spec_decode_record(false, value, track, parameter) is None,
        r matches Some(lock) ==> spec_decode_record(false, value, track, parameter) == Some(lock@),
{
    let track = MacroTrack::from_raw(track)?;
    let parameter = parameter_from_raw(track, parameter)?;
    assert(((value as i8) as u8) == value) by (bit_vector);
    Some(PerformanceLock { track, parameter, depth: value as i8 })
}

/// The plain value of a Scene or Performance definition.
pub struct MacroDefinitionModel {
    pub id: u8,
    pub locks: Seq<MacroLockModel>,
    pub unknown_locks: Seq<UnknownMacroLockModel>,
}

/// The definition of macro `id` held by a record table.
pub open spec fn spec_macro_definition(raw: Seq<u8>, scene: bool, id: u8) -> MacroDefinitionModel {
    MacroDefinitionModel {
        id,
        locks: spec_macro_locks(raw, scene, id, 48),
        unknown_locks: spec_macro_unknown(raw, scene, id, 48),
    }
}

/// Typed and unknown locks belonging to one Scene.
#[derive(Debug, PartialEq, Eq)]
pub struct SceneDefinition {
    id: u8,
    locks: Vec<SceneLock>,
    unknown_locks: Vec<UnknownMacroLock>,
}

impl Clone for SceneDefinition {
    fn clone(&self) -> (r: Self)
        ensures
            r@ == self@,
    {
        proof {
            use_type_invariant(self);
        }
        let locks = self.locks.clone();
        let unknown_locks = self.unknown_locks.clone();
        assert(locks@ =~= self.locks@);
        assert(unknown_locks@ =~= self.unknown_locks@);
        SceneDefinition { id: self.id, locks, unknown_locks }
    }
}

impl SceneDefinition {
    #[verifier::type_invariant]
    spec fn fits_the_table(self) -> bool {
        self.locks.len() + self.unknown_locks.len() <= 48
    }
}

impl View for SceneDefinition {
    type V = MacroDefinitionModel;

    closed spec fn view(&self) -> MacroDefinitionModel {
        MacroDefinitionModel {
            id: self.id,
            locks: scene_lock_views(self.locks@),
            unknown_locks: unknown_lock_views(self.unknown_locks@),
        }
    }
}

impl SceneDefinition {
    pub fn id(&self) -> (r: u8)
        ensures
            r == self@.id,
    {
        self.id
    }

    pub fn locks(&self) -> (r: &[SceneLock])
        ensures
            scene_lock_views(r@) == self@.locks,
    {
        self.locks.as_slice()
    }

    pub fn unknown_locks(&self) -> (r: &[UnknownMacroLock])
        ensures
            unknown_lock_views(r@) == self@.unknown_locks,
    {
        self.unknown_locks.as_slice()
    }

    pub fn lock_count(&self) -> (r: usize)
        ensures
            r == self@.locks.len() + self@.unknown_locks.len(),
    {
        proof {
            use_type_invariant(self);
        }
        self.locks.len() + self.unknown_locks.len()
    }

    pub fn is_empty(&self) -> (r: bool)
        ensures
            r == (self@.locks.len() + self@.unknown_locks.len() == 0),
    {
        self.lock_count() == 0
    }
}

/// Typed and unknown locks belonging to one Performance macro.
#[derive(Debug, PartialEq, Eq)]
pub struct PerformanceDefinition {
    id: u8,
    locks: Vec<PerformanceLock>,
    unknown_locks: Vec<UnknownMacroLock>,
}

impl Clone for PerformanceDefinition {
    fn clone(&self) -> (r: Self)
        ensures
            r@ == self@,
    {
        proof {
            use_type_invariant(self);
        }
        let locks = self.locks.clone();
        let unknown_locks = self.unknown_locks.clone();
        assert(locks@ =~= self.locks@);
        assert(unknown_locks@ =~= self.unknown_locks@);
        PerformanceDefinition { id: self.id, locks, unknown_locks }
    }
}

impl PerformanceDefinition {
    #[verifier::type_invariant]
    spec fn fits_the_table(self) -> bool {
        self.locks.len() + self.unknown_locks.len() <= 48
    }
}

impl View for PerformanceDefinition {
    type V = MacroDefinitionModel;

    closed spec fn view(&self) -> MacroDefinitionModel {
        MacroDefinitionModel {
            id: self.id,
            locks: performance_lock_views(self.locks@),
            unknown_locks: unknown_lock_views(self.unknown_locks@),
        }
    }
}

impl PerformanceDefinition {
    pub fn id(&self) -> (r: u8)
        ensures
            r == self@.id,
    {
        self.id
    }

    pub fn locks(&self) -> (r: &[PerformanceLock])
        ensures
            performance_lock_views(r@) == self@.locks,
    {
        self.locks.as_slice()
    }

    pub fn unknown_locks(&self) -> (r: &[UnknownMacroLock])
        ensures
            unknown_lock_views(r@) == self@.unknown_locks,
    {
        self.unknown_locks.as_slice()
    }

    pub fn lock_count(&self) -> (r: usize)
        ensures
            r == self@.locks.len() + self@.unknown_locks.len(),
    {
        proof {
            use_type_invariant(self);
        }
        self.locks.len() + self.unknown_locks.len()
    }

    pub fn is_empty(&self) -> (r: bool)
        ensures
            r == (self@.locks.len() + self@.unknown_locks.len() == 0),
    {
        self.lock_count() == 0
    }
}

/// Every lock's target is valid and, for Scenes, every value is 7-bit.
pub open spec fn spec_locks_are_valid(scene: bool, locks: Seq<MacroLockModel>) -> bool {
    forall|i: int|
        0 <= i < locks.len() ==> spec_validate_target(#[trigger] locks[i].track, locks[i].parameter)
            is Ok && (scene ==> locks[i].value <= 127)
}

/// The records `(value, track, parameter)` that hold `locks`.
pub open spec fn spec_lock_records(locks: Seq<MacroLockModel>) -> Seq<(u8, u8, u8)> {
    locks.map_values(
        |lock: MacroLockModel| (lock.value, spec_track_raw_id(lock.track), lock.parameter.raw_id),
    )
}

/// The error of the first of the first `n` locks whose target is invalid.
pub open spec fn spec_first_target_error(locks: Seq<MacroLockModel>, n: nat) -> Option<RytmError>
    decreases n,
{
    if n == 0 {
        None
    } else {
        match spec_first_target_error(locks, (n - 1) as nat) {
            Some(e) => Some(e),
            None => match spec_validate_target(locks[n - 1].track, locks[n - 1].parameter) {
                Err(e) => Some(e),
                Ok(_) => None,
            },
        }
    }
}

/// Setting one lock of macro `id`.
pub open spec fn spec_set_lock(raw: Seq<u8>, id: int, lock: MacroLockModel) -> Result<Seq<u8>, RytmError> {
    match spec_validate_target(lock.track, lock.parameter) {
        Err(e) => Err(e),
        Ok(_) => match spec_validate_macro_id(id) {
            Err(e) => Err(e),
            Ok(id8) => match spec_set_record_slot(
                raw,
                id8,
                spec_track_raw_id(lock.track),
                lock.parameter.raw_id,
            ) {
                Some(slot) => Ok(
                    spec_write_record(
                        raw,
                        slot,
                        lock.value,
                        spec_track_raw_id(lock.track),
                        lock.parameter.raw_id,
                        id8,
                    ),
                ),
                None => Err(spec_macro_memory_full()),
            },
        },
    }
}

/// Replacing every lock of macro `id` with `locks`.
pub open spec fn spec_replace_locks(raw: Seq<u8>, id: int, locks: Seq<MacroLockModel>) -> Result<
    Seq<u8>,
    RytmError,
> {
    match spec_first_target_error(locks, locks.len()) {
        Some(e) => Err(e),
        None => match spec_validate_macro_id(id) {
            Err(e) => Err(e),
            Ok(id8) => spec_replace_records(raw, id8, spec_lock_records(locks)),
        },
    }
}

/// Clearing macro `id`.
pub open spec fn spec_clear_macro(raw: Seq<u8>, id: int) -> Result<Seq<u8>, RytmError> {
    match spec_validate_macro_id(id) {
        Err(e) => Err(e),
        Ok(id8) => Ok(spec_clear(raw, id8)),
    }
}

/// Copying macro `source` to `target`.
pub open spec fn spec_copy_macro(raw: Seq<u8>, source: int, target: int) -> Result<Seq<u8>, RytmError> {
    match spec_validate_macro_id(source) {
        Err(e) => Err(e),
        Ok(s8) => match spec_validate_macro_id(target) {
            Err(e) => Err(e),
            Ok(t8) => spec_copy_records(raw, s8, t8),
        },
    }
}

/// Whether every macro other than `id` has the same definition in both tables.
pub open spec fn spec_others_unchanged(a: Seq<u8>, b: Seq<u8>, scene: bool, id: int) -> bool {
    forall|other: u8|
        other != id && other != 0xFF ==> spec_macro_definition(a, scene, other) == spec_macro_definition(
            b,
            scene,
            other,
        )
}

/// Once an invalid target is found it stays the first one.
pub proof fn lemma_first_target_error_stable(locks: Seq<MacroLockModel>, n: nat, m: nat)
    requires
        n <= m,
        spec_first_target_error(locks, n) is Some,
    ensures
        spec_first_target_error(locks, m) == spec_first_target_error(locks, n),
    decreases m - n,
{
    if n < m {
        lemma_first_target_error_stable(locks, n, (m - 1) as nat);
    }
}

/// With no invalid target, every lock is valid.
pub proof fn lemma_no_target_error(scene: bool, locks: Seq<MacroLockModel>, n: nat)
    requires
        n <= locks.len(),
        spec_first_target_error(locks, n) is None,
    ensures
        forall|i: int| 0 <= i < n ==> spec_validate_target(#[trigger] locks[i].track, locks[i].parameter) is Ok,
    decreases n,
{
    if n > 0 {
        lemma_no_target_error(scene, locks, (n - 1) as nat);
    }
}

/// Valid locks decode back from their records.
pub proof fn lemma_lock_records_decode(scene: bool, locks: Seq<MacroLockModel>)
    requires
        spec_locks_are_valid(scene, locks),
    ensures
        spec_decoded_records(scene, spec_lock_records(locks)) == locks,
        spec_undecodable_count(scene, spec_lock_records(locks)) == 0,
    decreases locks.len(),
{
    if locks.len() > 0 {
        let prev = locks.drop_last();
        assert(spec_lock_records(locks).drop_last() =~= spec_lock_records(prev));
        assert(spec_locks_are_valid(scene, prev)) by {
            assert forall|i: int| 0 <= i < prev.len() implies spec_validate_target(
                #[trigger] prev[i].track,
                prev[i].parameter,
            ) is Ok && (scene ==> prev[i].value <= 127) by {
                assert(prev[i] == locks[i]);
            }
        }
        lemma_lock_records_decode(scene, prev);
        let last = locks.last();
        assert(spec_validate_target(locks[locks.len() - 1].track, locks[locks.len() - 1].parameter) is Ok);
        lemma_valid_target_decodes(scene, last);
        assert(locks =~= prev.push(last));
    }
}

/// The free records of the table of a Kit without locks.
pub fn default_macro_records() -> (r: [u8; 192])
    ensures
        r@ == spec_empty_table(),
{
    let mut raw = [0u8; 192];
    let mut slot: usize = 0;
    while slot < 48
        invariant
            slot <= 48,
            forall|i: int| 0 <= i < 4 * slot ==> #[trigger] raw@[i] == spec_empty_record_byte(i % 4),
        decreases 48 - slot,
    {
        raw[4 * slot] = 0xFF;
        raw[4 * slot + 1] = 0xFF;
        raw[4 * slot + 2] = 0x00;
        raw[4 * slot + 3] = 0xFF;
        slot += 1;
    }
    assert(raw@ =~= spec_empty_table());
    raw
}

/// Lossless storage and typed access for all 12 Scene definitions.
#[derive(Debug, Clone, PartialEq, Eq)]
pub struct SceneDefinitions {
    raw: [u8; 192],
}

impl View for SceneDefinitions {
    type V = Seq<u8>;

    closed spec fn view(&self) -> Seq<u8> {
        self.raw@
    }
}

impl Default for SceneDefinitions {
    fn default() -> (r: Self)
        ensures
            r@ == spec_empty_table(),
    {
        SceneDefinitions::from_raw(default_macro_records())
    }
}

impl SceneDefinitions {
    /// Wraps a raw 192-byte record table.
    pub fn from_raw(raw: [u8; 192]) -> (r: Self)
        ensures
            r@ == raw@,
    {
        SceneDefinitions { raw }
    }

    /// Returns the raw 192-byte record table.
    pub fn raw(&self) -> (r: [u8; 192])
        ensures
            r@ == self@,
    {
        self.raw
    }

    /// Returns one typed Scene definition while retaining unrecognized records separately.
    pub fn definition(&self, id: usize) -> (r: Result<SceneDefinition, RytmError>)
        ensures
            id >= 12 ==> r == Err::<SceneDefinition, RytmError>(
                spec_range_error(id as int, ParameterName::MacroId),
            ),
            id < 12 ==> r is Ok && r->Ok_0@ == spec_macro_definition(self@, true, id as u8),
    {
        let id = validate_macro_id(id)?;
        let mut locks: Vec<SceneLock> = Vec::new();
        let mut unknown_locks: Vec<UnknownMacroLock> = Vec::new();
        let mut slot: usize = 0;
        while slot < 48
            invariant
                slot <= 48,
                id < 12,
                scene_lock_views(locks@) == spec_macro_locks(self.raw@, true, id, slot as nat),
                unknown_lock_views(unknown_locks@) == spec_macro_unknown(
                    self.raw@,
                    true,
                    id,
                    slot as nat,
                ),
                locks.len() + unknown_locks.len() <= slot,
            decreases 48 - slot,
        {
            let ghost old_locks = locks@;
            let ghost old_unknown = unknown_locks@;
            if self.raw[4 * slot + 3] == id {
                match decode_scene_record(
                    self.raw[4 * slot],
                    self.raw[4 * slot + 1],
                    self.raw[4 * slot + 2],
                ) {
                    Some(lock) => {
                        locks.push(lock);
                        assert(scene_lock_views(locks@) =~= scene_lock_views(old_locks).push(lock@));
                    },
                    None => {
                        let unknown = unknown_lock(&self.raw, slot);
                        unknown_locks.push(unknown);
                        assert(unknown_lock_views(unknown_locks@) =~= unknown_lock_views(
                            old_unknown,
                        ).push(unknown@));
                    },
                }
            }
            slot += 1;
        }
        Ok(SceneDefinition { id, locks, unknown_locks })
    }

    /// Returns all 12 Scene definitions.
    pub fn definitions(&self) -> (r: Vec<SceneDefinition>)
        ensures
            r@.len() == 12,
            forall|i: int| 0 <= i < 12 ==> (#[trigger] r@[i])@ == spec_macro_definition(self@, true, i as u8),
    {
        let mut definitions: Vec<SceneDefinition> = Vec::new();
        let mut id: usize = 0;
        while id < KIT_MACRO_COUNT
            invariant
                id <= 12,
                definitions@.len() == id,
                forall|i: int|
                    0 <= i < id ==> (#[trigger] definitions@[i])@ == spec_macro_definition(
                        self@,
                        true,
                        i as u8,
                    ),
            decreases 12 - id,
        {
            match self.definition(id) {
                Ok(definition) => definitions.push(definition),
                Err(_) => {
                    proof {
                        assert(false);
                    }
                },
            }
            id += 1;
        }
        definitions
    }

    /// Defines or replaces one target inside a Scene.
    pub fn set_lock(&mut self, id: usize, lock: SceneLock) -> (r: Result<(), RytmError>)
        ensures
            spec_set_lock(old(self)@, id as int, lock@) matches Ok(new_raw) ==> r is Ok && final(self)@
                == new_raw,
            spec_set_lock(old(self)@, id as int, lock@) matches Err(e) ==> r == Err::<(), RytmError>(e)
                && final(self)@ == old(self)@,
            r is Ok ==> spec_macro_locks(final(self)@, true, id as u8, 48).contains(lock@)
                && spec_others_unchanged(old(self)@, final(self)@, true, id as int),
            spec_validate_target(lock@.track, lock@.parameter) is Ok,
            id < 12 ==> (r is Err <==> (spec_first_target(
                old(self)@,
                id as u8,
                spec_track_raw_id(lock@.track),
                lock@.parameter.raw_id,
                0,
            ) is None && spec_used_count(old(self)@, 48) == 48)),
            r is Err && id < 12 ==> r == Err::<(), RytmError>(spec_macro_memory_full()),
            r is Ok ==> spec_used_count(final(self)@, 48) == spec_used_count(old(self)@, 48) + if spec_first_target(
                old(self)@,
                id as u8,
                spec_track_raw_id(lock@.track),
                lock@.parameter.raw_id,
                0,
            ) is Some {
                0int
            } else {
                1int
            },
    {
        proof {
            use_type_invariant(&lock);
        }
        validate_target(lock.track, lock.parameter)?;
        let id = validate_macro_id(id)?;
        let track = lock.track.raw_id();
        let parameter = lock.parameter.raw_id;
        let ghost before = self.raw@;
        let r = set_record(&mut self.raw, id, track, parameter, lock.value);
        proof {
            lemma_first_target(before, id, track, parameter, 0);
            lemma_first_free(before, 0);
            lemma_no_free_record_iff_full(before);
            if r is Ok {
                let slot = spec_set_record_slot(before, id, track, parameter)->0;
                lemma_used_count_write(before, slot, lock@.value, track, parameter, id, 48);
                lemma_valid_target_decodes(true, lock@);
                lemma_write_record_lists(before, true, slot, lock@.value, track, parameter, id);
            }
        }
        r
    }

    /// Replaces every lock belonging to one Scene.
    pub fn replace(&mut self, id: usize, locks: &[SceneLock]) -> (r: Result<(), RytmError>)
        ensures
            spec_replace_locks(old(self)@, id as int, scene_lock_views(locks@)) matches Ok(new_raw) ==> r is Ok
                && final(self)@ == new_raw,
            spec_replace_locks(old(self)@, id as int, scene_lock_views(locks@)) matches Err(e) ==> r == Err::<
                (),
                RytmError,
            >(e) && final(self)@ == old(self)@,
            r is Ok ==> spec_macro_definition(final(self)@, true, id as u8).locks == scene_lock_views(
                locks@,
            ) && spec_macro_definition(final(self)@, true, id as u8).unknown_locks.len() == 0
                && spec_others_unchanged(old(self)@, final(self)@, true, id as int),
            spec_first_target_error(scene_lock_views(locks@), locks@.len()) is None,
    {
        let ghost views = scene_lock_views(locks@);
        let mut records: Vec<(u8, u8, u8)> = Vec::new();
        let mut i: usize = 0;
        while i < locks.len()
            invariant
                i <= locks@.len(),
                views == scene_lock_views(locks@),
                records@.len() == i,
                forall|j: int| 0 <= j < i ==> #[trigger] records@[j] == spec_lock_records(views)[j],
                spec_first_target_error(views, i as nat) is None,
                forall|j: int| 0 <= j < i ==> (true ==> views[j].value <= 127),
            decreases locks@.len() - i,
        {
            let lock = locks[i];
            proof {
                use_type_invariant(&lock);
            }
            match validate_target(lock.track, lock.parameter) {
                Ok(()) => {},
                Err(e) => {
                    proof {
                        assert(views[i as int] == lock@);
                        assert(spec_first_target_error(views, (i + 1) as nat) == Some(e));
                        lemma_first_target_error_stable(views, (i + 1) as nat, views.len());
                    }
                    return Err(e);
                },
            }
            records.push((lock.value, lock.track.raw_id(), lock.parameter.raw_id));
            i += 1;
        }
        let id = validate_macro_id(id)?;
        assert(records@ =~= spec_lock_records(views));
        let ghost before = self.raw@;
        let r = replace_records(&mut self.raw, id, &records);
        proof {
            if r is Ok {
                lemma_no_target_error(true, views, views.len());
                lemma_lock_records_decode(true, views);
                lemma_replace_records_lists(before, true, id, records@);
            }
        }
        r
    }

    /// Clears every typed or unknown record belonging to one Scene.
    pub fn clear(&mut self, id: usize) -> (r: Result<(), RytmError>)
        ensures
            spec_clear_macro(old(self)@, id as int) matches Ok(new_raw) ==> r is Ok && final(self)@
                == new_raw,
            spec_clear_macro(old(self)@, id as int) matches Err(e) ==> r == Err::<(), RytmError>(e)
                && final(self)@ == old(self)@,
            r is Ok ==> spec_macro_definition(final(self)@, true, id as u8).locks.len() == 0
                && spec_macro_definition(final(self)@, true, id as u8).unknown_locks.len() == 0
                && spec_others_unchanged(old(self)@, final(self)@, true, id as int),
            r is Ok ==> spec_clear_macro(final(self)@, id as int) == Ok::<Seq<u8>, RytmError>(
                final(self)@,
            ),
    {
        let id = validate_macro_id(id)?;
        proof {
            lemma_clear_lists(self.raw@, true, id);
            lemma_clear_idempotent(self.raw@, id);
        }
        clear_records(&mut self.raw, id);
        Ok(())
    }

    /// Copies a complete Scene, including unrecognized records, to another ID.
    pub fn copy(&mut self, source: usize, target: usize) -> (r: Result<(), RytmError>)
        ensures
            spec_copy_macro(old(self)@, source as int, target as int) matches Ok(new_raw) ==> r is Ok
                && final(self)@ == new_raw,
            spec_copy_macro(old(self)@, source as int, target as int) matches Err(e) ==> r == Err::<
                (),
                RytmError,
            >(e) && final(self)@ == old(self)@,
            r is Ok ==> spec_macro_definition(final(self)@, true, target as u8).locks
                == spec_macro_definition(old(self)@, true, source as u8).locks
                && spec_macro_definition(final(self)@, true, target as u8).unknown_locks.len()
                == spec_macro_definition(old(self)@, true, source as u8).unknown_locks.len()
                && spec_others_unchanged(old(self)@, final(self)@, true, target as int),
    {
        let source = validate_macro_id(source)?;
        let target = validate_macro_id(target)?;
        let ghost before = self.raw@;
        let r = copy_records(&mut self.raw, source, target);
        proof {
            if r is Ok {
                lemma_copy_records_lists(before, true, source, target);
            }
        }
        r
    }

    /// Counts the used records, typed or not, of all 12 Scene definitions.
    pub fn lock_count(&self) -> (r: usize)
        ensures
            r == spec_used_count(self@, 48),
    {
        used_record_count(&self.raw)
    }

    /// Returns every used record that belongs to no valid id or cannot be typed.
    pub fn unknown_locks(&self) -> (r: Vec<UnknownMacroLock>)
        ensures
            unknown_lock_views(r@) == spec_unknown_records(self@, true, 48),
            forall|id: u8|
                id < 12 ==> #[trigger] spec_unknown_with_id(unknown_lock_views(r@), id)
                    == spec_macro_definition(self@, true, id).unknown_locks,
    {
        proof {
            assert forall|id: u8| id < 12 implies #[trigger] spec_unknown_with_id(
                spec_unknown_records(self@, true, 48),
                id,
            ) == spec_macro_definition(self@, true, id).unknown_locks by {
                lemma_unknown_records_by_id(self@, true, id, 48);
            }
        }
        let mut unknown_locks: Vec<UnknownMacroLock> = Vec::new();
        let mut slot: usize = 0;
        while slot < 48
            invariant
                slot <= 48,
                unknown_lock_views(unknown_locks@) == spec_unknown_records(self.raw@, true, slot as nat),
            decreases 48 - slot,
        {
            let ghost old_unknown = unknown_locks@;
            let id = self.raw[4 * slot + 3];
            if id != 0xFF && (id >= 12 || decode_scene_record(
                self.raw[4 * slot],
                self.raw[4 * slot + 1],
                self.raw[4 * slot + 2],
            ).is_none()) {
                let unknown = unknown_lock(&self.raw, slot);
                unknown_locks.push(unknown);
                assert(unknown_lock_views(unknown_locks@) =~= unknown_lock_views(old_unknown).push(
                    unknown@,
                ));
            }
            slot += 1;
        }
        unknown_locks
    }
}

/// Lossless storage and typed access for all 12 Performance definitions.
#[derive(Debug, Clone, PartialEq, Eq)]
pub struct PerformanceDefinitions {
    raw: [u8; 192],
}

impl View for PerformanceDefinitions {
    type V = Seq<u8>;

    closed spec fn view(&self) -> Seq<u8> {
        self.raw@
    }
}

impl Default for PerformanceDefinitions {
    fn default() -> (r: Self)
        ensures
            r@ == spec_empty_table(),
    {
        PerformanceDefinitions::from_raw(default_macro_records())
    }
}

impl PerformanceDefinitions {
    /// Wraps a raw 192-byte record table.
    pub fn from_raw(raw: [u8; 192]) -> (r: Self)
        ensures
            r@ == raw@,
    {
        PerformanceDefinitions { raw }
    }

    /// Returns the raw 192-byte record table.
    pub fn raw(&self) -> (r: [u8; 192])
        ensures
            r@ == self@,
    {
        self.raw
    }

    /// Returns one typed Performance definition while retaining unrecognized records separately.
    pub fn definition(&self, id: usize) -> (r: Result<PerformanceDefinition, RytmError>)
        ensures
            id >= 12 ==> r == Err::<PerformanceDefinition, RytmError>(
                spec_range_error(id as int, ParameterName::MacroId),
            ),
            id < 12 ==> r is Ok && r->Ok_0@ == spec_macro_definition(self@, false, id as u8),
    {
        let id = validate_macro_id(id)?;
        let mut locks: Vec<PerformanceLock> = Vec::new();
        let mut unknown_locks: Vec<UnknownMacroLock> = Vec::new();
        let mut slot: usize = 0;
        while slot < 48
            invariant
                slot <= 48,
                id < 12,
                performance_lock_views(locks@) == spec_macro_locks(self.raw@, false, id, slot as nat),
                unknown_lock_views(unknown_locks@) == spec_macro_unknown(
                    self.raw@,
                    false,
                    id,
                    slot as nat,
                ),
                locks.len() + unknown_locks.len() <= slot,
            decreases 48 - slot,
        {
            let ghost old_locks = locks@;
            let ghost old_unknown = unknown_locks@;
            if self.raw[4 * slot + 3] == id {
                match decode_performance_record(
                    self.raw[4 * slot],
                    self.raw[4 * slot + 1],
                    self.raw[4 * slot + 2],
                ) {
                    Some(lock) => {
                        locks.push(lock);
                        assert(performance_lock_views(locks@) =~= performance_lock_views(old_locks).push(lock@));
                    },
                    None => {
                        let unknown = unknown_lock(&self.raw, slot);
                        unknown_locks.push(unknown);
                        assert(unknown_lock_views(unknown_locks@) =~= unknown_lock_views(
                            old_unknown,
                        ).push(unknown@));
                    },
                }
            }
            slot += 1;
        }
        Ok(PerformanceDefinition { id, locks, unknown_locks })
    }

    /// Returns all 12 Performance definitions.
    pub fn definitions(&self) -> (r: Vec<PerformanceDefinition>)
        ensures
            r@.len() == 12,
            forall|i: int| 0 <= i < 12 ==> (#[trigger] r@[i])@ == spec_macro_definition(self@, false, i as u8),
    {
        let mut definitions: Vec<PerformanceDefinition> = Vec::new();
        let mut id: usize = 0;
        while id < KIT_MACRO_COUNT
            invariant
                id <= 12,
                definitions@.len() == id,
                forall|i: int|
                    0 <= i < id ==> (#[trigger] definitions@[i])@ == spec_macro_definition(
                        self@,
                        false,
                        i as u8,
                    ),
            decreases 12 - id,
        {
            match self.definition(id) {
                Ok(definition) => definitions.push(definition),
                Err(_) => {
                    proof {
                        assert(false);
                    }
                },
            }
            id += 1;
        }
        definitions
    }

    /// Defines or replaces one target inside a Performance.
    pub fn set_lock(&mut self, id: usize, lock: PerformanceLock) -> (r: Result<(), RytmError>)
        ensures
            spec_set_lock(old(self)@, id as int, lock@) matches Ok(new_raw) ==> r is Ok && final(self)@
                == new_raw,
            spec_set_lock(old(self)@, id as int, lock@) matches Err(e) ==> r == Err::<(), RytmError>(e)
                && final(self)@ == old(self)@,
            r is Ok ==> spec_macro_locks(final(self)@, false, id as u8, 48).contains(lock@)
                && spec_others_unchanged(old(self)@, final(self)@, false, id as int),
            spec_validate_target(lock@.track, lock@.parameter) is Ok,
            id < 12 ==> (r is Err <==> (spec_first_target(
                old(self)@,
                id as u8,
                spec_track_raw_id(lock@.track),
                lock@.parameter.raw_id,
                0,
            ) is None && spec_used_count(old(self)@, 48) == 48)),
            r is Err && id < 12 ==> r == Err::<(), RytmError>(spec_macro_memory_full()),
            r is Ok ==> spec_used_count(final(self)@, 48) == spec_used_count(old(self)@, 48) + if spec_first_target(
                old(self)@,
                id as u8,
                spec_track_raw_id(lock@.track),
                lock@.parameter.raw_id,
                0,
            ) is Some {
                0int
            } else {
                1int
            },
    {
        proof {
            use_type_invariant(&lock);
        }
        validate_target(lock.track, lock.parameter)?;
        let id = validate_macro_id(id)?;
        let track = lock.track.raw_id();
        let parameter = lock.parameter.raw_id;
        let ghost before = self.raw@;
        let r = set_record(&mut self.raw, id, track, parameter, lock.depth as u8);
        proof {
            lemma_first_target(before, id, track, parameter, 0);
            lemma_first_free(before, 0);
            lemma_no_free_record_iff_full(before);
            if r is Ok {
                let slot = spec_set_record_slot(before, id, track, parameter)->0;
                lemma_used_count_write(before, slot, lock@.value, track, parameter, id, 48);
                lemma_valid_target_decodes(false, lock@);
                lemma_write_record_lists(before, false, slot, lock@.value, track, parameter, id);
            }
        }
        r
    }

    /// Replaces every lock belonging to one Performance.
    pub fn replace(&mut self, id: usize, locks: &[PerformanceLock]) -> (r: Result<(), RytmError>)
        ensures
            spec_replace_locks(old(self)@, id as int, performance_lock_views(locks@)) matches Ok(new_raw) ==> r is Ok
                && final(self)@ == new_raw,
            spec_replace_locks(old(self)@, id as int, performance_lock_views(locks@)) matches Err(e) ==> r == Err::<
                (),
                RytmError,
            >(e) && final(self)@ == old(self)@,
            r is Ok ==> spec_macro_definition(final(self)@, false, id as u8).locks == performance_lock_views(
                locks@,
            ) && spec_macro_definition(final(self)@, false, id as u8).unknown_locks.len() == 0
                && spec_others_unchanged(old(self)@, final(self)@, false, id as int),
            spec_first_target_error(performance_lock_views(locks@), locks@.len()) is None,
    {
        let ghost views = performance_lock_views(locks@);
        let mut records: Vec<(u8, u8, u8)> = Vec::new();
        let mut i: usize = 0;
        while i < locks.len()
            invariant
                i <= locks@.len(),
                views == performance_lock_views(locks@),
                records@.len() == i,
                forall|j: int| 0 <= j < i ==> #[trigger] records@[j] == spec_lock_records(views)[j],
                spec_first_target_error(views, i as nat) is None,
                forall|j: int| 0 <= j < i ==> (false ==> views[j].value <= 127),
            decreases locks@.len() - i,
        {
            let lock = locks[i];
            proof {
                use_type_invariant(&lock);
            }
            match validate_target(lock.track, lock.parameter) {
                Ok(()) => {},
                Err(e) => {
                    proof {
                        assert(views[i as int] == lock@);
                        assert(spec_first_target_error(views, (i + 1) as nat) == Some(e));
                        lemma_first_target_error_stable(views, (i + 1) as nat, views.len());
                    }
                    return Err(e);
                },
            }
            records.push(((#[verifier::truncate] (lock.depth as u8)), lock.track.raw_id(), lock.parameter.raw_id));
            i += 1;
        }
        let id = validate_macro_id(id)?;
        assert(records@ =~= spec_lock_records(views));
        let ghost before = self.raw@;
        let r = replace_records(&mut self.raw, id, &records);
        proof {
            if r is Ok {
                lemma_no_target_error(false, views, views.len());
                lemma_lock_records_decode(false, views);
                lemma_replace_records_lists(before, false, id, records@);
            }
        }
        r
    }

    /// Clears every typed or unknown record belonging to one Performance.
    pub fn clear(&mut self, id: usize) -> (r: Result<(), RytmError>)
        ensures
            spec_clear_macro(old(self)@, id as int) matches Ok(new_raw) ==> r is Ok && final(self)@
                == new_raw,
            spec_clear_macro(old(self)@, id as int) matches Err(e) ==> r == Err::<(), RytmError>(e)
                && final(self)@ == old(self)@,
            r is Ok ==> spec_macro_definition(final(self)@, false, id as u8).locks.len() == 0
                && spec_macro_definition(final(self)@, false, id as u8).unknown_locks.len() == 0
                && spec_others_unchanged(old(self)@, final(self)@, false, id as int),
            r is Ok ==> spec_clear_macro(final(self)@, id as int) == Ok::<Seq<u8>, RytmError>(
                final(self)@,
            ),
    {
        let id = validate_macro_id(id)?;
        proof {
            lemma_clear_lists(self.raw@, false, id);
            lemma_clear_idempotent(self.raw@, id);
        }
        clear_records(&mut self.raw, id);
        Ok(())
    }

    /// Copies a complete Performance, including unrecognized records, to another ID.
    pub fn copy(&mut self, source: usize, target: usize) -> (r: Result<(), RytmError>)
        ensures
            spec_copy_macro(old(self)@, source as int, target as int) matches Ok(new_raw) ==> r is Ok
                && final(self)@ == new_raw,
            spec_copy_macro(old(self)@, source as int, target as int) matches Err(e) ==> r == Err::<
                (),
                RytmError,
            >(e) && final(self)@ == old(self)@,
            r is Ok ==> spec_macro_definition(final(self)@, false, target as u8).locks
                == spec_macro_definition(old(self)@, false, source as u8).locks
                && spec_macro_definition(final(self)@, false, target as u8).unknown_locks.len()
                == spec_macro_definition(old(self)@, false, source as u8).unknown_locks.len()
                && spec_others_unchanged(old(self)@, final(self)@, false, target as int),
    {
        let source = validate_macro_id(source)?;
        let target = validate_macro_id(target)?;
        let ghost before = self.raw@;
        let r = copy_records(&mut self.raw, source, target);
        proof {
            if r is Ok {
                lemma_copy_records_lists(before, false, source, target);
            }
        }
        r
    }

    /// Counts the used records, typed or not, of all 12 Performance definitions.
    pub fn lock_count(&self) -> (r: usize)
        ensures
            r == spec_used_count(self@, 48),
    {
        used_record_count(&self.raw)
    }

    /// Returns every used record that belongs to no valid id or cannot be typed.
    pub fn unknown_locks(&self) -> (r: Vec<UnknownMacroLock>)
        ensures
            unknown_lock_views(r@) == spec_unknown_records(self@, false, 48),
            forall|id: u8|
                id < 12 ==> #[trigger] spec_unknown_with_id(unknown_lock_views(r@), id)
                    == spec_macro_definition(self@, false, id).unknown_locks,
    {
        proof {
            assert forall|id: u8| id < 12 implies #[trigger] spec_unknown_with_id(
                spec_unknown_records(self@, false, 48),
                id,
            ) == spec_macro_definition(self@, false, id).unknown_locks by {
                lemma_unknown_records_by_id(self@, false, id, 48);
            }
        }
        let mut unknown_locks: Vec<UnknownMacroLock> = Vec::new();
        let mut slot: usize = 0;
        while slot < 48
            invariant
                slot <= 48,
                unknown_lock_views(unknown_locks@) == spec_unknown_records(self.raw@, false, slot as nat),
            decreases 48 - slot,
        {
            let ghost old_unknown = unknown_locks@;
            let id = self.raw[4 * slot + 3];
            if id != 0xFF && (id >= 12 || decode_performance_record(
                self.raw[4 * slot],
                self.raw[4 * slot + 1],
                self.raw[4 * slot + 2],
            ).is_none()) {
                let unknown = unknown_lock(&self.raw, slot);
                unknown_locks.push(unknown);
                assert(unknown_lock_views(unknown_locks@) =~= unknown_lock_views(old_unknown).push(
                    unknown@,
                ));
            }
            slot += 1;
        }
        unknown_locks
    }
}

/// The duplicate-target error for the target `track`, `parameter`.
pub open spec fn duplicate_target_error(track: u8, parameter: u8) -> RytmError {
    RytmError::Parameter(
        ParameterError::Compatibility {
            value: CompatibilityValue::Target(track, parameter),
            parameter_name: ParameterName::MacroLocks,
            reason: Some(CompatibilityReason::DuplicateTargets),
        },
    )
}

/// Valid locks have no target error.
proof fn lemma_valid_locks_no_target_error(locks: Seq<MacroLockModel>, n: nat)
    requires
        n <= locks.len(),
        forall|i: int|
            0 <= i < locks.len() ==> spec_validate_target(#[trigger] locks[i].track, locks[i].parameter)
                is Ok,
    ensures
        spec_first_target_error(locks, n) is None,
    decreases n,
{
    if n > 0 {
        lemma_valid_locks_no_target_error(locks, (n - 1) as nat);
        assert(spec_validate_target(locks[n - 1].track, locks[n - 1].parameter) is Ok);
    }
}

/// A target error is never a duplicate-target error.
proof fn lemma_target_error_is_not_duplicate(locks: Seq<MacroLockModel>, n: nat, track: u8, parameter: u8)
    requires
        n <= locks.len(),
    ensures
        spec_first_target_error(locks, n) != Some(duplicate_target_error(track, parameter)),
    decreases n,
{
    if n > 0 {
        lemma_target_error_is_not_duplicate(locks, (n - 1) as nat, track, parameter);
    }
}

/// Law: replacing a macro's locks with valid locks whose targets (track, parameter) are pairwise
/// distinct, and that fit in the free records plus the macro's own, succeeds; and a
/// duplicate-target error names a target that two of the locks share, track and parameter both.
pub proof fn lemma_replace_refuses_only_shared_targets(
    raw: Seq<u8>,
    id: int,
    locks: Seq<MacroLockModel>,
)
    requires
        raw.len() == 192,
    ensures
        (0 <= id < 12 && (forall|i: int|
            0 <= i < locks.len() ==> spec_validate_target(
                #[trigger] locks[i].track,
                locks[i].parameter,
            ) is Ok) && (forall|i: int, j: int|
            0 <= i < j < locks.len() ==> !(spec_track_raw_id(locks[i].track) == spec_track_raw_id(
                locks[j].track,
            ) && locks[i].parameter.raw_id == locks[j].parameter.raw_id)) && locks.len()
            <= spec_free_count(raw, 48) + spec_id_count(raw, id as u8, 48)) ==> spec_replace_locks(
            raw,
            id,
            locks,
        ) is Ok,
        forall|track: u8, parameter: u8|
            spec_replace_locks(raw, id, locks) == Err::<Seq<u8>, RytmError>(
                #[trigger] duplicate_target_error(track, parameter),
            ) ==> exists|i: int, j: int|
                0 <= i < j < locks.len() && spec_track_raw_id(locks[i].track) == track
                    && spec_track_raw_id(locks[j].track) == track && locks[i].parameter.raw_id
                    == parameter && locks[j].parameter.raw_id == parameter,
{
    let recs = spec_lock_records(locks);
    lemma_first_duplicate_finds_shared_targets(recs, recs.len());
    assert forall|i: int| 0 <= i < locks.len() implies (#[trigger] recs[i]).1 == spec_track_raw_id(
        locks[i].track,
    ) && recs[i].2 == locks[i].parameter.raw_id by {}
    if 0 <= id < 12 {
        lemma_available_is_free_and_own(raw, id as u8, 48);
        if forall|i: int|
            0 <= i < locks.len() ==> spec_validate_target(
                #[trigger] locks[i].track,
                locks[i].parameter,
            ) is Ok {
            lemma_valid_locks_no_target_error(locks, locks.len());
        }
    }
    assert forall|track: u8, parameter: u8|
        spec_replace_locks(raw, id, locks) == Err::<Seq<u8>, RytmError>(
            #[trigger] duplicate_target_error(track, parameter),
        ) implies exists|i: int, j: int|
        0 <= i < j < locks.len() && spec_track_raw_id(locks[i].track) == track && spec_track_raw_id(
            locks[j].track,
        ) == track && locks[i].parameter.raw_id == parameter && locks[j].parameter.raw_id
            == parameter by {
        lemma_target_error_is_not_duplicate(locks, locks.len(), track, parameter);
        let d = spec_first_duplicate(recs, recs.len())->0;
        assert(spec_first_duplicate(recs, recs.len()) is Some);
        assert(d.0 == track && d.1 == parameter);
        let (i, j) = choose|i: int, j: int|
            0 <= i < j < recs.len() && recs[i].1 == d.0 && recs[j].1 == d.0 && recs[i].2 == d.1
                && recs[j].2 == d.1;
        assert(recs[i].1 == spec_track_raw_id(locks[i].track));
        assert(recs[j].1 == spec_track_raw_id(locks[j].track));
    }
}

/// Law: copying a macro to another succeeds exactly when the source's records fit in the
/// records that are free or belong to the target; otherwise the table is full. Copying a macro
/// to itself always succeeds.
pub proof fn lemma_copy_needs_room_in_free_and_target_records(raw: Seq<u8>, source: int, target: int)
    requires
        raw.len() == 192,
        0 <= source < 12,
        0 <= target < 12,
    ensures
        spec_id_count(raw, source as u8, 48) <= spec_free_count(raw, 48) + spec_id_count(
            raw,
            target as u8,
            48,
        ) ==> spec_copy_macro(raw, source, target) is Ok,
        source != target && spec_id_count(raw, source as u8, 48) > spec_free_count(raw, 48)
            + spec_id_count(raw, target as u8, 48) ==> spec_copy_macro(raw, source, target)
            == Err::<Seq<u8>, RytmError>(RytmError::Custom(CustomError::KitMacroLockMemoryFull)),
        source == target ==> spec_copy_macro(raw, source, target) == Ok::<Seq<u8>, RytmError>(raw),
{
    lemma_available_is_free_and_own(raw, target as u8, 48);
    lemma_records_with_id_count(raw, source as u8, 48);
}

} // verus!
