//! The Analog Rytm `SysEx` envelope: object types, metadata, envelope validation and the
//! validated, byte-preserving raw response object.
//!
//! The 7-bit unpacking and packing of object data is done by `libanalogrytm`; this module holds
//! the checks that come before and after that codec and everything that does not need it.

use crate::error::{
    range_error, spec_conversion_error_from_code, spec_range_error, ParameterName, RytmError,
    SysexConversionError,
};
use vstd::prelude::*;

verus! {

/// Pattern `SysEx` response size for FW 1.70.
pub const PATTERN_SYSEX_SIZE: usize = 14988;
/// Kit `SysEx` response size for FW 1.70.
pub const KIT_SYSEX_SIZE: usize = 2998;
/// Sound `SysEx` response size for FW 1.70.
pub const SOUND_SYSEX_SIZE: usize = 201;
/// Settings `SysEx` response size for FW 1.70.
pub const SETTINGS_SYSEX_SIZE: usize = 2401;
/// Global `SysEx` response size for FW 1.70.
pub const GLOBAL_SYSEX_SIZE: usize = 107;
/// Song `SysEx` response size for FW 1.70.
pub const SONG_SYSEX_SIZE: usize = 1506;
/// Size of the decoded Song object.
pub const SONG_RAW_SIZE: usize = 1304;

/// Index of the message-type (dump id) byte in a response.
pub const SYSEX_MESSAGE_TYPE_BYTE_INDEX: usize = 6;

/// The dump id of the first stored object type (Kit).
pub const DUMP_ID_BASE: u8 = 0x52;
/// The dump id of the first work-buffer object type (Kit).
pub const DUMPX_ID_BASE: u8 = 0x58;

/// The object types that the device dumps.
#[derive(Debug, Clone, Copy, PartialEq, Eq, Hash, Structural)]
pub enum SysexType {
    Pattern,
    Kit,
    Sound,
    Song,
    Settings,
    Global,
}

/// The `libanalogrytm` object type id of a type.
pub open spec fn spec_object_type_id(t: SysexType) -> u8 {
    match t {
        SysexType::Kit => 0,
        SysexType::Sound => 1,
        SysexType::Pattern => 2,
        SysexType::Song => 3,
        SysexType::Settings => 4,
        SysexType::Global => 5,
    }
}

/// The type of an object type id.
pub open spec fn spec_type_from_object_type_id(id: u8) -> Option<SysexType> {
    match id {
        0 => Some(SysexType::Kit),
        1 => Some(SysexType::Sound),
        2 => Some(SysexType::Pattern),
        3 => Some(SysexType::Song),
        4 => Some(SysexType::Settings),
        5 => Some(SysexType::Global),
        _ => None,
    }
}

/// Whether a byte is a stored-object or work-buffer dump id.
pub open spec fn spec_is_dump_id(id: u8) -> bool {
    (0x52 <= id <= 0x57) || (0x58 <= id <= 0x5D)
}

/// The type that a dump id announces.
pub open spec fn spec_type_from_dump_id(id: u8) -> Option<SysexType> {
    if 0x52 <= id <= 0x57 {
        spec_type_from_object_type_id((id - 0x52) as u8)
    } else if 0x58 <= id <= 0x5D {
        spec_type_from_object_type_id((id - 0x58) as u8)
    } else {
        None
    }
}

/// The response size of each type for FW 1.70.
pub open spec fn spec_sysex_size(t: SysexType) -> usize {
    match t {
        SysexType::Pattern => PATTERN_SYSEX_SIZE,
        SysexType::Kit => KIT_SYSEX_SIZE,
        SysexType::Sound => SOUND_SYSEX_SIZE,
        SysexType::Settings => SETTINGS_SYSEX_SIZE,
        SysexType::Global => GLOBAL_SYSEX_SIZE,
        SysexType::Song => SONG_SYSEX_SIZE,
    }
}

impl SysexType {
    /// Returns the `libanalogrytm` object type id.
    pub fn object_type_id(self) -> (r: u8)
        ensures
            r == spec_object_type_id(self),
    {
        match self {
            SysexType::Kit => 0,
            SysexType::Sound => 1,
            SysexType::Pattern => 2,
            SysexType::Song => 3,
            SysexType::Settings => 4,
            SysexType::Global => 5,
        }
    }

    /// Returns the type of an object type id.
    ///
    /// # Errors
    ///
    /// Ids above 5 name no object type.
    pub fn try_from_object_type_id(id: u8) -> (r: Result<SysexType, RytmError>)
        ensures
            spec_type_from_object_type_id(id) matches Some(t) ==> r == Ok::<SysexType, RytmError>(t),
            spec_type_from_object_type_id(id) is None ==> r == Err::<SysexType, RytmError>(
                RytmError::SysexConversion(SysexConversionError::InvalidObjType),
            ),
    {
        match id {
            0 => Ok(SysexType::Kit),
            1 => Ok(SysexType::Sound),
            2 => Ok(SysexType::Pattern),
            3 => Ok(SysexType::Song),
            4 => Ok(SysexType::Settings),
            5 => Ok(SysexType::Global),
            _ => Err(RytmError::SysexConversion(SysexConversionError::InvalidObjType)),
        }
    }

    /// Returns the type that a stored-object or work-buffer dump id announces.
    ///
    /// # Errors
    ///
    /// Bytes outside `0x52..=0x5D` are no dump id.
    pub fn try_from_dump_id(id: u8) -> (r: Result<SysexType, RytmError>)
        ensures
            spec_type_from_dump_id(id) matches Some(t) ==> r == Ok::<SysexType, RytmError>(t),
            spec_type_from_dump_id(id) is None ==> r == Err::<SysexType, RytmError>(
                RytmError::SysexConversion(SysexConversionError::InvalidDumpMsgId),
            ),
    {
        if DUMP_ID_BASE <= id && id <= 0x57 {
            SysexType::try_from_object_type_id(id - DUMP_ID_BASE)
        } else if DUMPX_ID_BASE <= id && id <= 0x5D {
            SysexType::try_from_object_type_id(id - DUMPX_ID_BASE)
        } else {
            Err(RytmError::SysexConversion(SysexConversionError::InvalidDumpMsgId))
        }
    }
}

/// Meta type for `SysEx` messages: a known object type or an unknown byte.
#[derive(Debug, Clone, Copy, PartialEq, Eq, Hash, Structural)]
pub enum AnySysexType {
    Known(SysexType),
    Unknown(u8),
}

/// The meta type that a byte stands for: a dump id first, then an object type id.
pub open spec fn spec_any_sysex_type_from_byte(t: u8) -> AnySysexType {
    match spec_type_from_dump_id(t) {
        Some(known) => AnySysexType::Known(known),
        None => match spec_type_from_object_type_id(t) {
            Some(known) => AnySysexType::Known(known),
            None => AnySysexType::Unknown(t),
        },
    }
}

/// The byte of a meta type: the object type id of a known type.
pub open spec fn spec_any_sysex_type_to_byte(t: AnySysexType) -> u8 {
    match t {
        AnySysexType::Known(known) => spec_object_type_id(known),
        AnySysexType::Unknown(byte) => byte,
    }
}

impl From<SysexType> for AnySysexType {
    fn from(t: SysexType) -> (r: Self)
        ensures
            r == AnySysexType::Known(t),
    {
        AnySysexType::Known(t)
    }
}

impl vstd::std_specs::convert::FromSpecImpl<SysexType> for AnySysexType {
    open spec fn obeys_from_spec() -> bool {
        true
    }

    open spec fn from_spec(t: SysexType) -> AnySysexType {
        AnySysexType::Known(t)
    }
}

impl From<u8> for AnySysexType {
    fn from(t: u8) -> (r: Self)
        ensures
            r == spec_any_sysex_type_from_byte(t),
    {
        if let Ok(known) = SysexType::try_from_dump_id(t) {
            return AnySysexType::Known(known);
        }
        if let Ok(known) = SysexType::try_from_object_type_id(t) {
            return AnySysexType::Known(known);
        }
        AnySysexType::Unknown(t)
    }
}

impl vstd::std_specs::convert::FromSpecImpl<u8> for AnySysexType {
    open spec fn obeys_from_spec() -> bool {
        true
    }

    open spec fn from_spec(t: u8) -> AnySysexType {
        spec_any_sysex_type_from_byte(t)
    }
}

impl From<AnySysexType> for u8 {
    fn from(t: AnySysexType) -> (r: u8)
        ensures
            r == spec_any_sysex_type_to_byte(t),
    {
        match t {
            AnySysexType::Known(known) => known.object_type_id(),
            AnySysexType::Unknown(byte) => byte,
        }
    }
}

impl vstd::std_specs::convert::FromSpecImpl<AnySysexType> for u8 {
    open spec fn obeys_from_spec() -> bool {
        true
    }

    open spec fn from_spec(t: AnySysexType) -> u8 {
        spec_any_sysex_type_to_byte(t)
    }
}

/// Law: a byte read as a meta type and written back is unchanged, except a dump id, which comes
/// back as the object type id of the type it announces.
pub proof fn lemma_any_sysex_type_byte_round_trip(t: u8)
    ensures
        !spec_is_dump_id(t) ==> spec_any_sysex_type_to_byte(spec_any_sysex_type_from_byte(t)) == t,
        0x52 <= t <= 0x57 ==> spec_any_sysex_type_to_byte(spec_any_sysex_type_from_byte(t)) == t
            - 0x52,
        0x58 <= t <= 0x5D ==> spec_any_sysex_type_to_byte(spec_any_sysex_type_from_byte(t)) == t
            - 0x58,
{
}

/// Law: a known type written as a byte and read back is unchanged.
pub proof fn lemma_sysex_type_byte_round_trip(t: SysexType)
    ensures
        spec_any_sysex_type_from_byte(spec_any_sysex_type_to_byte(AnySysexType::Known(t)))
            == AnySysexType::Known(t),
{
}

/// Metadata of a `SysEx` object, as `libanalogrytm` fills it.
#[derive(Debug, Clone, Copy, PartialEq, Eq, Hash, Structural)]
pub struct SysexMeta {
    pub container_version: u16,
    pub dev_id: u8,
    /// The object type id.
    pub obj_type: u8,
    /// The object number; 128 and above target the work buffer.
    pub obj_nr: u16,
    pub chksum: u16,
    pub data_size: u16,
}

/// The default container version.
pub const SYSEX_DEFAULT_CONTAINER_VERSION: u16 = 0x0101;

/// The metadata of a stored Song `index` for `dev_id`.
pub open spec fn spec_song_meta(obj_nr: u16, dev_id: u8) -> SysexMeta {
    SysexMeta {
        container_version: 0x0101,
        dev_id,
        obj_type: 3,
        obj_nr,
        chksum: 0,
        data_size: 0,
    }
}

impl SysexMeta {
    /// Returns the object type.
    ///
    /// # Errors
    ///
    /// Object type ids above 5 name no type.
    pub fn object_type(&self) -> (r: Result<SysexType, RytmError>)
        ensures
            spec_type_from_object_type_id(self.obj_type) matches Some(t) ==> r == Ok::<
                SysexType,
                RytmError,
            >(t),
            spec_type_from_object_type_id(self.obj_type) is None ==> r == Err::<SysexType, RytmError>(
                RytmError::SysexConversion(SysexConversionError::InvalidObjType),
            ),
    {
        SysexType::try_from_object_type_id(self.obj_type)
    }

    /// Returns whether the object targets the work buffer.
    pub fn is_targeting_work_buffer(&self) -> (r: bool)
        ensures
            r == (self.obj_nr >= 128),
    {
        self.obj_nr >= 128
    }

    /// Returns the object number without the work-buffer flag.
    pub fn get_normalized_object_index(&self) -> (r: usize)
        ensures
            r == self.obj_nr % 128,
    {
        let nr = self.obj_nr;
        let index = nr & 0x7F;
        assert(nr & 0x7F == nr % 128) by (bit_vector);
        index as usize
    }

    /// Changes the target device ID.
    pub fn set_device_id(&mut self, device_id: u8)
        ensures
            *final(self) == (SysexMeta { dev_id: device_id, ..*old(self) }),
    {
        self.dev_id = device_id;
    }

    /// Metadata for the stored Song `index`.
    ///
    /// # Errors
    ///
    /// Song indices must be in `0..=15`.
    pub fn try_default_for_song(index: usize, device_id: Option<u8>) -> (r: Result<Self, RytmError>)
        ensures
            index > 15 ==> r == Err::<SysexMeta, RytmError>(
                spec_range_error(index as int, ParameterName::SongIndex),
            ),
            index <= 15 ==> r == Ok::<SysexMeta, RytmError>(
                spec_song_meta(
                    index as u16,
                    match device_id {
                        Some(d) => d,
                        None => 0,
                    },
                ),
            ),
    {
        if index > 15 {
            return Err(range_error(index, ParameterName::SongIndex));
        }
        let dev_id = match device_id {
            Some(d) => d,
            None => 0,
        };
        Ok(
            SysexMeta {
                container_version: SYSEX_DEFAULT_CONTAINER_VERSION,
                dev_id,
                obj_type: 3,
                obj_nr: index as u16,
                chksum: 0,
                data_size: 0,
            },
        )
    }

    /// Metadata for the work-buffer Song.
    pub fn default_for_song_in_work_buffer(device_id: Option<u8>) -> (r: Self)
        ensures
            r == spec_song_meta(
                0x80,
                match device_id {
                    Some(d) => d,
                    None => 0,
                },
            ),
    {
        let dev_id = match device_id {
            Some(d) => d,
            None => 0,
        };
        SysexMeta {
            container_version: SYSEX_DEFAULT_CONTAINER_VERSION,
            dev_id,
            obj_type: 3,
            obj_nr: 0x80,
            chksum: 0,
            data_size: 0,
        }
    }
}

/// The sum of a byte sequence.
pub open spec fn spec_byte_sum(s: Seq<u8>) -> nat
    decreases s.len(),
{
    if s.len() == 0 {
        0
    } else {
        spec_byte_sum(s.drop_last()) + s.last() as nat
    }
}

/// Whether every byte between the framing bytes is a 7-bit data byte.
pub open spec fn spec_body_is_seven_bit(b: Seq<u8>) -> bool {
    forall|i: int| 1 <= i < b.len() - 1 ==> b[i] < 0x80
}

/// The checksum of a response: the sum of the bytes between the 10-byte header and the
/// 5-byte trailer, modulo `0x4000`.
pub open spec fn spec_response_checksum(b: Seq<u8>) -> int {
    spec_byte_sum(b.subrange(10, b.len() - 5)) as int % 0x4000
}

/// The outcome of checking a response's framing, 7-bit body, checksum and encoded size.
pub open spec fn spec_check_envelope(b: Seq<u8>) -> Result<(), RytmError> {
    if b.len() < 15 {
        Err(RytmError::SysexConversion(SysexConversionError::ShortRead))
    } else if b[0] != 0xF0 || b[b.len() - 1] != 0xF7 || !spec_body_is_seven_bit(b) {
        Err(RytmError::SysexConversion(SysexConversionError::NotASysexMsg))
    } else if spec_response_checksum(b) != b[b.len() - 5] * 128 + b[b.len() - 4] {
        Err(RytmError::SysexConversion(SysexConversionError::Chksum))
    } else if b[b.len() - 3] * 128 + b[b.len() - 2] != b.len() - 10 {
        Err(
            RytmError::SysexConversion(
                SysexConversionError::InvalidSize(
                    (b.len() - 10) as usize,
                    (b[b.len() - 3] * 128 + b[b.len() - 2]) as usize,
                ),
            ),
        )
    } else {
        Ok(())
    }
}

fn response_checksum(bytes: &[u8]) -> (r: u16)
    requires
        bytes@.len() >= 15,
    ensures
        r as int == spec_response_checksum(bytes@),
{
    let trailer = bytes.len() - 5;
    let mut sum: u16 = 0;
    let mut i: usize = 10;
    assert(bytes@.subrange(10, 10) =~= Seq::<u8>::empty());
    while i < trailer
        invariant
            10 <= i <= trailer,
            trailer == bytes@.len() - 5,
            sum as int == spec_byte_sum(bytes@.subrange(10, i as int)) as int % 0x10000,
        decreases trailer - i,
    {
        let ghost prefix = bytes@.subrange(10, i as int);
        assert(bytes@.subrange(10, i + 1).drop_last() =~= prefix);
        let byte = bytes[i];
        proof {
            vstd::arithmetic::div_mod::lemma_add_mod_noop(
                spec_byte_sum(prefix) as int,
                byte as int,
                0x10000,
            );
            vstd::arithmetic::div_mod::lemma_small_mod(byte as nat, 0x10000);
            let total = sum as int + byte as int;
            if total >= 0x10000 {
                vstd::arithmetic::div_mod::lemma_small_mod((total - 0x10000) as nat, 0x10000);
                vstd::arithmetic::div_mod::lemma_mod_sub_multiples_vanish(total, 0x10000);
            } else {
                vstd::arithmetic::div_mod::lemma_small_mod(total as nat, 0x10000);
            }
        }
        sum = sum.wrapping_add(byte as u16);
        i += 1;
    }
    let masked = sum & 0x3FFF;
    proof {
        assert(sum & 0x3FFF == sum % 0x4000) by (bit_vector);
        vstd::arithmetic::div_mod::lemma_mod_mod(
            spec_byte_sum(bytes@.subrange(10, trailer as int)) as int,
            0x4000,
            4,
        );
    }
    masked
}

fn check_envelope(bytes: &[u8]) -> (r: Result<(), RytmError>)
    ensures
        r == spec_check_envelope(bytes@),
{
    if bytes.len() < 15 {
        return Err(RytmError::SysexConversion(SysexConversionError::ShortRead));
    }
    if bytes[0] != 0xF0 || bytes[bytes.len() - 1] != 0xF7 {
        return Err(RytmError::SysexConversion(SysexConversionError::NotASysexMsg));
    }
    let mut i: usize = 1;
    while i < bytes.len() - 1
        invariant
            1 <= i <= bytes@.len() - 1,
            bytes@.len() >= 15,
            forall|j: int| 1 <= j < i ==> bytes@[j] < 0x80,
        decreases bytes@.len() - 1 - i,
    {
        if bytes[i] >= 0x80 {
            return Err(RytmError::SysexConversion(SysexConversionError::NotASysexMsg));
        }
        i += 1;
    }
    let trailer = bytes.len() - 5;
    let hi = bytes[trailer];
    let lo = bytes[trailer + 1];
    let expected_checksum = ((hi as u16) << 7) | (lo as u16);
    assert(((hi as u16) << 7) | (lo as u16) == (hi as u16) * 128 + (lo as u16)) by (bit_vector)
        requires
            hi < 0x80,
            lo < 0x80,
    ;
    let calculated_checksum = response_checksum(bytes);
    if calculated_checksum != expected_checksum {
        return Err(RytmError::SysexConversion(SysexConversionError::Chksum));
    }
    let size_hi = bytes[trailer + 2] as usize;
    let size_lo = bytes[trailer + 3] as usize;
    let encoded_size = (size_hi << 7) | size_lo;
    assert((size_hi << 7) | size_lo == size_hi * 128 + size_lo) by (bit_vector)
        requires
            size_hi < 0x80,
            size_lo < 0x80,
    ;
    if encoded_size != bytes.len() - 10 {
        return Err(
            RytmError::SysexConversion(
                SysexConversionError::InvalidSize(bytes.len() - 10, encoded_size),
            ),
        );
    }
    Ok(())
}

/// The checks that a response passes before it is handed to the codec: long enough to hold
/// the message type, a dump id, and the exact size of that type.
pub open spec fn spec_check_response_shape(b: Seq<u8>) -> Result<SysexType, RytmError> {
    if b.len() <= 6 {
        Err(RytmError::SysexConversion(SysexConversionError::ShortRead))
    } else {
        match spec_type_from_dump_id(b[6]) {
            None => Err(RytmError::SysexConversion(SysexConversionError::InvalidDumpMsgId)),
            Some(t) => if b.len() != spec_sysex_size(t) {
                Err(
                    RytmError::SysexConversion(
                        SysexConversionError::InvalidSize(spec_sysex_size(t), b.len() as usize),
                    ),
                )
            } else {
                Ok(t)
            },
        }
    }
}

/// Checks a response before it is decoded: it must hold a message type, announce a dump, and
/// have the exact size of the announced type. Returns the announced type.
///
/// # Errors
///
/// A response too short to hold its message type is a short read (the device sometimes sends
/// incomplete messages at the start of a transmission); otherwise an unknown dump id or a size
/// other than the type's is an error.
pub fn check_response_shape(response: &[u8]) -> (r: Result<SysexType, RytmError>)
    ensures
        r == spec_check_response_shape(response@),
{
    if response.len() <= SYSEX_MESSAGE_TYPE_BYTE_INDEX {
        return Err(RytmError::SysexConversion(SysexConversionError::ShortRead));
    }
    let response_type = SysexType::try_from_dump_id(response[SYSEX_MESSAGE_TYPE_BYTE_INDEX])?;
    let expected_response_size = match response_type {
        SysexType::Pattern => PATTERN_SYSEX_SIZE,
        SysexType::Kit => KIT_SYSEX_SIZE,
        SysexType::Sound => SOUND_SYSEX_SIZE,
        SysexType::Settings => SETTINGS_SYSEX_SIZE,
        SysexType::Global => GLOBAL_SYSEX_SIZE,
        SysexType::Song => SONG_SYSEX_SIZE,
    };
    if response.len() != expected_response_size {
        return Err(
            RytmError::SysexConversion(
                SysexConversionError::InvalidSize(expected_response_size, response.len()),
            ),
        );
    }
    Ok(response_type)
}

/// The outcome of a codec call: the decoded bytes and metadata when the return code is zero,
/// else the error the code stands for.
pub open spec fn spec_codec_outcome(return_code: u8, raw: Seq<u8>, meta: SysexMeta) -> Result<
    (Seq<u8>, SysexMeta),
    RytmError,
> {
    if return_code != 0 {
        Err(RytmError::SysexConversion(spec_conversion_error_from_code(return_code)))
    } else {
        Ok((raw, meta))
    }
}

/// Turns the return code, destination buffer and metadata of `libanalogrytm`'s decoder into
/// the decoded object or the codec's error.
///
/// # Errors
///
/// A non-zero return code is the codec's error.
pub fn codec_outcome(return_code: u8, raw: Vec<u8>, meta: SysexMeta) -> (r: Result<
    (Vec<u8>, SysexMeta),
    RytmError,
>)
    ensures
        return_code != 0 ==> r == Err::<(Vec<u8>, SysexMeta), RytmError>(
            RytmError::SysexConversion(spec_conversion_error_from_code(return_code)),
        ),
        return_code == 0 ==> r is Ok && r->Ok_0.0@ == raw@ && r->Ok_0.1 == meta,
{
    if return_code != 0 {
        return Err(RytmError::SysexConversion(SysexConversionError::from_code(return_code)));
    }
    Ok((raw, meta))
}

/// Copies a byte slice into a vector.
fn copy_bytes(bytes: &[u8]) -> (r: Vec<u8>)
    ensures
        r@ == bytes@,
{
    let mut out: Vec<u8> = Vec::with_capacity(bytes.len());
    let mut i: usize = 0;
    while i < bytes.len()
        invariant
            i <= bytes@.len(),
            out@ == bytes@.subrange(0, i as int),
        decreases bytes@.len() - i,
    {
        out.push(bytes[i]);
        i += 1;
        assert(out@ =~= bytes@.subrange(0, i as int));
    }
    assert(bytes@.subrange(0, bytes@.len() as int) =~= bytes@);
    out
}

/// A trait which is implemented by objects that can be converted to `SysEx` messages.
pub trait SysexCompatible {
    /// Returns the `SysEx` type of the object.
    fn sysex_type(&self) -> AnySysexType;

    /// Serializes the object to a `SysEx` message.
    fn as_sysex(&self) -> Result<Vec<u8>, RytmError>;
}

/// A validated `SysEx` response that preserves its original bytes exactly.
///
/// Construction checks the envelope (framing, 7-bit body, checksum, encoded size) and takes the
/// metadata that the codec decoded from the same bytes; serialization returns the original
/// response without canonicalizing unknown fields.
#[derive(Clone, Debug, PartialEq, Eq)]
pub struct RawSysexObject {
    bytes: Vec<u8>,
    metadata: SysexMeta,
    sysex_type: SysexType,
}

/// The plain value of a [`RawSysexObject`].
pub struct RawSysexObjectModel {
    pub bytes: Seq<u8>,
    pub metadata: SysexMeta,
    pub sysex_type: SysexType,
}

impl View for RawSysexObject {
    type V = RawSysexObjectModel;

    closed spec fn view(&self) -> RawSysexObjectModel {
        RawSysexObjectModel {
            bytes: self.bytes@,
            metadata: self.metadata,
            sysex_type: self.sysex_type,
        }
    }
}

/// The outcome of validating `bytes`, given what the codec decoded from them.
pub open spec fn spec_raw_sysex_object(b: Seq<u8>, decoded: Result<SysexMeta, RytmError>) -> Result<
    RawSysexObjectModel,
    RytmError,
> {
    match spec_check_envelope(b) {
        Err(e) => Err(e),
        Ok(_) => match decoded {
            Err(e) => Err(e),
            Ok(meta) => match spec_type_from_object_type_id(meta.obj_type) {
                None => Err(RytmError::SysexConversion(SysexConversionError::InvalidObjType)),
                Some(t) => Ok(RawSysexObjectModel { bytes: b, metadata: meta, sysex_type: t }),
            },
        },
    }
}

impl RawSysexObject {
    /// Validates and preserves a complete Analog Rytm `SysEx` response. `decoded_metadata` is
    /// what the codec decoded from `bytes` (its metadata, or its error).
    ///
    /// # Errors
    ///
    /// Returns a `SysEx` conversion error when the response is incomplete, is not a 7-bit
    /// message, fails the checksum or encoded-size validation, could not be decoded, or names no
    /// object type.
    pub fn from_sysex(bytes: &[u8], decoded_metadata: Result<SysexMeta, RytmError>) -> (r: Result<
        Self,
        RytmError,
    >)
        ensures
            spec_raw_sysex_object(bytes@, decoded_metadata) matches Err(e) ==> r == Err::<
                RawSysexObject,
                RytmError,
            >(e),
            spec_raw_sysex_object(bytes@, decoded_metadata) matches Ok(m) ==> r is Ok && r->Ok_0@
                == m,
    {
        check_envelope(bytes)?;
        let metadata = decoded_metadata?;
        let sysex_type = metadata.object_type()?;
        Ok(RawSysexObject { bytes: copy_bytes(bytes), metadata, sysex_type })
    }

    /// Returns the validated response bytes.
    pub fn bytes(&self) -> (r: &[u8])
        ensures
            r@ == self@.bytes,
    {
        self.bytes.as_slice()
    }

    /// Consumes the object and returns the validated response bytes.
    pub fn into_bytes(self) -> (r: Vec<u8>)
        ensures
            r@ == self@.bytes,
    {
        self.bytes
    }

    /// Returns the metadata decoded from the response envelope.
    pub fn metadata(&self) -> (r: SysexMeta)
        ensures
            r == self@.metadata,
    {
        self.metadata
    }
}

impl SysexCompatible for RawSysexObject {
    fn sysex_type(&self) -> (r: AnySysexType)
        ensures
            r == AnySysexType::Known(self@.sysex_type),
    {
        AnySysexType::Known(self.sysex_type)
    }

    /// Returns the original response, byte for byte.
    fn as_sysex(&self) -> (r: Result<Vec<u8>, RytmError>)
        ensures
            r is Ok && r->Ok_0@ == self@.bytes,
    {
        let bytes = self.bytes.clone();
        assert(bytes@ =~= self.bytes@);
        Ok(bytes)
    }
}

/// The sum of a byte sequence, as vstd's left fold adds it up, is the sum the checksum is
/// taken of.
pub proof fn lemma_byte_sum_is_fold(s: Seq<u8>)
    ensures
        spec_byte_sum(s) as int == s.fold_left(0int, |acc: int, x: u8| acc + x),
    decreases s.len(),
{
    if s.len() > 0 {
        lemma_byte_sum_is_fold(s.drop_last());
    }
}

/// Law: a response passes the envelope check exactly when it is framed by `0xF0` and `0xF7`,
/// is at least 15 bytes long, carries only 7-bit bytes between the framing bytes, its trailer's
/// first two 7-bit bytes hold the sum of bytes `10..len - 5` modulo `0x4000`, and its next two
/// hold the length less 10. Such a response, with metadata naming an object type, is kept byte
/// for byte.
pub proof fn lemma_envelope_check_accepts_exactly_valid_responses(b: Seq<u8>, meta: SysexMeta)
    ensures
        spec_check_envelope(b) is Ok <==> {
            &&& b.len() >= 15
            &&& b[0] == 0xF0
            &&& b[b.len() - 1] == 0xF7
            &&& forall|i: int| 1 <= i < b.len() - 1 ==> b[i] < 0x80
            &&& b[b.len() - 5] as int * 128 + b[b.len() - 4] as int == b.subrange(
                10,
                b.len() - 5,
            ).fold_left(0int, |acc: int, x: u8| acc + x) % 0x4000
            &&& b[b.len() - 3] as int * 128 + b[b.len() - 2] as int == b.len() - 10
        },
        spec_check_envelope(b) is Ok && meta.obj_type <= 5 ==> spec_raw_sysex_object(
            b,
            Ok(meta),
        ) is Ok && spec_raw_sysex_object(b, Ok(meta))->Ok_0.bytes == b
            && spec_raw_sysex_object(b, Ok(meta))->Ok_0.metadata == meta,
{
    if b.len() >= 15 {
        lemma_byte_sum_is_fold(b.subrange(10, b.len() - 5));
    }
}

/// Law: the object type ids are libanalogrytm's numbers (Kit 0, Sound 1, Pattern 2, Song 3,
/// Settings 4, Global 5, nothing else), each type's id names it back, and the dump ids
/// `0x52..=0x57` (stored objects) and `0x58..=0x5D` (work buffer) name the types in that same
/// order; no other byte is a dump id.
pub proof fn lemma_type_ids_follow_libanalogrytm()
    ensures
        spec_type_from_object_type_id(0) == Some(SysexType::Kit),
        spec_type_from_object_type_id(1) == Some(SysexType::Sound),
        spec_type_from_object_type_id(2) == Some(SysexType::Pattern),
        spec_type_from_object_type_id(3) == Some(SysexType::Song),
        spec_type_from_object_type_id(4) == Some(SysexType::Settings),
        spec_type_from_object_type_id(5) == Some(SysexType::Global),
        forall|id: u8| id > 5 ==> spec_type_from_object_type_id(id) is None,
        forall|t: SysexType|
            spec_type_from_object_type_id(#[trigger] spec_object_type_id(t)) == Some(t),
        forall|k: u8|
            k <= 5 ==> spec_type_from_dump_id((0x52 + k) as u8) == spec_type_from_object_type_id(k)
                && spec_type_from_dump_id((0x58 + k) as u8) == spec_type_from_object_type_id(k),
        forall|id: u8| !(0x52 <= id <= 0x5D) ==> spec_type_from_dump_id(id) is None,
{
    assert forall|t: SysexType| spec_type_from_object_type_id(#[trigger] spec_object_type_id(t))
        == Some(t) by {
        match t {
            SysexType::Kit => {},
            SysexType::Sound => {},
            SysexType::Pattern => {},
            SysexType::Song => {},
            SysexType::Settings => {},
            SysexType::Global => {},
        }
    }
}

/// Law: a response long enough to hold its message type passes the shape check exactly when
/// byte 6 is a dump id and the length is the firmware 1.70 size of the type it announces: Kit
/// 2,998, Sound 201, Pattern 14,988, Song 1,506, Settings 2,401, Global 107. The check then
/// gives that type.
pub proof fn lemma_shape_check_accepts_exact_sizes(b: Seq<u8>)
    requires
        b.len() > 6,
    ensures
        (b[6] == 0x52 || b[6] == 0x58) ==> (spec_check_response_shape(b) is Ok <==> b.len()
            == 2998) && (b.len() == 2998 ==> spec_check_response_shape(b) == Ok::<
            SysexType,
            RytmError,
        >(SysexType::Kit)),
        (b[6] == 0x53 || b[6] == 0x59) ==> (spec_check_response_shape(b) is Ok <==> b.len()
            == 201) && (b.len() == 201 ==> spec_check_response_shape(b) == Ok::<
            SysexType,
            RytmError,
        >(SysexType::Sound)),
        (b[6] == 0x54 || b[6] == 0x5A) ==> (spec_check_response_shape(b) is Ok <==> b.len()
            == 14988) && (b.len() == 14988 ==> spec_check_response_shape(b) == Ok::<
            SysexType,
            RytmError,
        >(SysexType::Pattern)),
        (b[6] == 0x55 || b[6] == 0x5B) ==> (spec_check_response_shape(b) is Ok <==> b.len()
            == 1506) && (b.len() == 1506 ==> spec_check_response_shape(b) == Ok::<
            SysexType,
            RytmError,
        >(SysexType::Song)),
        (b[6] == 0x56 || b[6] == 0x5C) ==> (spec_check_response_shape(b) is Ok <==> b.len()
            == 2401) && (b.len() == 2401 ==> spec_check_response_shape(b) == Ok::<
            SysexType,
            RytmError,
        >(SysexType::Settings)),
        (b[6] == 0x57 || b[6] == 0x5D) ==> (spec_check_response_shape(b) is Ok <==> b.len()
            == 107) && (b.len() == 107 ==> spec_check_response_shape(b) == Ok::<
            SysexType,
            RytmError,
        >(SysexType::Global)),
        !(0x52 <= b[6] <= 0x5D) ==> spec_check_response_shape(b) == Err::<SysexType, RytmError>(
            RytmError::SysexConversion(SysexConversionError::InvalidDumpMsgId),
        ),
{
}

} // verus!
