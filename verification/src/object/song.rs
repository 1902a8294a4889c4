//! Lossless typed access to Analog Rytm Song objects.
//!
//! The decoded Song object is 1,304 bytes: a 24-byte header holding the 15-byte name at offset
//! 4, 64 four-byte row records `[unknown prefix, pattern count, unknown flags, repeats - 1]` at
//! `0x18`, and 256 four-byte pattern positions `[mute word msb, mute word lsb, unknown flags,
//! pattern]` at `0x118`. Rows are read until the first row with a pattern count of zero; row
//! `r` owns the pattern positions that follow those of rows `0..r`.

use crate::error::{
    range_error, spec_range_error, CompatibilityReason, CompatibilityValue, ParameterError,
    ParameterName, RytmError, SysexConversionError,
};
use crate::object::song_table::{
    lemma_decode_rows_frame, lemma_flat_position, lemma_flat_prefix, lemma_flat_take_step,
    lemma_decoded_rows_are_valid, lemma_valid_rows_pass,
    lemma_validate_each_row, lemma_write_rows_decode, pattern_offset, prepend, row_offset,
    spec_decode_patterns, spec_decode_rows, spec_decode_rows_from, spec_flat_patterns,
    spec_mute_word, spec_pattern_at, spec_pattern_record_byte, spec_patterns_in_range,
    spec_row_at, spec_row_record_byte, spec_tables_written, spec_validate_each_row,
    spec_validate_row, spec_validate_rows, spec_write_rows,
};
use crate::sysex::{
    spec_song_meta, spec_type_from_object_type_id, SysexMeta, SysexType, SONG_RAW_SIZE,
};
use crate::util::{
    lemma_trim_end_matching_padding, spec_is_white_space, spec_trim_end_matching,
    spec_trim_end_white_space, spec_utf8_or_empty, str_from_utf8, trim_end_matching,
    trim_end_white_space,
};
use vstd::string::StringSliceAdditionalSpecFns;
use vstd::utf8::{
    encode_utf8, encode_utf8_decode_utf8, encode_utf8_valid_utf8, is_ascii_chars,
    is_ascii_chars_encode_utf8,
};
use vstd::prelude::*;

verus! {

/// Offset of the Song name in the header.
pub const NAME_OFFSET: usize = 4;
/// Length of the Song name field.
pub const NAME_LENGTH: usize = 15;
/// Size of the header.
pub const HEADER_SIZE: usize = 0x18;
/// Offset of the row table.
pub const ROW_TABLE_OFFSET: usize = 0x18;
/// Size of one row record.
pub const ROW_RECORD_SIZE: usize = 4;
/// Offset of the pattern-position table.
pub const PATTERN_TABLE_OFFSET: usize = 0x118;
/// Size of one pattern-position record.
pub const PATTERN_RECORD_SIZE: usize = 4;
/// Maximum number of Song rows represented by the object.
pub const SONG_ROW_CAPACITY: usize = 64;
/// Maximum number of pattern positions shared by all Song rows.
pub const SONG_PATTERN_CAPACITY: usize = 256;
/// Number of drum-track mute bits stored per pattern position.
pub const SONG_TRACK_COUNT: usize = 12;

/// Explicit support evidence for the typed Song model.
#[derive(Clone, Copy, Debug, Eq, PartialEq, Structural)]
pub struct SongCapabilities {
    pub name: bool,
    pub rows: bool,
    pub pattern_chains: bool,
    pub repeats: bool,
    pub track_mutes: bool,
    pub tempo_overrides: bool,
    pub pattern_length_overrides: bool,
    pub jumps: bool,
    pub loops: bool,
    pub row_labels: bool,
    pub explicit_end: bool,
}

/// The capabilities backed by controlled fixtures or the OS 1.72 Song UI.
pub open spec fn spec_connected_mkii() -> SongCapabilities {
    SongCapabilities {
        name: true,
        rows: true,
        pattern_chains: true,
        repeats: true,
        track_mutes: true,
        tempo_overrides: false,
        pattern_length_overrides: false,
        jumps: false,
        loops: false,
        row_labels: false,
        explicit_end: false,
    }
}

impl SongCapabilities {
    /// Returns capabilities backed by controlled fixtures or the OS 1.72 Song UI.
    pub fn connected_mkii() -> (r: Self)
        ensures
            r == spec_connected_mkii(),
    {
        SongCapabilities {
            name: true,
            rows: true,
            pattern_chains: true,
            repeats: true,
            track_mutes: true,
            tempo_overrides: false,
            pattern_length_overrides: false,
            jumps: false,
            loops: false,
            row_labels: false,
            explicit_end: false,
        }
    }
}

/// The outcome of checking that `value` lies in `minimum..=maximum`.
pub open spec fn spec_validate_range(value: int, parameter_name: ParameterName, minimum: int, maximum: int) -> Result<
    (),
    RytmError,
> {
    if value < minimum || value > maximum {
        Err(spec_range_error(value, parameter_name))
    } else {
        Ok(())
    }
}

fn validate_range(value: usize, parameter_name: ParameterName, minimum: usize, maximum: usize) -> (r: Result<
    (),
    RytmError,
>)
    ensures
        r == spec_validate_range(value as int, parameter_name, minimum as int, maximum as int),
{
    if value < minimum || value > maximum {
        return Err(range_error(value, parameter_name));
    }
    Ok(())
}

/// The plain value of a [`SongPattern`].
pub struct SongPatternModel {
    pub pattern: u8,
    pub mute_word: u16,
    pub unknown_flags: u8,
}

/// Whether bit `track` of a mute word is set.
pub open spec fn spec_mute_bit(mute_word: u16, track: u16) -> bool {
    mute_word & (1u16 << track) != 0
}

/// One pattern position in a Song row or chain.
#[derive(Clone, Copy, Debug, Eq, PartialEq, Structural)]
pub struct SongPattern {
    pattern: u8,
    mute_word: u16,
    unknown_flags: u8,
}

impl SongPattern {
    #[verifier::type_invariant]
    spec fn pattern_in_range(self) -> bool {
        self.pattern <= 127
    }
}

impl View for SongPattern {
    type V = SongPatternModel;

    closed spec fn view(&self) -> SongPatternModel {
        SongPatternModel {
            pattern: self.pattern,
            mute_word: self.mute_word,
            unknown_flags: self.unknown_flags,
        }
    }
}

/// The views of a sequence of pattern positions.
pub open spec fn pattern_views(patterns: Seq<SongPattern>) -> Seq<SongPatternModel> {
    patterns.map_values(|p: SongPattern| p@)
}

impl SongPattern {
    /// Creates a pattern position with no song mutes and zeroed unknown flags.
    ///
    /// # Errors
    ///
    /// Pattern indices must be in `0..=127`.
    pub fn try_new(pattern: usize) -> (r: Result<Self, RytmError>)
        ensures
            pattern > 127 ==> r == Err::<SongPattern, RytmError>(
                spec_range_error(pattern as int, ParameterName::SongPattern),
            ),
            pattern <= 127 ==> r is Ok && r->Ok_0@ == (SongPatternModel {
                pattern: pattern as u8,
                mute_word: 0,
                unknown_flags: 0,
            }),
    {
        validate_range(pattern, ParameterName::SongPattern, 0, 127)?;
        Ok(SongPattern { pattern: pattern as u8, mute_word: 0, unknown_flags: 0 })
    }

    /// Returns the zero-based Pattern index (`0` is A01, `127` is H16).
    pub fn pattern(&self) -> (r: usize)
        ensures
            r == self@.pattern,
            r <= 127,
    {
        proof {
            use_type_invariant(self);
        }
        self.pattern as usize
    }

    /// Sets the zero-based Pattern index.
    ///
    /// # Errors
    ///
    /// Pattern indices must be in `0..=127`.
    pub fn set_pattern(&mut self, pattern: usize) -> (r: Result<(), RytmError>)
        ensures
            pattern > 127 ==> r == Err::<(), RytmError>(
                spec_range_error(pattern as int, ParameterName::SongPattern),
            ) && final(self)@ == old(self)@,
            pattern <= 127 ==> r is Ok && final(self)@ == (SongPatternModel {
                pattern: pattern as u8,
                ..old(self)@
            }),
    {
        validate_range(pattern, ParameterName::SongPattern, 0, 127)?;
        self.pattern = pattern as u8;
        Ok(())
    }

    /// Returns the 12-bit mask where bit zero represents BD and bit eleven represents CB.
    pub fn muted_tracks_mask(&self) -> (r: u16)
        ensures
            r == self@.mute_word & 0x0FFF,
    {
        self.mute_word & 0x0FFF
    }

    /// Replaces the 12-bit song-mute mask while preserving unidentified upper bits.
    ///
    /// # Errors
    ///
    /// Bits above the twelve Rytm tracks must be clear.
    pub fn set_muted_tracks_mask(&mut self, muted_tracks: u16) -> (r: Result<(), RytmError>)
        ensures
            muted_tracks > 0x0FFF ==> r == Err::<(), RytmError>(
                spec_range_error(muted_tracks as int, ParameterName::SongMutedTracks),
            ) && final(self)@ == old(self)@,
            muted_tracks <= 0x0FFF ==> r is Ok && final(self)@ == (SongPatternModel {
                mute_word: (old(self)@.mute_word & 0xF000) | muted_tracks,
                ..old(self)@
            }),
            r is Ok ==> final(self)@.mute_word & 0x0FFF == muted_tracks && final(self)@.mute_word
                & 0xF000 == old(self)@.mute_word & 0xF000,
    {
        if muted_tracks > 0x0FFF {
            return Err(range_error(muted_tracks as usize, ParameterName::SongMutedTracks));
        }
        proof {
            use_type_invariant(&*self);
        }
        let old_word = self.mute_word;
        self.mute_word = (old_word & 0xF000) | muted_tracks;
        assert(((old_word & 0xF000) | muted_tracks) & 0x0FFF == muted_tracks && ((old_word
            & 0xF000) | muted_tracks) & 0xF000 == old_word & 0xF000) by (bit_vector)
            requires
                muted_tracks <= 0x0FFF,
        ;
        Ok(())
    }

    /// Returns whether the zero-based drum track is song-muted at this position.
    ///
    /// # Errors
    ///
    /// Track indices must be in `0..=11`.
    pub fn is_track_muted(&self, track: usize) -> (r: Result<bool, RytmError>)
        ensures
            track > 11 ==> r == Err::<bool, RytmError>(
                spec_range_error(track as int, ParameterName::SongMuteTrack),
            ),
            track <= 11 ==> r == Ok::<bool, RytmError>(spec_mute_bit(self@.mute_word, track as u16)),
    {
        validate_range(track, ParameterName::SongMuteTrack, 0, SONG_TRACK_COUNT - 1)?;
        Ok(self.mute_word & (1u16 << (track as u16)) != 0)
    }

    /// Changes one song-mute bit without affecting other tracks or unidentified upper bits.
    ///
    /// # Errors
    ///
    /// Track indices must be in `0..=11`.
    pub fn set_track_muted(&mut self, track: usize, muted: bool) -> (r: Result<(), RytmError>)
        ensures
            track > 11 ==> r == Err::<(), RytmError>(
                spec_range_error(track as int, ParameterName::SongMuteTrack),
            ) && final(self)@ == old(self)@,
            track <= 11 ==> r is Ok && final(self)@ == (SongPatternModel {
                mute_word: if muted {
                    old(self)@.mute_word | (1u16 << track as u16)
                } else {
                    old(self)@.mute_word & !(1u16 << track as u16)
                },
                ..old(self)@
            }),
            r is Ok ==> spec_mute_bit(final(self)@.mute_word, track as u16) == muted && forall|
                k: u16,
            |
                k < 16 && k != track ==> spec_mute_bit(final(self)@.mute_word, k) == spec_mute_bit(
                    old(self)@.mute_word,
                    k,
                ),
    {
        validate_range(track, ParameterName::SongMuteTrack, 0, SONG_TRACK_COUNT - 1)?;
        proof {
            use_type_invariant(&*self);
        }
        let t = track as u16;
        let old_word = self.mute_word;
        if muted {
            self.mute_word = old_word | (1u16 << t);
        } else {
            self.mute_word = old_word & !(1u16 << t);
        }
        let new_word = self.mute_word;
        assert(spec_mute_bit(new_word, t) == muted) by {
            assert(t < 12 ==> ((old_word | (1u16 << t)) & (1u16 << t) != 0) && ((old_word & !(1u16
                << t)) & (1u16 << t) == 0)) by (bit_vector);
        }
        assert forall|k: u16| k < 16 && k != t implies spec_mute_bit(new_word, k) == spec_mute_bit(
            old_word,
            k,
        ) by {
            assert(k < 16 && t < 12 && k != t ==> (((old_word | (1u16 << t)) & (1u16 << k) != 0)
                == (old_word & (1u16 << k) != 0)) && (((old_word & !(1u16 << t)) & (1u16 << k)
                != 0) == (old_word & (1u16 << k) != 0))) by (bit_vector);
        }
        Ok(())
    }

    /// Returns unidentified upper bits in the two-byte mute field.
    pub fn unknown_mute_bits(&self) -> (r: u16)
        ensures
            r == self@.mute_word & 0xF000,
    {
        self.mute_word & 0xF000
    }

    /// Returns the currently unidentified third pattern-record byte.
    pub fn unknown_flags(&self) -> (r: u8)
        ensures
            r == self@.unknown_flags,
    {
        self.unknown_flags
    }
}

/// The plain value of a [`SongRow`].
pub struct SongRowModel {
    pub patterns: Seq<SongPatternModel>,
    pub repeats: u16,
    pub unknown_prefix: u8,
    pub unknown_flags: u8,
}

/// One Song row, including its pattern chain and repeat count.
#[derive(Debug, Eq, PartialEq)]
pub struct SongRow {
    patterns: Vec<SongPattern>,
    repeats: u16,
    unknown_prefix: u8,
    unknown_flags: u8,
}

impl View for SongRow {
    type V = SongRowModel;

    closed spec fn view(&self) -> SongRowModel {
        SongRowModel {
            patterns: pattern_views(self.patterns@),
            repeats: self.repeats,
            unknown_prefix: self.unknown_prefix,
            unknown_flags: self.unknown_flags,
        }
    }
}

/// The views of a sequence of rows.
pub open spec fn row_views(rows: Seq<SongRow>) -> Seq<SongRowModel> {
    rows.map_values(|row: SongRow| row@)
}

impl Clone for SongRow {
    fn clone(&self) -> (r: Self)
        ensures
            r@ == self@,
    {
        let patterns = self.patterns.clone();
        assert(patterns@ =~= self.patterns@);
        SongRow {
            patterns,
            repeats: self.repeats,
            unknown_prefix: self.unknown_prefix,
            unknown_flags: self.unknown_flags,
        }
    }
}

/// A row holds `1..=255` pattern positions.
pub open spec fn spec_validate_patterns(count: int) -> Result<(), RytmError> {
    spec_validate_range(count, ParameterName::SongRowPatternCount, 1, 255)
}

fn validate_patterns(patterns: &[SongPattern]) -> (r: Result<(), RytmError>)
    ensures
        r == spec_validate_patterns(patterns@.len() as int),
{
    validate_range(patterns.len(), ParameterName::SongRowPatternCount, 1, 255)
}

impl SongRow {
    /// Creates a row from one or more pattern positions.
    ///
    /// # Errors
    ///
    /// A row must contain `1..=255` pattern positions and repeat `1..=256` times.
    pub fn try_new(patterns: Vec<SongPattern>, repeats: usize) -> (r: Result<Self, RytmError>)
        ensures
            spec_validate_patterns(patterns@.len() as int) matches Err(e) ==> r == Err::<
                SongRow,
                RytmError,
            >(e),
            spec_validate_patterns(patterns@.len() as int) is Ok ==> (spec_validate_range(
                repeats as int,
                ParameterName::SongRowRepeats,
                1,
                256,
            ) matches Err(e) ==> r == Err::<SongRow, RytmError>(e)),
            r is Ok ==> 1 <= patterns@.len() <= 255 && 1 <= repeats <= 256 && r->Ok_0@ == (
            SongRowModel {
                patterns: pattern_views(patterns@),
                repeats: repeats as u16,
                unknown_prefix: 0,
                unknown_flags: 0,
            }),
            1 <= patterns@.len() <= 255 && 1 <= repeats <= 256 ==> r is Ok,
    {
        validate_patterns(patterns.as_slice())?;
        validate_range(repeats, ParameterName::SongRowRepeats, 1, 256)?;
        Ok(SongRow { patterns, repeats: repeats as u16, unknown_prefix: 0, unknown_flags: 0 })
    }

    /// Returns the pattern chain in playback order.
    pub fn patterns(&self) -> (r: &[SongPattern])
        ensures
            pattern_views(r@) == self@.patterns,
    {
        self.patterns.as_slice()
    }

    /// Returns the pattern chain mutably.
    pub fn patterns_mut(&mut self) -> (r: &mut [SongPattern])
        ensures
            pattern_views(r@) == old(self)@.patterns,
            final(self)@ == (SongRowModel { patterns: pattern_views(final(r)@), ..old(self)@ }),
    {
        self.patterns.as_mut_slice()
    }

    /// Replaces the row's pattern chain.
    ///
    /// # Errors
    ///
    /// A row must contain `1..=255` pattern positions.
    pub fn set_patterns(&mut self, patterns: Vec<SongPattern>) -> (r: Result<(), RytmError>)
        ensures
            spec_validate_patterns(patterns@.len() as int) matches Err(e) ==> r == Err::<
                (),
                RytmError,
            >(e) && final(self)@ == old(self)@,
            spec_validate_patterns(patterns@.len() as int) is Ok ==> r is Ok && final(self)@ == (
            SongRowModel { patterns: pattern_views(patterns@), ..old(self)@ }),
    {
        validate_patterns(patterns.as_slice())?;
        self.patterns = patterns;
        Ok(())
    }

    /// Returns how many times the complete row is played.
    pub fn repeats(&self) -> (r: usize)
        ensures
            r == self@.repeats,
    {
        self.repeats as usize
    }

    /// Sets how many times the complete row is played.
    ///
    /// # Errors
    ///
    /// Repeat counts must be in `1..=256`.
    pub fn set_repeats(&mut self, repeats: usize) -> (r: Result<(), RytmError>)
        ensures
            spec_validate_range(repeats as int, ParameterName::SongRowRepeats, 1, 256) matches Err(e)
                ==> r == Err::<(), RytmError>(e) && final(self)@ == old(self)@,
            1 <= repeats <= 256 ==> r is Ok && final(self)@ == (SongRowModel {
                repeats: repeats as u16,
                ..old(self)@
            }),
    {
        validate_range(repeats, ParameterName::SongRowRepeats, 1, 256)?;
        self.repeats = repeats as u16;
        Ok(())
    }

    /// Returns the unidentified first row-record byte.
    pub fn unknown_prefix(&self) -> (r: u8)
        ensures
            r == self@.unknown_prefix,
    {
        self.unknown_prefix
    }

    /// Returns the unidentified third row-record byte.
    pub fn unknown_flags(&self) -> (r: u8)
        ensures
            r == self@.unknown_flags,
    {
        self.unknown_flags
    }
}

fn mute_word(msb: u8, lsb: u8) -> (r: u16)
    ensures
        r == spec_mute_word(msb, lsb),
{
    ((msb as u16) << 8u16) | (lsb as u16)
}

/// Decodes the `count` pattern positions from record `start` on.
///
/// # Errors
///
/// A pattern byte above 127 is a range error.
fn decode_patterns(raw: &[u8; SONG_RAW_SIZE], start: usize, count: usize) -> (r: Result<
    Vec<SongPattern>,
    RytmError,
>)
    requires
        start + count <= 256,
    ensures
        spec_decode_patterns(raw@, start as int, count as nat) matches Ok(ps) ==> r is Ok
            && pattern_views(r->Ok_0@) == ps,
        spec_decode_patterns(raw@, start as int, count as nat) matches Err(e) ==> r == Err::<
            Vec<SongPattern>,
            RytmError,
        >(e),
{
    let mut patterns: Vec<SongPattern> = Vec::with_capacity(count);
    let mut i: usize = 0;
    while i < count
        invariant
            i <= count,
            start + count <= 256,
            raw@.len() == 1304,
            spec_decode_patterns(raw@, start as int, count as nat) == prepend(
                pattern_views(patterns@),
                spec_decode_patterns(raw@, (start + i) as int, (count - i) as nat),
            ),
        decreases count - i,
    {
        let offset = PATTERN_TABLE_OFFSET + (start + i) * PATTERN_RECORD_SIZE;
        let pattern = raw[offset + 3];
        if pattern > 127 {
            return Err(range_error(pattern as usize, ParameterName::SongPattern));
        }
        let position = SongPattern {
            mute_word: mute_word(raw[offset], raw[offset + 1]),
            unknown_flags: raw[offset + 2],
            pattern,
        };
        let ghost before = pattern_views(patterns@);
        patterns.push(position);
        proof {
            assert(position@ == spec_pattern_at(raw@, (start + i) as int));
            assert(pattern_views(patterns@) =~= before.push(position@));
            assert(before.push(position@) =~= before + seq![position@]);
            let rest = spec_decode_patterns(raw@, (start + i + 1) as int, (count - i - 1) as nat);
            if let Ok(tail) = rest {
                assert(before + (seq![position@] + tail) =~= before.push(position@) + tail);
            }
        }
        i += 1;
    }
    proof {
        assert(pattern_views(patterns@) + Seq::<SongPatternModel>::empty() =~= pattern_views(
            patterns@,
        ));
    }
    Ok(patterns)
}

/// Decodes the active rows of a Song object and their pattern positions.
///
/// # Errors
///
/// Rows whose pattern counts run past the 256 pattern positions are a compatibility error, and
/// a pattern byte above 127 is a range error.
pub fn decode_rows(raw: &[u8; SONG_RAW_SIZE]) -> (r: Result<Vec<SongRow>, RytmError>)
    ensures
        spec_decode_rows(raw@) matches Ok(rows) ==> r is Ok && row_views(r->Ok_0@) == rows,
        spec_decode_rows(raw@) matches Err(e) ==> r == Err::<Vec<SongRow>, RytmError>(e),
        r matches Ok(rows) ==> forall|j: int|
            0 <= j < rows@.len() ==> #[trigger] spec_validate_row(rows@[j]@) is Ok,
{
    proof {
        lemma_decoded_rows_are_valid(raw@, 0, 0);
    }
    let mut rows: Vec<SongRow> = Vec::new();
    let mut pattern_cursor: usize = 0;
    let mut row_index: usize = 0;
    while row_index < SONG_ROW_CAPACITY
        invariant
            row_index <= 64,
            pattern_cursor <= 256,
            raw@.len() == 1304,
            spec_decode_rows(raw@) == prepend(
                row_views(rows@),
                spec_decode_rows_from(raw@, row_index as nat, pattern_cursor as nat),
            ),
        decreases 64 - row_index,
    {
        let row_offset = ROW_TABLE_OFFSET + row_index * ROW_RECORD_SIZE;
        let pattern_count = raw[row_offset + 1] as usize;
        if pattern_count == 0 {
            proof {
                assert(row_views(rows@) + Seq::<SongRowModel>::empty() =~= row_views(rows@));
                lemma_decoded_rows_are_valid(raw@, 0, 0);
                assert forall|j: int| 0 <= j < rows@.len() implies #[trigger] spec_validate_row(
                    rows@[j]@,
                ) is Ok by {
                    assert(row_views(rows@)[j] == rows@[j]@);
                }
            }
            return Ok(rows);
        }
        if pattern_cursor + pattern_count > SONG_PATTERN_CAPACITY {
            return Err(
                RytmError::Parameter(
                    ParameterError::Compatibility {
                        value: CompatibilityValue::Number(pattern_cursor + pattern_count),
                        parameter_name: ParameterName::SongPatternPositions,
                        reason: Some(CompatibilityReason::SongPoolExceeded),
                    },
                ),
            );
        }
        let patterns = decode_patterns(raw, pattern_cursor, pattern_count)?;
        let row = SongRow {
            patterns,
            repeats: raw[row_offset + 3] as u16 + 1,
            unknown_prefix: raw[row_offset],
            unknown_flags: raw[row_offset + 2],
        };
        let ghost before = row_views(rows@);
        rows.push(row);
        proof {
            assert(row@ == spec_row_at(raw@, row_index as int, row@.patterns));
            assert(row_views(rows@) =~= before.push(row@));
            let rest = spec_decode_rows_from(
                raw@,
                (row_index + 1) as nat,
                (pattern_cursor + pattern_count) as nat,
            );
            if let Ok(tail) = rest {
                assert(before + (seq![row@] + tail) =~= before.push(row@) + tail);
            }
        }
        pattern_cursor += pattern_count;
        row_index += 1;
    }
    proof {
        assert(row_views(rows@) + Seq::<SongRowModel>::empty() =~= row_views(rows@));
        assert forall|j: int| 0 <= j < rows@.len() implies #[trigger] spec_validate_row(
            rows@[j]@,
        ) is Ok by {
            assert(row_views(rows@)[j] == rows@[j]@);
        }
    }
    Ok(rows)
}

/// The plain value of a [`Song`]: its `SysEx` metadata and its 1,304 decoded bytes.
pub struct SongModel {
    pub meta: SysexMeta,
    pub raw: Seq<u8>,
}

/// A complete stored or work-buffer Song with lossless preservation of unidentified bytes.
#[derive(Debug, PartialEq, Eq)]
pub struct Song {
    sysex_meta: SysexMeta,
    raw: [u8; SONG_RAW_SIZE],
}

impl Song {
    /// The rows of every Song decode.
    #[verifier::type_invariant]
    spec fn rows_decode(self) -> bool {
        spec_decode_rows(self.raw@) is Ok
    }
}

impl View for Song {
    type V = SongModel;

    closed spec fn view(&self) -> SongModel {
        SongModel { meta: self.sysex_meta, raw: self.raw@ }
    }
}

impl Clone for Song {
    fn clone(&self) -> (r: Self)
        ensures
            r@ == self@,
    {
        proof {
            use_type_invariant(self);
        }
        Song { sysex_meta: self.sysex_meta, raw: self.raw }
    }
}

/// The bytes of a new Song: zero except the byte at `0x15`, which is one.
pub open spec fn spec_empty_song_raw() -> Seq<u8> {
    Seq::new(1304, |i: int| if i == 0x15 { 1u8 } else { 0u8 })
}

/// The Song that `raw` and `meta` make, or why they make none.
pub open spec fn spec_song_from_raw(meta: SysexMeta, raw: Seq<u8>) -> Result<SongModel, RytmError> {
    match spec_type_from_object_type_id(meta.obj_type) {
        None => Err(RytmError::SysexConversion(SysexConversionError::InvalidObjType)),
        Some(t) => if t != SysexType::Song {
            Err(RytmError::SysexConversion(SysexConversionError::InvalidObjType))
        } else if raw.len() != 1304 {
            Err(
                RytmError::SysexConversion(
                    SysexConversionError::InvalidSize(1304, raw.len() as usize),
                ),
            )
        } else {
            match spec_decode_rows(raw) {
                Err(e) => Err(e),
                Ok(_) => Ok(SongModel { meta, raw }),
            }
        },
    }
}

/// The name shown by the Song menu: the name field read as UTF-8 (nothing when it is not),
/// without trailing NUL characters and then without trailing whitespace.
pub open spec fn spec_song_name(raw: Seq<u8>) -> Seq<char> {
    spec_trim_end_white_space(
        spec_trim_end_matching(spec_utf8_or_empty(raw.subrange(4, 19)), '\0'),
    )
}

/// `raw` with `name` written to the name field and the rest of the field zeroed.
pub open spec fn spec_set_name_bytes(raw: Seq<u8>, name: Seq<u8>) -> Seq<u8> {
    Seq::new(
        raw.len(),
        |i: int|
            if 4 <= i < 19 {
                if i - 4 < name.len() {
                    name[i - 4]
                } else {
                    0u8
                }
            } else {
                raw[i]
            },
    )
}

/// Whether a name ends with neither a NUL character nor whitespace.
pub open spec fn spec_name_is_trimmed(name: Seq<char>) -> bool {
    name.len() == 0 || (name.last() != '\0' && !spec_is_white_space(name.last()))
}

/// `raw` with the pattern count and repeat bytes of rows `0..upto` cleared.
spec fn spec_counts_cleared(raw: Seq<u8>, upto: int) -> Seq<u8> {
    Seq::new(
        raw.len(),
        |i: int|
            if 0x18 <= i < 0x18 + 4 * upto && ((i - 0x18) % 4 == 1 || (i - 0x18) % 4 == 3) {
                0u8
            } else {
                raw[i]
            },
    )
}

/// Writing the record of row `j` extends the written rows by one.
proof fn lemma_row_record_step(
    raw: Seq<u8>,
    rows: Seq<SongRowModel>,
    j: int,
    pattern_count: int,
)
    requires
        raw.len() == 1304,
        0 <= j < 64,
        j < rows.len(),
    ensures
        spec_tables_written(raw, rows, j, pattern_count).update(
            row_offset(j),
            spec_row_record_byte(rows[j], 0),
        ).update(row_offset(j) + 1, spec_row_record_byte(rows[j], 1)).update(
            row_offset(j) + 2,
            spec_row_record_byte(rows[j], 2),
        ).update(row_offset(j) + 3, spec_row_record_byte(rows[j], 3)) == spec_tables_written(
            raw,
            rows,
            j + 1,
            pattern_count,
        ),
{
    let before = spec_tables_written(raw, rows, j, pattern_count);
    let after = spec_tables_written(raw, rows, j + 1, pattern_count);
    let o = row_offset(j);
    let updated = before.update(o, spec_row_record_byte(rows[j], 0)).update(
        o + 1,
        spec_row_record_byte(rows[j], 1),
    ).update(o + 2, spec_row_record_byte(rows[j], 2)).update(o + 3, spec_row_record_byte(rows[j], 3));
    assert forall|i: int| 0 <= i < 1304 implies updated[i] == after[i] by {
        if o <= i < o + 4 {
            assert((i - 0x18) / 4 == j && (i - 0x18) % 4 == i - o);
        } else if 0x18 <= i < 0x118 {
            assert((i - 0x18) / 4 != j);
        }
    }
    assert(updated =~= after);
}

/// Writing pattern position `p` extends the written pattern positions by one.
proof fn lemma_pattern_record_step(
    raw: Seq<u8>,
    rows: Seq<SongRowModel>,
    row_count: int,
    p: int,
)
    requires
        raw.len() == 1304,
        0 <= p < 256,
    ensures
        ({
            let pattern = spec_flat_patterns(rows)[p];
            spec_tables_written(raw, rows, row_count, p).update(
                pattern_offset(p),
                spec_pattern_record_byte(pattern, 0),
            ).update(pattern_offset(p) + 1, spec_pattern_record_byte(pattern, 1)).update(
                pattern_offset(p) + 2,
                spec_pattern_record_byte(pattern, 2),
            ).update(pattern_offset(p) + 3, spec_pattern_record_byte(pattern, 3))
                == spec_tables_written(raw, rows, row_count, p + 1)
        }),
{
    let pattern = spec_flat_patterns(rows)[p];
    let before = spec_tables_written(raw, rows, row_count, p);
    let after = spec_tables_written(raw, rows, row_count, p + 1);
    let o = pattern_offset(p);
    let updated = before.update(o, spec_pattern_record_byte(pattern, 0)).update(
        o + 1,
        spec_pattern_record_byte(pattern, 1),
    ).update(o + 2, spec_pattern_record_byte(pattern, 2)).update(
        o + 3,
        spec_pattern_record_byte(pattern, 3),
    );
    assert forall|i: int| 0 <= i < 1304 implies updated[i] == after[i] by {
        if o <= i < o + 4 {
            assert((i - 0x118) / 4 == p && (i - 0x118) % 4 == i - o);
        } else if 0x118 <= i < 0x518 {
            assert((i - 0x118) / 4 != p);
        }
    }
    assert(updated =~= after);
}

/// Clears the pattern count and repeat bytes of all 64 rows.
fn clear_row_counts(raw: &mut [u8; SONG_RAW_SIZE])
    ensures
        final(raw)@ == spec_tables_written(old(raw)@, Seq::<SongRowModel>::empty(), 0, 0),
{
    let ghost original = raw@;
    let mut row_index: usize = 0;
    while row_index < SONG_ROW_CAPACITY
        invariant
            row_index <= 64,
            original.len() == 1304,
            raw@ == spec_counts_cleared(original, row_index as int),
        decreases 64 - row_index,
    {
        let offset = ROW_TABLE_OFFSET + row_index * ROW_RECORD_SIZE;
        raw[offset + 1] = 0;
        raw[offset + 3] = 0;
        proof {
            let next = spec_counts_cleared(original, row_index + 1);
            assert forall|i: int| 0 <= i < 1304 implies raw@[i] == next[i] by {
                if offset <= i < offset + 4 {
                    assert((i - 0x18) % 4 == i - offset);
                }
            }
            assert(raw@ =~= next);
        }
        row_index += 1;
    }
    proof {
        let cleared = spec_tables_written(original, Seq::<SongRowModel>::empty(), 0, 0);
        assert forall|i: int| 0 <= i < 1304 implies raw@[i] == cleared[i] by {
            if 0x18 <= i < 0x118 {
                assert((i - 0x18) / 4 >= 0);
            }
        }
        assert(raw@ =~= cleared);
    }
}

/// Writing rows over cleared row counts is writing them over the original bytes.
proof fn lemma_clear_then_write(raw: Seq<u8>, rows: Seq<SongRowModel>, row_count: int, pattern_count: int)
    requires
        raw.len() == 1304,
        0 <= row_count,
    ensures
        spec_tables_written(
            spec_tables_written(raw, Seq::<SongRowModel>::empty(), 0, 0),
            rows,
            row_count,
            pattern_count,
        ) == spec_tables_written(raw, rows, row_count, pattern_count),
        spec_tables_written(
            spec_tables_written(raw, Seq::<SongRowModel>::empty(), 0, 0),
            Seq::<SongRowModel>::empty(),
            0,
            0,
        ) == spec_tables_written(raw, Seq::<SongRowModel>::empty(), 0, 0),
{
    let cleared = spec_tables_written(raw, Seq::<SongRowModel>::empty(), 0, 0);
    assert(spec_tables_written(cleared, rows, row_count, pattern_count) =~= spec_tables_written(
        raw,
        rows,
        row_count,
        pattern_count,
    ));
    assert(spec_tables_written(cleared, Seq::<SongRowModel>::empty(), 0, 0) =~= cleared);
}

/// Writes the records of `rows` and their pattern positions over cleared row counts.
fn write_rows(raw: &mut [u8; SONG_RAW_SIZE], rows: &[SongRow])
    requires
        spec_validate_rows(row_views(rows@)) is Ok,
        spec_tables_written(old(raw)@, Seq::<SongRowModel>::empty(), 0, 0) == old(raw)@,
    ensures
        final(raw)@ == spec_write_rows(old(raw)@, row_views(rows@)),
        spec_patterns_in_range(row_views(rows@)),
{
    let ghost base = raw@;
    let ghost models = row_views(rows@);
    proof {
        lemma_validate_each_row(models, 0);
            assert(spec_tables_written(base, models, 0, 0) =~= spec_tables_written(
            base,
            Seq::<SongRowModel>::empty(),
            0,
            0,
        ));
        assert(models.take(0) =~= Seq::<SongRowModel>::empty());
    }
    let mut pattern_cursor: usize = 0;
    let mut row_index: usize = 0;
    while row_index < rows.len()
        invariant
            row_index <= rows@.len(),
            models == row_views(rows@),
            models.len() == rows@.len(),
            rows@.len() <= 64,
            spec_flat_patterns(models).len() <= 256,
            base.len() == 1304,
            forall|j: int| 0 <= j < models.len() ==> #[trigger] spec_validate_row(models[j]) is Ok,
            pattern_cursor == spec_flat_patterns(models.take(row_index as int)).len(),
            pattern_cursor <= spec_flat_patterns(models).len(),
            raw@ == spec_tables_written(base, models, row_index as int, pattern_cursor as int),
            forall|p: int|
                0 <= p < pattern_cursor ==> #[trigger] spec_flat_patterns(models)[p].pattern <= 127,
        decreases rows@.len() - row_index,
    {
        let row = &rows[row_index];
        let offset = ROW_TABLE_OFFSET + row_index * ROW_RECORD_SIZE;
        proof {
            assert(models[row_index as int] == row@);
            assert(spec_validate_row(row@) is Ok);
            lemma_row_record_step(base, models, row_index as int, pattern_cursor as int);
            lemma_flat_take_step(models, row_index as int);
            lemma_flat_prefix(models, row_index + 1);
        }
        raw[offset] = row.unknown_prefix;
        raw[offset + 1] = row.patterns.len() as u8;
        raw[offset + 2] = row.unknown_flags;
        raw[offset + 3] = (row.repeats - 1) as u8;
        let mut m: usize = 0;
        while m < row.patterns.len()
            invariant
                m <= row.patterns@.len(),
                row_index < rows@.len(),
                models == row_views(rows@),
                models.len() == rows@.len(),
                row@ == models[row_index as int],
                rows@.len() <= 64,
                base.len() == 1304,
                spec_flat_patterns(models).len() <= 256,
                pattern_cursor == spec_flat_patterns(models.take(row_index as int)).len(),
                pattern_cursor + row.patterns@.len() <= spec_flat_patterns(models).len(),
                raw@ == spec_tables_written(
                    base,
                    models,
                    row_index + 1,
                    pattern_cursor + m,
                ),
                forall|p: int|
                    0 <= p < pattern_cursor + m ==> #[trigger] spec_flat_patterns(models)[p].pattern
                        <= 127,
            decreases row.patterns@.len() - m,
        {
            let pattern = &row.patterns[m];
            let position = pattern_cursor + m;
            proof {
                use_type_invariant(pattern);
                lemma_flat_position(models, row_index as int, m as int);
                assert(row@.patterns[m as int] == pattern@);
                lemma_pattern_record_step(base, models, row_index + 1, position as int);
            }
            let offset = PATTERN_TABLE_OFFSET + position * PATTERN_RECORD_SIZE;
            raw[offset] = (pattern.mute_word >> 8u16) as u8;
            raw[offset + 1] = (pattern.mute_word & 0xFFu16) as u8;
            raw[offset + 2] = pattern.unknown_flags;
            raw[offset + 3] = pattern.pattern;
            m += 1;
        }
        pattern_cursor += row.patterns.len();
        row_index += 1;
    }
    proof {
        assert(models.take(models.len() as int) =~= models);
    }
}

/// A name written by [`Song::set_name`] reads back from [`Song::name`] unchanged when it is
/// ASCII, at most 15 characters long, and ends with neither a NUL character nor whitespace.
pub proof fn lemma_set_name_round_trip(raw: Seq<u8>, name: Seq<char>)
    requires
        raw.len() == 1304,
        is_ascii_chars(name),
        name.len() <= 15,
        spec_name_is_trimmed(name),
    ensures
        spec_song_name(spec_set_name_bytes(raw, encode_utf8(name))) == name,
{
    let bytes = encode_utf8(name);
    is_ascii_chars_encode_utf8(name);
    let written = spec_set_name_bytes(raw, bytes);
    let field = written.subrange(4, 19);
    let padding = Seq::new((15 - name.len()) as nat, |i: int| '\0');
    let padded = name + padding;
    assert(is_ascii_chars(padded)) by {
        assert forall|i: int| 0 <= i < padded.len() implies '\0' <= #[trigger] padded[i] <= '\u{7f}' by {
            if i < name.len() {
                assert(padded[i] == name[i]);
            }
        }
    }
    is_ascii_chars_encode_utf8(padded);
    assert forall|i: int| 0 <= i < 15 implies field[i] == encode_utf8(padded)[i] by {
        if i < name.len() {
            assert(padded[i] == name[i]);
        } else {
            assert(padded[i] == '\0');
        }
    }
    assert(field =~= encode_utf8(padded));
    encode_utf8_valid_utf8(padded);
    encode_utf8_decode_utf8(padded);
    assert(spec_utf8_or_empty(field) == padded);
    lemma_trim_end_matching_padding(name, '\0', (15 - name.len()) as nat);
}

impl Song {
    fn empty(sysex_meta: SysexMeta) -> (r: Self)
        ensures
            r@ == (SongModel { meta: sysex_meta, raw: spec_empty_song_raw() }),
    {
        let mut raw = [0u8; SONG_RAW_SIZE];
        raw[0x15] = 1;
        proof {
            assert(raw@ =~= spec_empty_song_raw());
            assert(raw@[row_offset(0) + 1] == 0);
        }
        Song { sysex_meta, raw }
    }

    /// Creates an empty stored Song.
    ///
    /// # Errors
    ///
    /// Song indices must be in `0..=15`.
    pub fn try_default(index: usize) -> (r: Result<Self, RytmError>)
        ensures
            index > 15 ==> r == Err::<Song, RytmError>(
                spec_range_error(index as int, ParameterName::SongIndex),
            ),
            index <= 15 ==> r is Ok && r->Ok_0@ == (SongModel {
                meta: spec_song_meta(index as u16, 0),
                raw: spec_empty_song_raw(),
            }),
    {
        Self::try_default_with_device_id(index, 0)
    }

    /// Creates an empty stored Song with an explicit device ID.
    ///
    /// # Errors
    ///
    /// Song indices must be in `0..=15`.
    pub fn try_default_with_device_id(index: usize, device_id: u8) -> (r: Result<Self, RytmError>)
        ensures
            index > 15 ==> r == Err::<Song, RytmError>(
                spec_range_error(index as int, ParameterName::SongIndex),
            ),
            index <= 15 ==> r is Ok && r->Ok_0@ == (SongModel {
                meta: spec_song_meta(index as u16, device_id),
                raw: spec_empty_song_raw(),
            }),
    {
        Ok(Self::empty(SysexMeta::try_default_for_song(index, Some(device_id))?))
    }

    /// Creates an empty work-buffer Song.
    pub fn work_buffer_default_with_device_id(device_id: u8) -> (r: Self)
        ensures
            r@ == (SongModel { meta: spec_song_meta(0x80, device_id), raw: spec_empty_song_raw() }),
    {
        Self::empty(SysexMeta::default_for_song_in_work_buffer(Some(device_id)))
    }

    /// Makes a Song of what the codec decoded from a Song `SysEx` response: the decoded object
    /// and its metadata, or the codec's error.
    ///
    /// # Errors
    ///
    /// The codec's error, or the errors of [`Song::try_from_raw`].
    pub fn from_sysex(decoded: Result<(Vec<u8>, SysexMeta), RytmError>) -> (r: Result<
        Self,
        RytmError,
    >)
        ensures
            decoded matches Err(e) ==> r == Err::<Song, RytmError>(e),
            decoded matches Ok((raw, meta)) ==> (spec_song_from_raw(meta, raw@) matches Ok(m)
                ==> r is Ok && r->Ok_0@ == m),
            decoded matches Ok((raw, meta)) ==> (spec_song_from_raw(meta, raw@) matches Err(e)
                ==> r == Err::<Song, RytmError>(e)),
    {
        let (raw, meta) = decoded?;
        Self::try_from_raw(meta, raw.as_slice())
    }

    /// Makes a Song of its decoded bytes and metadata.
    ///
    /// # Errors
    ///
    /// The metadata must name the Song type, the object must be 1,304 bytes long, and its rows
    /// must decode.
    pub fn try_from_raw(meta: SysexMeta, raw: &[u8]) -> (r: Result<Self, RytmError>)
        ensures
            spec_song_from_raw(meta, raw@) matches Ok(m) ==> r is Ok && r->Ok_0@ == m,
            spec_song_from_raw(meta, raw@) matches Err(e) ==> r == Err::<Song, RytmError>(e),
    {
        if meta.object_type()? != SysexType::Song {
            return Err(RytmError::SysexConversion(SysexConversionError::InvalidObjType));
        }
        if raw.len() != SONG_RAW_SIZE {
            return Err(
                RytmError::SysexConversion(
                    SysexConversionError::InvalidSize(SONG_RAW_SIZE, raw.len()),
                ),
            );
        }
        let mut bytes = [0u8; SONG_RAW_SIZE];
        let mut i: usize = 0;
        while i < SONG_RAW_SIZE
            invariant
                i <= 1304,
                raw@.len() == 1304,
                forall|j: int| 0 <= j < i ==> bytes@[j] == raw@[j],
            decreases 1304 - i,
        {
            bytes[i] = raw[i];
            i += 1;
        }
        assert(bytes@ =~= raw@);
        if let Err(e) = decode_rows(&bytes) {
            return Err(e);
        }
        Ok(Song { sysex_meta: meta, raw: bytes })
    }

    /// Returns support evidence for optional Song fields.
    pub fn capabilities(&self) -> (r: SongCapabilities)
        ensures
            r == spec_connected_mkii(),
    {
        SongCapabilities::connected_mkii()
    }

    /// Returns the stored slot or normalized work-buffer Song index.
    pub fn index(&self) -> (r: usize)
        ensures
            r == self@.meta.obj_nr % 128,
    {
        self.sysex_meta.get_normalized_object_index()
    }

    /// Returns whether this object targets the work buffer.
    pub fn is_work_buffer(&self) -> (r: bool)
        ensures
            r == (self@.meta.obj_nr >= 128),
    {
        self.sysex_meta.is_targeting_work_buffer()
    }

    /// Returns the `SysEx` metadata that the Song is encoded with.
    pub fn sysex_meta(&self) -> (r: SysexMeta)
        ensures
            r == self@.meta,
    {
        self.sysex_meta
    }

    /// Returns the name shown by the Song menu.
    pub fn name(&self) -> (r: &str)
        ensures
            r@ == spec_song_name(self@.raw),
    {
        let field = &self.raw.as_slice()[NAME_OFFSET..NAME_OFFSET + NAME_LENGTH];
        let text = match str_from_utf8(field) {
            Some(text) => text,
            None => "",
        };
        proof {
            reveal_strlit("");
        }
        trim_end_white_space(trim_end_matching(text, '\0'))
    }

    /// Sets the Song name while preserving every unrelated header byte.
    ///
    /// # Errors
    ///
    /// Names must be at most 15 bytes long and ASCII.
    pub fn set_name(&mut self, name: &str) -> (r: Result<(), RytmError>)
        ensures
            name.spec_bytes().len() > 15 ==> r == Err::<(), RytmError>(
                spec_range_error(name.spec_bytes().len() as int, ParameterName::ObjectName),
            ) && final(self)@ == old(self)@,
            name.spec_bytes().len() <= 15 && !name.is_ascii() ==> r == Err::<(), RytmError>(
                RytmError::Parameter(
                    ParameterError::Compatibility {
                        value: CompatibilityValue::Number(name.spec_bytes().len() as usize),
                        parameter_name: ParameterName::ObjectName,
                        reason: None,
                    },
                ),
            ) && final(self)@ == old(self)@,
            name.spec_bytes().len() <= 15 && name.is_ascii() ==> r is Ok && final(self)@ == (
            SongModel { raw: spec_set_name_bytes(old(self)@.raw, name.spec_bytes()), ..old(self)@ }),
            r is Ok && spec_name_is_trimmed(name@) ==> spec_song_name(final(self)@.raw) == name@,
    {
        let bytes = name.as_bytes();
        let len = bytes.len();
        if len > NAME_LENGTH {
            return Err(range_error(len, ParameterName::ObjectName));
        }
        if !name.is_ascii() {
            return Err(
                RytmError::Parameter(
                    ParameterError::Compatibility {
                        value: CompatibilityValue::Number(len),
                        parameter_name: ParameterName::ObjectName,
                        reason: None,
                    },
                ),
            );
        }
        let ghost old_raw = self.raw@;
        let mut raw = self.raw;
        let mut i: usize = 0;
        while i < NAME_LENGTH
            invariant
                i <= 15,
                bytes@.len() == len,
                len <= 15,
                old_raw.len() == 1304,
                forall|j: int|
                    0 <= j < 1304 ==> raw@[j] == if 4 <= j < 4 + i {
                        if j - 4 < len {
                            bytes@[j - 4]
                        } else {
                            0u8
                        }
                    } else {
                        old_raw[j]
                    },
            decreases 15 - i,
        {
            raw[NAME_OFFSET + i] = if i < len {
                bytes[i]
            } else {
                0
            };
            i += 1;
        }
        proof {
            assert(raw@ =~= spec_set_name_bytes(old_raw, bytes@));
            use_type_invariant(&*self);
            lemma_decode_rows_frame(raw@, old_raw, 0, 0);
            if spec_name_is_trimmed(name@) {
                lemma_set_name_round_trip(old_raw, name@);
            }
        }
        self.raw = raw;
        Ok(())
    }

    /// Decodes active rows and their pattern positions. The rows of every Song decode.
    pub fn rows(&self) -> (r: Result<Vec<SongRow>, RytmError>)
        ensures
            spec_decode_rows(self@.raw) is Ok,
            r is Ok && row_views(r->Ok_0@) == spec_decode_rows(self@.raw)->Ok_0,
            forall|j: int|
                0 <= j < r->Ok_0@.len() ==> #[trigger] spec_validate_row(r->Ok_0@[j]@) is Ok,
    {
        proof {
            use_type_invariant(self);
        }
        decode_rows(&self.raw)
    }
}

impl Song {
    /// Replaces all active rows while preserving unidentified header and inactive-record bytes.
    /// The rows read back are the rows written.
    ///
    /// # Errors
    ///
    /// At most 64 rows and 256 total pattern positions are accepted, and every row must hold
    /// `1..=255` pattern positions and repeat `1..=256` times.
    pub fn replace_rows(&mut self, rows: &[SongRow]) -> (r: Result<(), RytmError>)
        requires
            spec_flat_patterns(row_views(rows@)).len() <= usize::MAX,
        ensures
            spec_validate_rows(row_views(rows@)) matches Err(e) ==> r == Err::<(), RytmError>(e)
                && final(self)@ == old(self)@,
            spec_validate_rows(row_views(rows@)) is Ok ==> r is Ok && final(self)@ == (SongModel {
                raw: spec_write_rows(old(self)@.raw, row_views(rows@)),
                ..old(self)@
            }),
            r is Ok ==> spec_decode_rows(final(self)@.raw) == Ok::<Seq<SongRowModel>, RytmError>(
                row_views(rows@),
            ),
            (forall|j: int| 0 <= j < rows@.len() ==> #[trigger] spec_validate_row(rows@[j]@) is Ok)
                ==> (r is Err <==> (rows@.len() > 64 || spec_flat_patterns(row_views(rows@)).len()
                > 256)),
    {
        let ghost models = row_views(rows@);
        proof {
            if forall|j: int| 0 <= j < rows@.len() ==> #[trigger] spec_validate_row(rows@[j]@) is Ok {
                assert forall|j: int| 0 <= j < models.len() implies #[trigger] spec_validate_row(
                    models[j],
                ) is Ok by {
                    assert(models[j] == rows@[j]@);
                }
                lemma_valid_rows_pass(models, 0);
            }
        }
        validate_range(rows.len(), ParameterName::SongRowCount, 0, SONG_ROW_CAPACITY)?;
        let mut pattern_count: usize = 0;
        let mut i: usize = 0;
        while i < rows.len()
            invariant
                i <= rows@.len(),
                models == row_views(rows@),
                models.len() == rows@.len(),
                spec_flat_patterns(models).len() <= usize::MAX,
                pattern_count == spec_flat_patterns(models.take(i as int)).len(),
            decreases rows@.len() - i,
        {
            proof {
                assert(models[i as int] == rows@[i as int]@);
                lemma_flat_take_step(models, i as int);
                lemma_flat_prefix(models, i + 1);
            }
            pattern_count += rows[i].patterns.len();
            i += 1;
        }
        proof {
            assert(models.take(models.len() as int) =~= models);
        }
        validate_range(
            pattern_count,
            ParameterName::SongPatternPositionCount,
            0,
            SONG_PATTERN_CAPACITY,
        )?;
        let mut i: usize = 0;
        while i < rows.len()
            invariant
                i <= rows@.len(),
                models == row_views(rows@),
                models.len() == rows@.len(),
                spec_validate_each_row(models, 0) == spec_validate_each_row(models, i as int),
                spec_validate_rows(models) == spec_validate_each_row(models, 0),
                *self == *old(self),
            decreases rows@.len() - i,
        {
            assert(models[i as int] == rows@[i as int]@);
            validate_patterns(rows[i].patterns.as_slice())?;
            validate_range(rows[i].repeats as usize, ParameterName::SongRowRepeats, 1, 256)?;
            i += 1;
        }
        let ghost old_raw = self.raw@;
        let mut raw = self.raw;
        clear_row_counts(&mut raw);
        proof {
            lemma_clear_then_write(
                old_raw,
                models,
                models.len() as int,
                spec_flat_patterns(models).len() as int,
            );
        }
        write_rows(&mut raw, rows);
        proof {
            lemma_write_rows_decode(old_raw, models);
        }
        self.raw = raw;
        Ok(())
    }

    /// Removes all active rows while preserving unidentified bytes. No rows read back.
    pub fn clear(&mut self)
        ensures
            final(self)@ == (SongModel {
                raw: spec_write_rows(old(self)@.raw, Seq::<SongRowModel>::empty()),
                ..old(self)@
            }),
            spec_decode_rows(final(self)@.raw) == Ok::<Seq<SongRowModel>, RytmError>(
                Seq::<SongRowModel>::empty(),
            ),
    {
        let ghost old_raw = self.raw@;
        let mut raw = self.raw;
        clear_row_counts(&mut raw);
        proof {
            let none = Seq::<SongRowModel>::empty();
            assert(spec_flat_patterns(none).len() == 0);
            lemma_write_rows_decode(old_raw, none);
        }
        self.raw = raw;
    }

    /// Returns the exact decoded 1,304-byte object.
    pub fn raw_bytes(&self) -> (r: &[u8; SONG_RAW_SIZE])
        ensures
            r@ == self@.raw,
    {
        &self.raw
    }

    /// Returns the 24-byte header containing the version, name, and unidentified state bytes.
    pub fn raw_header(&self) -> (r: &[u8])
        ensures
            r@ == self@.raw.subrange(0, 24),
    {
        &self.raw.as_slice()[0..HEADER_SIZE]
    }

    /// Changes the target device ID.
    pub fn set_device_id(&mut self, device_id: u8)
        ensures
            final(self)@ == (SongModel {
                meta: SysexMeta { dev_id: device_id, ..old(self)@.meta },
                ..old(self)@
            }),
    {
        proof {
            use_type_invariant(&*self);
        }
        let mut meta = self.sysex_meta;
        meta.set_device_id(device_id);
        self.sysex_meta = meta;
    }
}

} // verus!
