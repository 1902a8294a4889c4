//! The row and pattern-position tables of a decoded Song object, as plain values.
//!
//! Row `r` is the four bytes at `0x18 + 4 * r`: `[unknown prefix, pattern count, unknown flags,
//! repeats - 1]`. Pattern position `p` is the four bytes at `0x118 + 4 * p`: `[mute word msb,
//! mute word lsb, unknown flags, pattern]`. Rows are read until the first row with a pattern
//! count of zero, and each row owns the pattern positions that follow those of the rows before it.

use crate::error::{
    spec_range_error, CompatibilityReason, CompatibilityValue, ParameterError, ParameterName,
    RytmError,
};
use crate::object::song::{SongPatternModel, SongRowModel};
use vstd::prelude::*;

verus! {

/// Offset of row record `r`.
pub open spec fn row_offset(r: int) -> int {
    0x18 + 4 * r
}

/// Offset of pattern-position record `p`.
pub open spec fn pattern_offset(p: int) -> int {
    0x118 + 4 * p
}

/// The mute word stored big-endian as `msb`, `lsb`.
pub open spec fn spec_mute_word(msb: u8, lsb: u8) -> u16 {
    ((msb as u16) << 8u16) | (lsb as u16)
}

/// The high byte of a mute word.
pub open spec fn spec_mute_msb(word: u16) -> u8 {
    (word >> 8u16) as u8
}

/// The low byte of a mute word.
pub open spec fn spec_mute_lsb(word: u16) -> u8 {
    (word & 0xFFu16) as u8
}

/// The pattern position stored in record `p`.
pub open spec fn spec_pattern_at(raw: Seq<u8>, p: int) -> SongPatternModel {
    SongPatternModel {
        pattern: raw[pattern_offset(p) + 3],
        mute_word: spec_mute_word(raw[pattern_offset(p)], raw[pattern_offset(p) + 1]),
        unknown_flags: raw[pattern_offset(p) + 2],
    }
}

/// `rest` with `prefix` put in front of it when it is a success.
pub open spec fn prepend<T>(prefix: Seq<T>, rest: Result<Seq<T>, RytmError>) -> Result<
    Seq<T>,
    RytmError,
> {
    match rest {
        Ok(s) => Ok(prefix + s),
        Err(e) => Err(e),
    }
}

/// The `count` pattern positions from record `start` on; the first one whose pattern byte is
/// above 127 is an error.
pub open spec fn spec_decode_patterns(raw: Seq<u8>, start: int, count: nat) -> Result<
    Seq<SongPatternModel>,
    RytmError,
>
    decreases count,
{
    if count == 0 {
        Ok(Seq::empty())
    } else if raw[pattern_offset(start) + 3] > 127 {
        Err(spec_range_error(raw[pattern_offset(start) + 3] as int, ParameterName::SongPattern))
    } else {
        prepend(
            seq![spec_pattern_at(raw, start)],
            spec_decode_patterns(raw, start + 1, (count - 1) as nat),
        )
    }
}

/// Row record `r` holding the pattern chain `patterns`.
pub open spec fn spec_row_at(raw: Seq<u8>, r: int, patterns: Seq<SongPatternModel>) -> SongRowModel {
    SongRowModel {
        patterns,
        repeats: (raw[row_offset(r) + 3] + 1) as u16,
        unknown_prefix: raw[row_offset(r)],
        unknown_flags: raw[row_offset(r) + 2],
    }
}

/// The error for rows whose pattern counts run past the 256 pattern positions.
pub open spec fn spec_pattern_positions_error(total: int) -> RytmError {
    RytmError::Parameter(
        ParameterError::Compatibility {
            value: CompatibilityValue::Number(total as usize),
            parameter_name: ParameterName::SongPatternPositions,
            reason: Some(CompatibilityReason::SongPoolExceeded),
        },
    )
}

/// The active rows from row `row` on, whose pattern positions start at record `cursor`.
pub open spec fn spec_decode_rows_from(raw: Seq<u8>, row: nat, cursor: nat) -> Result<
    Seq<SongRowModel>,
    RytmError,
>
    decreases 64 - row,
{
    if row >= 64 {
        Ok(Seq::empty())
    } else {
        let count = raw[row_offset(row as int) + 1];
        if count == 0 {
            Ok(Seq::empty())
        } else if cursor + count > 256 {
            Err(spec_pattern_positions_error(cursor + count))
        } else {
            match spec_decode_patterns(raw, cursor as int, count as nat) {
                Err(e) => Err(e),
                Ok(patterns) => prepend(
                    seq![spec_row_at(raw, row as int, patterns)],
                    spec_decode_rows_from(raw, row + 1, (cursor + count) as nat),
                ),
            }
        }
    }
}

/// The active rows of a Song object.
pub open spec fn spec_decode_rows(raw: Seq<u8>) -> Result<Seq<SongRowModel>, RytmError> {
    spec_decode_rows_from(raw, 0, 0)
}

/// The pattern positions of `rows`, in playback order.
pub open spec fn spec_flat_patterns(rows: Seq<SongRowModel>) -> Seq<SongPatternModel>
    decreases rows.len(),
{
    if rows.len() == 0 {
        Seq::empty()
    } else {
        spec_flat_patterns(rows.drop_last()) + rows.last().patterns
    }
}

/// Byte `k` of the record of `row`.
pub open spec fn spec_row_record_byte(row: SongRowModel, k: int) -> u8 {
    if k == 0 {
        row.unknown_prefix
    } else if k == 1 {
        row.patterns.len() as u8
    } else if k == 2 {
        row.unknown_flags
    } else {
        (row.repeats - 1) as u8
    }
}

/// Byte `k` of the record of pattern position `p`.
pub open spec fn spec_pattern_record_byte(p: SongPatternModel, k: int) -> u8 {
    if k == 0 {
        spec_mute_msb(p.mute_word)
    } else if k == 1 {
        spec_mute_lsb(p.mute_word)
    } else if k == 2 {
        p.unknown_flags
    } else {
        p.pattern
    }
}

/// `raw` with the records of the first `row_count` rows and the first `pattern_count` pattern
/// positions of `rows` written, and the pattern count and repeat bytes of every later row
/// cleared. Every other byte is kept.
pub open spec fn spec_tables_written(
    raw: Seq<u8>,
    rows: Seq<SongRowModel>,
    row_count: int,
    pattern_count: int,
) -> Seq<u8> {
    Seq::new(
        raw.len(),
        |i: int|
            if 0x18 <= i < 0x118 {
                if (i - 0x18) / 4 < row_count {
                    spec_row_record_byte(rows[(i - 0x18) / 4], (i - 0x18) % 4)
                } else if (i - 0x18) % 4 == 1 || (i - 0x18) % 4 == 3 {
                    0u8
                } else {
                    raw[i]
                }
            } else if 0x118 <= i < 0x518 && (i - 0x118) / 4 < pattern_count {
                spec_pattern_record_byte(
                    spec_flat_patterns(rows)[(i - 0x118) / 4],
                    (i - 0x118) % 4,
                )
            } else {
                raw[i]
            },
    )
}

/// `raw` with `rows` as its only active rows: their records and pattern positions written, the
/// pattern count and repeat bytes of every later row cleared, every other byte kept.
pub open spec fn spec_write_rows(raw: Seq<u8>, rows: Seq<SongRowModel>) -> Seq<u8> {
    spec_tables_written(raw, rows, rows.len() as int, spec_flat_patterns(rows).len() as int)
}

/// A row holds `1..=255` pattern positions and repeats `1..=256` times.
pub open spec fn spec_validate_row(row: SongRowModel) -> Result<(), RytmError> {
    if row.patterns.len() < 1 || row.patterns.len() > 255 {
        Err(spec_range_error(row.patterns.len() as int, ParameterName::SongRowPatternCount))
    } else if row.repeats < 1 || row.repeats > 256 {
        Err(spec_range_error(row.repeats as int, ParameterName::SongRowRepeats))
    } else {
        Ok(())
    }
}

/// The first invalid row from row `i` on, checked in order.
pub open spec fn spec_validate_each_row(rows: Seq<SongRowModel>, i: int) -> Result<(), RytmError>
    decreases rows.len() - i,
{
    if i < 0 || i >= rows.len() {
        Ok(())
    } else {
        match spec_validate_row(rows[i]) {
            Err(e) => Err(e),
            Ok(_) => spec_validate_each_row(rows, i + 1),
        }
    }
}

/// At most 64 rows and 256 pattern positions in all, then every row valid.
pub open spec fn spec_validate_rows(rows: Seq<SongRowModel>) -> Result<(), RytmError> {
    if rows.len() > 64 {
        Err(spec_range_error(rows.len() as int, ParameterName::SongRowCount))
    } else if spec_flat_patterns(rows).len() > 256 {
        Err(
            spec_range_error(
                spec_flat_patterns(rows).len() as int,
                ParameterName::SongPatternPositionCount,
            ),
        )
    } else {
        spec_validate_each_row(rows, 0)
    }
}

/// Whether every pattern index of every row is at most 127.
pub open spec fn spec_patterns_in_range(rows: Seq<SongRowModel>) -> bool {
    forall|p: int|
        0 <= p < spec_flat_patterns(rows).len() ==> #[trigger] spec_flat_patterns(rows)[p].pattern
            <= 127
}

/// The high and low bytes of a mute word give the word back.
pub proof fn lemma_mute_word_round_trip(word: u16)
    ensures
        spec_mute_word(spec_mute_msb(word), spec_mute_lsb(word)) == word,
{
    assert((((((word >> 8u16) as u8) as u16) << 8u16) | (((word & 0xFFu16) as u8) as u16)) == word)
        by (bit_vector);
}

/// The pattern positions of the first `j + 1` rows are those of the first `j` rows followed by
/// row `j`'s.
pub proof fn lemma_flat_take_step(rows: Seq<SongRowModel>, j: int)
    requires
        0 <= j < rows.len(),
    ensures
        spec_flat_patterns(rows.take(j + 1)) == spec_flat_patterns(rows.take(j))
            + rows[j].patterns,
{
    assert(rows.take(j + 1).drop_last() =~= rows.take(j));
}

/// The pattern positions of the first `n` rows begin the pattern positions of all rows.
pub proof fn lemma_flat_prefix(rows: Seq<SongRowModel>, n: int)
    requires
        0 <= n <= rows.len(),
    ensures
        spec_flat_patterns(rows.take(n)).len() <= spec_flat_patterns(rows).len(),
        forall|p: int|
            0 <= p < spec_flat_patterns(rows.take(n)).len() ==> #[trigger] spec_flat_patterns(
                rows,
            )[p] == spec_flat_patterns(rows.take(n))[p],
    decreases rows.len(),
{
    if n == rows.len() {
        assert(rows.take(n) =~= rows);
    } else {
        lemma_flat_prefix(rows.drop_last(), n);
        assert(rows.drop_last().take(n) =~= rows.take(n));
    }
}

/// Pattern `m` of row `j` is pattern position `m` after those of the rows before `j`.
pub proof fn lemma_flat_position(rows: Seq<SongRowModel>, j: int, m: int)
    requires
        0 <= j < rows.len(),
        0 <= m < rows[j].patterns.len(),
    ensures
        spec_flat_patterns(rows.take(j)).len() + m < spec_flat_patterns(rows).len(),
        spec_flat_patterns(rows)[spec_flat_patterns(rows.take(j)).len() + m]
            == rows[j].patterns[m],
{
    lemma_flat_take_step(rows, j);
    lemma_flat_prefix(rows, j + 1);
    let p = spec_flat_patterns(rows.take(j)).len() + m;
    assert(spec_flat_patterns(rows.take(j + 1))[p] == rows[j].patterns[m]);
}

/// Every row from row `i` on is valid when the check from row `i` on succeeds.
pub proof fn lemma_validate_each_row(rows: Seq<SongRowModel>, i: int)
    requires
        0 <= i,
        spec_validate_each_row(rows, i) is Ok,
    ensures
        forall|j: int| i <= j < rows.len() ==> #[trigger] spec_validate_row(rows[j]) is Ok,
    decreases rows.len() - i,
{
    if i < rows.len() {
        lemma_validate_each_row(rows, i + 1);
    }
}

/// The check from row `i` on succeeds when every row from row `i` on is valid.
pub proof fn lemma_valid_rows_pass(rows: Seq<SongRowModel>, i: int)
    requires
        0 <= i,
        forall|j: int| i <= j < rows.len() ==> #[trigger] spec_validate_row(rows[j]) is Ok,
    ensures
        spec_validate_each_row(rows, i) is Ok,
    decreases rows.len() - i,
{
    if i < rows.len() {
        assert(spec_validate_row(rows[i]) is Ok);
        lemma_valid_rows_pass(rows, i + 1);
    }
}

/// Pattern position `p` of written tables is the `p`-th pattern position of the rows written.
pub proof fn lemma_written_pattern_at(
    raw: Seq<u8>,
    rows: Seq<SongRowModel>,
    row_count: int,
    pattern_count: int,
    p: int,
)
    requires
        raw.len() == 1304,
        0 <= p < pattern_count <= 256,
    ensures
        spec_pattern_at(spec_tables_written(raw, rows, row_count, pattern_count), p)
            == spec_flat_patterns(rows)[p],
{
    let w = spec_tables_written(raw, rows, row_count, pattern_count);
    let pattern = spec_flat_patterns(rows)[p];
    let i = pattern_offset(p);
    assert((i - 0x118) / 4 == p && (i - 0x118) % 4 == 0);
    assert((i + 1 - 0x118) / 4 == p && (i + 1 - 0x118) % 4 == 1);
    assert((i + 2 - 0x118) / 4 == p && (i + 2 - 0x118) % 4 == 2);
    assert((i + 3 - 0x118) / 4 == p && (i + 3 - 0x118) % 4 == 3);
    lemma_mute_word_round_trip(pattern.mute_word);
    assert(spec_pattern_at(w, p) == pattern);
}

/// Byte `k` of row record `r` of written tables.
pub proof fn lemma_written_row_byte(
    raw: Seq<u8>,
    rows: Seq<SongRowModel>,
    row_count: int,
    pattern_count: int,
    r: int,
    k: int,
)
    requires
        raw.len() == 1304,
        0 <= r < 64,
        0 <= k < 4,
    ensures
        spec_tables_written(raw, rows, row_count, pattern_count)[row_offset(r) + k] == if r
            < row_count {
            spec_row_record_byte(rows[r], k)
        } else if k == 1 || k == 3 {
            0u8
        } else {
            raw[row_offset(r) + k]
        },
{
    let i = row_offset(r) + k;
    assert((i - 0x18) / 4 == r && (i - 0x18) % 4 == k);
}

/// Decoding `count` written pattern positions from `start` gives them back.
pub proof fn lemma_decode_written_patterns(
    raw: Seq<u8>,
    flat: Seq<SongPatternModel>,
    start: int,
    count: nat,
)
    requires
        0 <= start,
        start + count <= flat.len(),
        forall|p: int|
            start <= p < start + count ==> #[trigger] spec_pattern_at(raw, p) == flat[p]
                && flat[p].pattern <= 127,
    ensures
        spec_decode_patterns(raw, start, count) == Ok::<Seq<SongPatternModel>, RytmError>(
            flat.subrange(start, start + count),
        ),
    decreases count,
{
    if count == 0 {
        assert(flat.subrange(start, start) =~= Seq::<SongPatternModel>::empty());
    } else {
        assert(spec_pattern_at(raw, start) == flat[start]);
        lemma_decode_written_patterns(raw, flat, start + 1, (count - 1) as nat);
        assert(seq![flat[start]] + flat.subrange(start + 1, start + count) =~= flat.subrange(
            start,
            start + count,
        ));
    }
}

/// Decoding written rows from row `r` on gives back rows `r..`.
#[verifier::spinoff_prover]
#[verifier::rlimit(40)]
pub proof fn lemma_decode_written_rows(raw: Seq<u8>, rows: Seq<SongRowModel>, r: int)
    requires
        raw.len() == 1304,
        rows.len() <= 64,
        spec_flat_patterns(rows).len() <= 256,
        forall|j: int| 0 <= j < rows.len() ==> #[trigger] spec_validate_row(rows[j]) is Ok,
        spec_patterns_in_range(rows),
        0 <= r <= rows.len(),
    ensures
        spec_decode_rows_from(
            spec_write_rows(raw, rows),
            r as nat,
            spec_flat_patterns(rows.take(r)).len(),
        ) == Ok::<Seq<SongRowModel>, RytmError>(rows.skip(r)),
    decreases rows.len() - r,
{
    let w = spec_write_rows(raw, rows);
    let flat = spec_flat_patterns(rows);
    let cursor = spec_flat_patterns(rows.take(r)).len();
    lemma_flat_prefix(rows, r);
    if r == rows.len() {
        assert(rows.skip(r) =~= Seq::<SongRowModel>::empty());
        if r < 64 {
            lemma_written_row_byte(raw, rows, rows.len() as int, flat.len() as int, r, 1);
        }
    } else {
        let row = rows[r];
        let count = row.patterns.len();
        assert(spec_validate_row(row) is Ok);
        lemma_written_row_byte(raw, rows, rows.len() as int, flat.len() as int, r, 0);
        lemma_written_row_byte(raw, rows, rows.len() as int, flat.len() as int, r, 1);
        lemma_written_row_byte(raw, rows, rows.len() as int, flat.len() as int, r, 2);
        lemma_written_row_byte(raw, rows, rows.len() as int, flat.len() as int, r, 3);
        assert(w[row_offset(r) + 1] == count);
        lemma_flat_take_step(rows, r);
        lemma_flat_prefix(rows, r + 1);
        assert(cursor + count <= flat.len());
        assert forall|p: int| cursor <= p < cursor + count implies #[trigger] spec_pattern_at(w, p)
            == flat[p] && flat[p].pattern <= 127 by {
            lemma_written_pattern_at(raw, rows, rows.len() as int, flat.len() as int, p);
        }
        lemma_decode_written_patterns(w, flat, cursor as int, count);
        assert(flat.subrange(cursor as int, (cursor + count) as int) =~= row.patterns) by {
            assert forall|m: int| 0 <= m < count implies flat[cursor + m] == row.patterns[m] by {
                lemma_flat_position(rows, r, m);
            }
        }
        assert(spec_row_at(w, r, row.patterns) == row);
        lemma_decode_written_rows(raw, rows, r + 1);
        assert(seq![row] + rows.skip(r + 1) =~= rows.skip(r));
    }
}

/// Rows that pass validation, written into any Song object, decode back to themselves.
pub proof fn lemma_write_rows_decode(raw: Seq<u8>, rows: Seq<SongRowModel>)
    requires
        raw.len() == 1304,
        spec_validate_rows(rows) is Ok,
        spec_patterns_in_range(rows),
    ensures
        spec_decode_rows(spec_write_rows(raw, rows)) == Ok::<Seq<SongRowModel>, RytmError>(rows),
{
    lemma_validate_each_row(rows, 0);
    assert(rows.take(0) =~= Seq::<SongRowModel>::empty());
    assert(rows.skip(0) =~= rows);
    lemma_decode_written_rows(raw, rows, 0);
}

/// Pattern positions decode the same from two objects that agree from the row table on.
pub proof fn lemma_decode_patterns_frame(a: Seq<u8>, b: Seq<u8>, start: int, count: nat)
    requires
        a.len() == 1304,
        b.len() == 1304,
        forall|i: int| 0x18 <= i < 1304 ==> a[i] == b[i],
        0 <= start,
        start + count <= 256,
    ensures
        spec_decode_patterns(a, start, count) == spec_decode_patterns(b, start, count),
    decreases count,
{
    if count > 0 {
        lemma_decode_patterns_frame(a, b, start + 1, (count - 1) as nat);
    }
}

/// Rows decode the same from two objects that agree from the row table on.
pub proof fn lemma_decode_rows_frame(a: Seq<u8>, b: Seq<u8>, row: nat, cursor: nat)
    requires
        a.len() == 1304,
        b.len() == 1304,
        forall|i: int| 0x18 <= i < 1304 ==> a[i] == b[i],
        cursor <= 256,
    ensures
        spec_decode_rows_from(a, row, cursor) == spec_decode_rows_from(b, row, cursor),
    decreases 64 - row,
{
    if row < 64 {
        let count = a[row_offset(row as int) + 1];
        if count != 0 && cursor + count <= 256 {
            lemma_decode_patterns_frame(a, b, cursor as int, count as nat);
            lemma_decode_rows_frame(a, b, row + 1, (cursor + count) as nat);
        }
    }
}

/// Writing rows keeps the header, the bytes after the pattern-position table, the unidentified
/// bytes of every row record past the written rows, and every pattern position past the written
/// ones.
pub proof fn lemma_write_rows_keeps_unwritten_bytes(raw: Seq<u8>, rows: Seq<SongRowModel>)
    requires
        raw.len() == 1304,
    ensures
        forall|i: int|
            (0 <= i < 0x18 || 0x518 <= i < 1304) ==> #[trigger] spec_write_rows(raw, rows)[i]
                == raw[i],
        forall|r: int, k: int|
            rows.len() <= r < 64 && (k == 0 || k == 2) ==> #[trigger] spec_write_rows(raw, rows)[row_offset(r) + k]
                == raw[row_offset(r) + k],
        forall|p: int, k: int|
            spec_flat_patterns(rows).len() <= p < 256 && 0 <= k < 4 ==> #[trigger] spec_write_rows(
                raw,
                rows,
            )[pattern_offset(p) + k] == raw[pattern_offset(p) + k],
{
    let w = spec_write_rows(raw, rows);
    assert forall|r: int, k: int| rows.len() <= r < 64 && (k == 0 || k == 2) implies #[trigger] w[row_offset(r) + k]
        == raw[row_offset(r) + k] by {
        let i = row_offset(r) + k;
        assert((i - 0x18) / 4 == r && (i - 0x18) % 4 == k);
    }
    assert forall|p: int, k: int|
        spec_flat_patterns(rows).len() <= p < 256 && 0 <= k < 4 implies #[trigger] w[pattern_offset(p) + k]
        == raw[pattern_offset(p) + k] by {
        let i = pattern_offset(p) + k;
        assert((i - 0x118) / 4 == p);
    }
}

/// Decoding `count` pattern positions gives `count` of them.
pub proof fn lemma_decode_patterns_len(raw: Seq<u8>, start: int, count: nat)
    ensures
        spec_decode_patterns(raw, start, count) matches Ok(ps) ==> ps.len() == count,
    decreases count,
{
    if count > 0 {
        lemma_decode_patterns_len(raw, start + 1, (count - 1) as nat);
    }
}

/// Every decoded row holds `1..=255` pattern positions and repeats `1..=256` times.
pub proof fn lemma_decoded_rows_are_valid(raw: Seq<u8>, row: nat, cursor: nat)
    ensures
        spec_decode_rows_from(raw, row, cursor) matches Ok(rows) ==> forall|j: int|
            0 <= j < rows.len() ==> #[trigger] spec_validate_row(rows[j]) is Ok,
    decreases 64 - row,
{
    if row < 64 {
        let count = raw[row_offset(row as int) + 1];
        if count != 0 && cursor + count <= 256 {
            lemma_decode_patterns_len(raw, cursor as int, count as nat);
            lemma_decoded_rows_are_valid(raw, row + 1, (cursor + count) as nat);
            if let Ok(rows) = spec_decode_rows_from(raw, row, cursor) {
                let patterns = spec_decode_patterns(raw, cursor as int, count as nat)->Ok_0;
                let rest = spec_decode_rows_from(raw, row + 1, (cursor + count) as nat)->Ok_0;
                assert(rows == seq![spec_row_at(raw, row as int, patterns)] + rest);
                assert forall|j: int| 0 <= j < rows.len() implies #[trigger] spec_validate_row(
                    rows[j],
                ) is Ok by {
                    if j > 0 {
                        assert(rows[j] == rest[j - 1]);
                    }
                }
            }
        }
    }
}

} // verus!
