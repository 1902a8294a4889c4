//! The 48-record lock table behind a Kit's Scenes or Performance macros.
//!
//! The table is 192 bytes: record `s` is the four bytes at `4 * s`, holding
//! `[value, track, parameter, macro id]`. A record whose id byte is `0xFF` is free.

use crate::error::{
    spec_macro_memory_full, CompatibilityReason, CompatibilityValue, CustomError, ParameterError,
    ParameterName, RytmError,
};
use crate::object::kit::macros::{
    spec_parameter_from_raw, spec_track_from_raw, MacroParameterModel, MacroTrack,
};
use vstd::prelude::*;

verus! {

/// The value byte of record `slot`.
pub open spec fn rec_value(raw: Seq<u8>, slot: int) -> u8 {
    raw[4 * slot]
}

/// The track byte of record `slot`.
pub open spec fn rec_track(raw: Seq<u8>, slot: int) -> u8 {
    raw[4 * slot + 1]
}

/// The parameter byte of record `slot`.
pub open spec fn rec_parameter(raw: Seq<u8>, slot: int) -> u8 {
    raw[4 * slot + 2]
}

/// The macro id byte of record `slot`.
pub open spec fn rec_id(raw: Seq<u8>, slot: int) -> u8 {
    raw[4 * slot + 3]
}

/// Whether record `slot` is free.
pub open spec fn rec_is_free(raw: Seq<u8>, slot: int) -> bool {
    rec_id(raw, slot) == 0xFF
}

/// Whether two tables hold the same four bytes at record `slot`.
pub open spec fn same_record(a: Seq<u8>, b: Seq<u8>, slot: int) -> bool {
    &&& a[4 * slot] == b[4 * slot]
    &&& a[4 * slot + 1] == b[4 * slot + 1]
    &&& a[4 * slot + 2] == b[4 * slot + 2]
    &&& a[4 * slot + 3] == b[4 * slot + 3]
}

/// The plain value of a typed Scene or Performance lock. For a Performance lock `value` is the
/// depth's two's-complement byte.
pub struct MacroLockModel {
    pub track: MacroTrack,
    pub parameter: MacroParameterModel,
    pub value: u8,
}

/// The plain value of an unrecognized record kept at its slot.
pub struct UnknownMacroLockModel {
    pub slot: u8,
    pub raw: Seq<u8>,
}

/// Decodes record bytes as a Scene lock (`scene`) or a Performance lock. Scene values above
/// 127 and unknown tracks or parameters are not typed.
pub open spec fn spec_decode_record(scene: bool, value: u8, track: u8, parameter: u8) -> Option<
    MacroLockModel,
> {
    if scene && value > 127 {
        None
    } else {
        match spec_track_from_raw(track) {
            Some(t) => match spec_parameter_from_raw(t, parameter) {
                Some(p) => Some(MacroLockModel { track: t, parameter: p, value }),
                None => None,
            },
            None => None,
        }
    }
}

/// Decodes record `slot` of a table.
pub open spec fn spec_decode_slot(raw: Seq<u8>, scene: bool, slot: int) -> Option<MacroLockModel> {
    spec_decode_record(scene, rec_value(raw, slot), rec_track(raw, slot), rec_parameter(raw, slot))
}

/// The unknown-lock value of record `slot`.
pub open spec fn spec_unknown_model(raw: Seq<u8>, slot: int) -> UnknownMacroLockModel {
    UnknownMacroLockModel { slot: slot as u8, raw: raw.subrange(4 * slot, 4 * slot + 4) }
}

/// The typed locks of macro `id` among the first `n` records, in slot order.
pub open spec fn spec_macro_locks(raw: Seq<u8>, scene: bool, id: u8, n: nat) -> Seq<MacroLockModel>
    decreases n,
{
    if n == 0 {
        Seq::empty()
    } else {
        let prev = spec_macro_locks(raw, scene, id, (n - 1) as nat);
        let s = n - 1;
        if rec_id(raw, s) == id && spec_decode_slot(raw, scene, s) is Some {
            prev.push(spec_decode_slot(raw, scene, s)->0)
        } else {
            prev
        }
    }
}

/// The untyped records of macro `id` among the first `n` records, in slot order.
pub open spec fn spec_macro_unknown(raw: Seq<u8>, scene: bool, id: u8, n: nat) -> Seq<
    UnknownMacroLockModel,
>
    decreases n,
{
    if n == 0 {
        Seq::empty()
    } else {
        let prev = spec_macro_unknown(raw, scene, id, (n - 1) as nat);
        let s = n - 1;
        if rec_id(raw, s) == id && spec_decode_slot(raw, scene, s) is None {
            prev.push(spec_unknown_model(raw, s))
        } else {
            prev
        }
    }
}

/// The used records among the first `n` that belong to no macro id or cannot be typed.
pub open spec fn spec_unknown_records(raw: Seq<u8>, scene: bool, n: nat) -> Seq<UnknownMacroLockModel>
    decreases n,
{
    if n == 0 {
        Seq::empty()
    } else {
        let prev = spec_unknown_records(raw, scene, (n - 1) as nat);
        let s = n - 1;
        if rec_id(raw, s) != 0xFF && (rec_id(raw, s) >= 12 || spec_decode_slot(raw, scene, s) is None) {
            prev.push(spec_unknown_model(raw, s))
        } else {
            prev
        }
    }
}

/// The number of used records among the first `n`.
pub open spec fn spec_used_count(raw: Seq<u8>, n: nat) -> nat
    decreases n,
{
    if n == 0 {
        0
    } else {
        spec_used_count(raw, (n - 1) as nat) + if rec_id(raw, n - 1) != 0xFF { 1nat } else { 0nat }
    }
}

/// The number of free records among the first `n`.
pub open spec fn spec_free_count(raw: Seq<u8>, n: nat) -> nat
    decreases n,
{
    if n == 0 {
        0
    } else {
        spec_free_count(raw, (n - 1) as nat) + if rec_is_free(raw, n - 1) { 1nat } else { 0nat }
    }
}

/// The number of records among the first `n` that are free or belong to `id`.
pub open spec fn spec_available(raw: Seq<u8>, id: u8, n: nat) -> nat
    decreases n,
{
    if n == 0 {
        0
    } else {
        spec_available(raw, id, (n - 1) as nat) + if rec_is_free(raw, n - 1) || rec_id(raw, n - 1)
            == id {
            1nat
        } else {
            0nat
        }
    }
}

/// The first free record at or after `from`.
pub open spec fn spec_first_free(raw: Seq<u8>, from: int) -> Option<int>
    decreases 48 - from,
{
    if from >= 48 {
        None
    } else if rec_is_free(raw, from) {
        Some(from)
    } else {
        spec_first_free(raw, from + 1)
    }
}

/// The first record at or after `from` that holds `track` and `parameter` for macro `id`.
pub open spec fn spec_first_target(raw: Seq<u8>, id: u8, track: u8, parameter: u8, from: int) -> Option<
    int,
>
    decreases 48 - from,
{
    if from >= 48 {
        None
    } else if rec_id(raw, from) == id && rec_track(raw, from) == track && rec_parameter(raw, from)
        == parameter {
        Some(from)
    } else {
        spec_first_target(raw, id, track, parameter, from + 1)
    }
}

/// The table with record `slot` replaced by `[value, track, parameter, id]`.
pub open spec fn spec_write_record(
    raw: Seq<u8>,
    slot: int,
    value: u8,
    track: u8,
    parameter: u8,
    id: u8,
) -> Seq<u8> {
    raw.update(4 * slot, value).update(4 * slot + 1, track).update(4 * slot + 2, parameter).update(
        4 * slot + 3,
        id,
    )
}

/// The record that a lock for `track` and `parameter` of macro `id` is written to: the record
/// already holding that target, else the first free record.
pub open spec fn spec_set_record_slot(raw: Seq<u8>, id: u8, track: u8, parameter: u8) -> Option<int> {
    match spec_first_target(raw, id, track, parameter, 0) {
        Some(s) => Some(s),
        None => spec_first_free(raw, 0),
    }
}

/// Byte `k` of the free record `[0xFF, 0xFF, 0x00, 0xFF]`.
pub open spec fn spec_empty_record_byte(k: int) -> u8 {
    if k == 2 {
        0x00
    } else {
        0xFF
    }
}

/// The table with every record of macro `id` reset to the free record.
pub open spec fn spec_clear(raw: Seq<u8>, id: u8) -> Seq<u8> {
    Seq::new(
        raw.len(),
        |i: int|
            if rec_id(raw, i / 4) == id {
                spec_empty_record_byte(i % 4)
            } else {
                raw[i]
            },
    )
}

/// Writes `[rec.0, rec.1, rec.2, id]` to the first free record (no change when none is free).
pub open spec fn spec_place_one(raw: Seq<u8>, id: u8, rec: (u8, u8, u8)) -> Seq<u8> {
    match spec_first_free(raw, 0) {
        Some(s) => spec_write_record(raw, s, rec.0, rec.1, rec.2, id),
        None => raw,
    }
}

/// Places each record of `recs`, in order, into the first free record.
pub open spec fn spec_place_all(raw: Seq<u8>, id: u8, recs: Seq<(u8, u8, u8)>) -> Seq<u8>
    decreases recs.len(),
{
    if recs.len() == 0 {
        raw
    } else {
        spec_place_one(spec_place_all(raw, id, recs.drop_last()), id, recs.last())
    }
}

/// The target `(track, parameter)` of the first of the first `n` records whose target already
/// occurred before it.
pub open spec fn spec_first_duplicate(recs: Seq<(u8, u8, u8)>, n: nat) -> Option<(u8, u8)>
    decreases n,
{
    if n == 0 {
        None
    } else {
        match spec_first_duplicate(recs, (n - 1) as nat) {
            Some(d) => Some(d),
            None => if exists|i: int|
                0 <= i < n - 1 && (#[trigger] recs[i]).1 == recs[n - 1].1 && recs[i].2 == recs[n
                    - 1].2 {
                Some((recs[n - 1].1, recs[n - 1].2))
            } else {
                None
            },
        }
    }
}

/// The error for a macro definition that names the target `track`, `parameter` twice.
pub open spec fn spec_duplicate_target_error(track: u8, parameter: u8) -> RytmError {
    RytmError::Parameter(
        ParameterError::Compatibility {
            value: CompatibilityValue::Target(track, parameter),
            parameter_name: ParameterName::MacroLocks,
            reason: Some(CompatibilityReason::DuplicateTargets),
        },
    )
}

/// Replacing every record of macro `id` with `recs` (value, track, parameter).
pub open spec fn spec_replace_records(raw: Seq<u8>, id: u8, recs: Seq<(u8, u8, u8)>) -> Result<
    Seq<u8>,
    RytmError,
> {
    match spec_first_duplicate(recs, recs.len()) {
        Some(d) => Err(
            spec_duplicate_target_error(d.0, d.1),
        ),
        None => if recs.len() > spec_available(raw, id, 48) {
            Err(spec_macro_memory_full())
        } else {
            Ok(spec_place_all(spec_clear(raw, id), id, recs))
        },
    }
}

/// The (value, track, parameter) of the records of macro `id` among the first `n`, in slot order.
pub open spec fn spec_records_with_id(raw: Seq<u8>, id: u8, n: nat) -> Seq<(u8, u8, u8)>
    decreases n,
{
    if n == 0 {
        Seq::empty()
    } else {
        let prev = spec_records_with_id(raw, id, (n - 1) as nat);
        let s = n - 1;
        if rec_id(raw, s) == id {
            prev.push((rec_value(raw, s), rec_track(raw, s), rec_parameter(raw, s)))
        } else {
            prev
        }
    }
}

/// Copying every record of macro `source`, typed or not, to macro `target`.
pub open spec fn spec_copy_records(raw: Seq<u8>, source: u8, target: u8) -> Result<Seq<u8>, RytmError> {
    if source == target {
        Ok(raw)
    } else {
        let recs = spec_records_with_id(raw, source, 48);
        if recs.len() > spec_available(raw, target, 48) {
            Err(spec_macro_memory_full())
        } else {
            Ok(spec_place_all(spec_clear(raw, target), target, recs))
        }
    }
}

/// The table of a Kit without any lock: every record free.
pub open spec fn spec_empty_table() -> Seq<u8> {
    Seq::new(192, |i: int| spec_empty_record_byte(i % 4))
}


/// Facts about the first free record at or after `from`.
pub proof fn lemma_first_free(raw: Seq<u8>, from: int)
    requires
        0 <= from,
    ensures
        spec_first_free(raw, from) matches Some(s) ==> from <= s < 48 && rec_is_free(raw, s) && (
        forall|t: int| from <= t < s ==> !rec_is_free(raw, t)),
        spec_first_free(raw, from) is None ==> forall|t: int| from <= t < 48 ==> !rec_is_free(raw, t),
    decreases 48 - from,
{
    if from < 48 && !rec_is_free(raw, from) {
        lemma_first_free(raw, from + 1);
    }
}

/// Facts about the first record at or after `from` holding a target of macro `id`.
pub proof fn lemma_first_target(raw: Seq<u8>, id: u8, track: u8, parameter: u8, from: int)
    requires
        0 <= from,
    ensures
        spec_first_target(raw, id, track, parameter, from) matches Some(s) ==> from <= s < 48
            && rec_id(raw, s) == id && rec_track(raw, s) == track && rec_parameter(raw, s)
            == parameter,
    decreases 48 - from,
{
    if from < 48 && !(rec_id(raw, from) == id && rec_track(raw, from) == track && rec_parameter(
        raw,
        from,
    ) == parameter) {
        lemma_first_target(raw, id, track, parameter, from + 1);
    }
}

/// A positive free count means some record among the first `n` is free.
pub proof fn lemma_free_count_positive(raw: Seq<u8>, n: nat)
    requires
        spec_free_count(raw, n) > 0,
    ensures
        exists|s: int| 0 <= s < n && rec_is_free(raw, s),
    decreases n,
{
    if !rec_is_free(raw, n - 1) {
        lemma_free_count_positive(raw, (n - 1) as nat);
    }
}

/// With a free record, the first free record exists.
pub proof fn lemma_free_count_has_first_free(raw: Seq<u8>)
    requires
        spec_free_count(raw, 48) > 0,
    ensures
        spec_first_free(raw, 0) is Some,
{
    lemma_free_count_positive(raw, 48);
    lemma_first_free(raw, 0);
}

/// Every one of the first `n` records is used or free.
pub proof fn lemma_used_plus_free(raw: Seq<u8>, n: nat)
    ensures
        spec_used_count(raw, n) + spec_free_count(raw, n) == n,
    decreases n,
{
    if n > 0 {
        lemma_used_plus_free(raw, (n - 1) as nat);
    }
}

/// A free record among the first `n` is counted.
pub proof fn lemma_free_record_counted(raw: Seq<u8>, n: nat, s: int)
    requires
        0 <= s < n,
        rec_is_free(raw, s),
    ensures
        spec_free_count(raw, n) > 0,
    decreases n,
{
    if s < n - 1 {
        lemma_free_record_counted(raw, (n - 1) as nat, s);
    }
}

/// No record is free exactly when all 48 are used.
pub proof fn lemma_no_free_record_iff_full(raw: Seq<u8>)
    ensures
        spec_first_free(raw, 0) is None <==> spec_used_count(raw, 48) == 48,
{
    lemma_first_free(raw, 0);
    lemma_used_plus_free(raw, 48);
    if let Some(s) = spec_first_free(raw, 0) {
        lemma_free_record_counted(raw, 48, s);
    } else {
        if spec_free_count(raw, 48) > 0 {
            lemma_free_count_positive(raw, 48);
        }
    }
}

/// Writing a record of a real macro over a free one uses one more record; writing it over a
/// used one keeps the count.
pub proof fn lemma_used_count_write(
    raw: Seq<u8>,
    s: int,
    value: u8,
    track: u8,
    parameter: u8,
    id: u8,
    n: nat,
)
    requires
        raw.len() == 192,
        0 <= s < 48,
        id != 0xFF,
        n <= 48,
    ensures
        spec_used_count(spec_write_record(raw, s, value, track, parameter, id), n) == spec_used_count(
            raw,
            n,
        ) + (if s < n && rec_is_free(raw, s) {
            1int
        } else {
            0int
        }),
    decreases n,
{
    let w = spec_write_record(raw, s, value, track, parameter, id);
    if n > 0 {
        lemma_used_count_write(raw, s, value, track, parameter, id, (n - 1) as nat);
        if n - 1 != s {
            assert(rec_id(w, n - 1) == rec_id(raw, n - 1));
        } else {
            assert(rec_id(w, s) == id);
        }
    }
}

/// Writing a used record over a free one removes one free record.
pub proof fn lemma_free_count_write(
    raw: Seq<u8>,
    f: int,
    value: u8,
    track: u8,
    parameter: u8,
    id: u8,
    n: nat,
)
    requires
        raw.len() == 192,
        0 <= f < 48,
        n <= 48,
        rec_is_free(raw, f),
        id != 0xFF,
    ensures
        spec_free_count(spec_write_record(raw, f, value, track, parameter, id), n) == spec_free_count(
            raw,
            n,
        ) - (if f < n {
            1int
        } else {
            0int
        }),
    decreases n,
{
    let w = spec_write_record(raw, f, value, track, parameter, id);
    if n > 0 {
        lemma_free_count_write(raw, f, value, track, parameter, id, (n - 1) as nat);
        if n - 1 != f {
            assert(rec_id(w, n - 1) == rec_id(raw, n - 1));
        }
    }
}

/// Placing a record into the first free record removes one free record.
pub proof fn lemma_place_one(raw: Seq<u8>, id: u8, rec: (u8, u8, u8))
    requires
        raw.len() == 192,
        id != 0xFF,
        spec_free_count(raw, 48) > 0,
    ensures
        spec_first_free(raw, 0) is Some,
        spec_place_one(raw, id, rec).len() == 192,
        spec_free_count(spec_place_one(raw, id, rec), 48) == spec_free_count(raw, 48) - 1,
{
    lemma_free_count_has_first_free(raw);
    lemma_first_free(raw, 0);
    let f = spec_first_free(raw, 0)->0;
    lemma_free_count_write(raw, f, rec.0, rec.1, rec.2, id, 48);
}

/// Placing `recs` into a table with enough free records uses exactly that many free records.
pub proof fn lemma_place_all_free_count(raw: Seq<u8>, id: u8, recs: Seq<(u8, u8, u8)>)
    requires
        raw.len() == 192,
        id != 0xFF,
        spec_free_count(raw, 48) >= recs.len(),
    ensures
        spec_place_all(raw, id, recs).len() == 192,
        spec_free_count(spec_place_all(raw, id, recs), 48) == spec_free_count(raw, 48) - recs.len(),
    decreases recs.len(),
{
    if recs.len() > 0 {
        lemma_place_all_free_count(raw, id, recs.drop_last());
        lemma_place_one(spec_place_all(raw, id, recs.drop_last()), id, recs.last());
    }
}

/// The id byte of a cleared record.
pub proof fn lemma_clear_record(raw: Seq<u8>, id: u8, s: int)
    requires
        raw.len() == 192,
        0 <= s < 48,
    ensures
        spec_clear(raw, id).len() == 192,
        rec_id(raw, s) == id ==> rec_id(spec_clear(raw, id), s) == 0xFF && rec_value(
            spec_clear(raw, id),
            s,
        ) == 0xFF && rec_track(spec_clear(raw, id), s) == 0xFF && rec_parameter(
            spec_clear(raw, id),
            s,
        ) == 0x00,
        rec_id(raw, s) != id ==> same_record(raw, spec_clear(raw, id), s),
{
    assert((4 * s) / 4 == s && (4 * s) % 4 == 0);
    assert((4 * s + 1) / 4 == s && (4 * s + 1) % 4 == 1);
    assert((4 * s + 2) / 4 == s && (4 * s + 2) % 4 == 2);
    assert((4 * s + 3) / 4 == s && (4 * s + 3) % 4 == 3);
}

/// After clearing macro `id`, the free records are those that were free or belonged to `id`.
pub proof fn lemma_clear_free_count(raw: Seq<u8>, id: u8, n: nat)
    requires
        raw.len() == 192,
        n <= 48,
        id != 0xFF,
    ensures
        spec_free_count(spec_clear(raw, id), n) == spec_available(raw, id, n),
    decreases n,
{
    if n > 0 {
        lemma_clear_free_count(raw, id, (n - 1) as nat);
        lemma_clear_record(raw, id, n - 1);
    }
}

/// Once a duplicate target is found it stays the first one.
pub proof fn lemma_first_duplicate_stable(recs: Seq<(u8, u8, u8)>, n: nat, m: nat)
    requires
        n <= m,
        spec_first_duplicate(recs, n) is Some,
    ensures
        spec_first_duplicate(recs, m) == spec_first_duplicate(recs, n),
    decreases m - n,
{
    if n < m {
        lemma_first_duplicate_stable(recs, n, (m - 1) as nat);
    }
}

fn first_free_slot(raw: &[u8; 192]) -> (r: Option<usize>)
    ensures
        r matches Some(s) ==> s < 48 && spec_first_free(raw@, 0) == Some(s as int),
        r is None ==> spec_first_free(raw@, 0) is None,
{
    let mut slot: usize = 0;
    while slot < 48
        invariant
            slot <= 48,
            spec_first_free(raw@, 0) == spec_first_free(raw@, slot as int),
        decreases 48 - slot,
    {
        if raw[4 * slot + 3] == 0xFF {
            return Some(slot);
        }
        slot += 1;
    }
    None
}

fn first_target_slot(raw: &[u8; 192], id: u8, track: u8, parameter: u8) -> (r: Option<usize>)
    ensures
        r matches Some(s) ==> s < 48 && spec_first_target(raw@, id, track, parameter, 0) == Some(
            s as int,
        ),
        r is None ==> spec_first_target(raw@, id, track, parameter, 0) is None,
{
    let mut slot: usize = 0;
    while slot < 48
        invariant
            slot <= 48,
            spec_first_target(raw@, id, track, parameter, 0) == spec_first_target(
                raw@,
                id,
                track,
                parameter,
                slot as int,
            ),
        decreases 48 - slot,
    {
        if raw[4 * slot + 3] == id && raw[4 * slot + 1] == track && raw[4 * slot + 2] == parameter {
            return Some(slot);
        }
        slot += 1;
    }
    None
}

fn write_record(raw: &mut [u8; 192], slot: usize, value: u8, track: u8, parameter: u8, id: u8)
    requires
        slot < 48,
    ensures
        final(raw)@ == spec_write_record(old(raw)@, slot as int, value, track, parameter, id),
{
    raw[4 * slot] = value;
    raw[4 * slot + 1] = track;
    raw[4 * slot + 2] = parameter;
    raw[4 * slot + 3] = id;
}

/// Writes `[value, track, parameter, id]` to the record already holding that target of macro
/// `id`, else to the first free record.
pub fn set_record(raw: &mut [u8; 192], id: u8, track: u8, parameter: u8, value: u8) -> (r: Result<
    (),
    RytmError,
>)
    ensures
        spec_set_record_slot(old(raw)@, id, track, parameter) matches Some(s) ==> r is Ok
            && final(raw)@ == spec_write_record(old(raw)@, s, value, track, parameter, id),
        spec_set_record_slot(old(raw)@, id, track, parameter) is None ==> r == Err::<(), RytmError>(
            spec_macro_memory_full(),
        ) && final(raw)@ == old(raw)@,
{
    if let Some(slot) = first_target_slot(raw, id, track, parameter) {
        write_record(raw, slot, value, track, parameter, id);
        return Ok(());
    }
    match first_free_slot(raw) {
        Some(slot) => {
            write_record(raw, slot, value, track, parameter, id);
            Ok(())
        },
        None => Err(RytmError::Custom(CustomError::KitMacroLockMemoryFull)),
    }
}

/// Resets every record of macro `id` to the free record.
pub fn clear_records(raw: &mut [u8; 192], id: u8)
    ensures
        final(raw)@ == spec_clear(old(raw)@, id),
{
    let ghost orig = raw@;
    let mut slot: usize = 0;
    while slot < 48
        invariant
            slot <= 48,
            orig.len() == 192,
            forall|i: int|
                0 <= i < 192 ==> #[trigger] raw@[i] == (if i / 4 < slot && rec_id(orig, i / 4)
                    == id {
                    spec_empty_record_byte(i % 4)
                } else {
                    orig[i]
                }),
        decreases 48 - slot,
    {
        assert(raw@[4 * slot + 3] == orig[4 * slot + 3]);
        if raw[4 * slot + 3] == id {
            raw[4 * slot] = 0xFF;
            raw[4 * slot + 1] = 0xFF;
            raw[4 * slot + 2] = 0x00;
            raw[4 * slot + 3] = 0xFF;
        }
        slot += 1;
    }
    assert(raw@ =~= spec_clear(orig, id));
}

/// Counts the records that are free or belong to macro `id`.
pub fn available_records(raw: &[u8; 192], id: u8) -> (r: usize)
    ensures
        r == spec_available(raw@, id, 48),
{
    let mut count: usize = 0;
    let mut slot: usize = 0;
    while slot < 48
        invariant
            slot <= 48,
            count == spec_available(raw@, id, slot as nat),
            count <= slot,
        decreases 48 - slot,
    {
        if raw[4 * slot + 3] == 0xFF || raw[4 * slot + 3] == id {
            count += 1;
        }
        slot += 1;
    }
    count
}

/// Counts the used records.
pub fn used_record_count(raw: &[u8; 192]) -> (r: usize)
    ensures
        r == spec_used_count(raw@, 48),
{
    let mut count: usize = 0;
    let mut slot: usize = 0;
    while slot < 48
        invariant
            slot <= 48,
            count == spec_used_count(raw@, slot as nat),
            count <= slot,
        decreases 48 - slot,
    {
        if raw[4 * slot + 3] != 0xFF {
            count += 1;
        }
        slot += 1;
    }
    count
}

/// The target of the first record whose target already occurred before it.
pub fn first_duplicate(recs: &Vec<(u8, u8, u8)>) -> (r: Option<(u8, u8)>)
    ensures
        r == spec_first_duplicate(recs@, recs@.len()),
{
    let mut j: usize = 0;
    while j < recs.len()
        invariant
            j <= recs@.len(),
            spec_first_duplicate(recs@, j as nat) is None,
        decreases recs@.len() - j,
    {
        let mut i: usize = 0;
        while i < j
            invariant
                i <= j < recs@.len(),
                spec_first_duplicate(recs@, j as nat) is None,
                forall|k: int|
                    0 <= k < i ==> !((#[trigger] recs@[k]).1 == recs@[j as int].1 && recs@[k].2
                        == recs@[j as int].2),
            decreases j - i,
        {
            if recs[i].1 == recs[j].1 && recs[i].2 == recs[j].2 {
                proof {
                    assert(recs@[i as int].1 == recs@[j as int].1);
                    assert(spec_first_duplicate(recs@, (j + 1) as nat) == Some(
                        (recs@[j as int].1, recs@[j as int].2),
                    ));
                    lemma_first_duplicate_stable(recs@, (j + 1) as nat, recs@.len());
                }
                return Some((recs[j].1, recs[j].2));
            }
            i += 1;
        }
        assert(spec_first_duplicate(recs@, (j + 1) as nat) is None);
        j += 1;
    }
    None
}

/// Places each record of `recs`, in order, into the first free record.
pub fn place_records(raw: &mut [u8; 192], id: u8, recs: &Vec<(u8, u8, u8)>)
    requires
        id != 0xFF,
        spec_free_count(old(raw)@, 48) >= recs@.len(),
    ensures
        final(raw)@ == spec_place_all(old(raw)@, id, recs@),
{
    let ghost orig = raw@;
    let mut k: usize = 0;
    assert(recs@.take(0) =~= Seq::<(u8, u8, u8)>::empty());
    while k < recs.len()
        invariant
            k <= recs@.len(),
            id != 0xFF,
            orig.len() == 192,
            spec_free_count(orig, 48) >= recs@.len(),
            raw@ == spec_place_all(orig, id, recs@.take(k as int)),
            spec_free_count(raw@, 48) == spec_free_count(orig, 48) - k,
        decreases recs@.len() - k,
    {
        let ghost before = raw@;
        proof {
            lemma_place_one(before, id, recs@[k as int]);
            assert(recs@.take(k + 1).drop_last() =~= recs@.take(k as int));
        }
        let rec = recs[k];
        match first_free_slot(raw) {
            Some(slot) => {
                proof {
                    lemma_first_free(before, 0);
                }
                write_record(raw, slot, rec.0, rec.1, rec.2, id);
            },
            None => {
                proof {
                    assert(false);
                }
            },
        }
        k += 1;
    }
    assert(recs@.take(recs@.len() as int) =~= recs@);
}

/// Replaces every record of macro `id` with `recs` (value, track, parameter).
pub fn replace_records(raw: &mut [u8; 192], id: u8, recs: &Vec<(u8, u8, u8)>) -> (r: Result<
    (),
    RytmError,
>)
    requires
        id != 0xFF,
    ensures
        spec_replace_records(old(raw)@, id, recs@) matches Ok(new_raw) ==> r is Ok && final(raw)@
            == new_raw,
        spec_replace_records(old(raw)@, id, recs@) matches Err(e) ==> r == Err::<(), RytmError>(e)
            && final(raw)@ == old(raw)@,
{
    if let Some((track, parameter)) = first_duplicate(recs) {
        return Err(
            RytmError::Parameter(
                ParameterError::Compatibility {
                    value: CompatibilityValue::Target(track, parameter),
                    parameter_name: ParameterName::MacroLocks,
                    reason: Some(CompatibilityReason::DuplicateTargets),
                },
            ),
        );
    }
    let available = available_records(raw, id);
    if recs.len() > available {
        return Err(RytmError::Custom(CustomError::KitMacroLockMemoryFull));
    }
    let ghost orig = raw@;
    clear_records(raw, id);
    proof {
        lemma_clear_free_count(orig, id, 48);
    }
    place_records(raw, id, recs);
    Ok(())
}

/// The (value, track, parameter) of the records of macro `id`, in slot order.
pub fn records_with_id(raw: &[u8; 192], id: u8) -> (r: Vec<(u8, u8, u8)>)
    ensures
        r@ == spec_records_with_id(raw@, id, 48),
{
    let mut recs: Vec<(u8, u8, u8)> = Vec::new();
    let mut slot: usize = 0;
    while slot < 48
        invariant
            slot <= 48,
            recs@ == spec_records_with_id(raw@, id, slot as nat),
        decreases 48 - slot,
    {
        if raw[4 * slot + 3] == id {
            recs.push((raw[4 * slot], raw[4 * slot + 1], raw[4 * slot + 2]));
        }
        slot += 1;
    }
    recs
}

/// Copies every record of macro `source`, typed or not, to macro `target`.
pub fn copy_records(raw: &mut [u8; 192], source: u8, target: u8) -> (r: Result<(), RytmError>)
    requires
        target != 0xFF,
    ensures
        spec_copy_records(old(raw)@, source, target) matches Ok(new_raw) ==> r is Ok
            && final(raw)@ == new_raw,
        spec_copy_records(old(raw)@, source, target) matches Err(e) ==> r == Err::<(), RytmError>(e)
            && final(raw)@ == old(raw)@,
{
    if source == target {
        return Ok(());
    }
    let recs = records_with_id(raw, source);
    let available = available_records(raw, target);
    if recs.len() > available {
        return Err(RytmError::Custom(CustomError::KitMacroLockMemoryFull));
    }
    let ghost orig = raw@;
    clear_records(raw, target);
    proof {
        lemma_clear_free_count(orig, target, 48);
    }
    place_records(raw, target, &recs);
    Ok(())
}

/// The typed locks that `recs` (value, track, parameter) decode to, in order.
pub open spec fn spec_decoded_records(scene: bool, recs: Seq<(u8, u8, u8)>) -> Seq<MacroLockModel>
    decreases recs.len(),
{
    if recs.len() == 0 {
        Seq::empty()
    } else {
        let prev = spec_decoded_records(scene, recs.drop_last());
        let r = recs.last();
        match spec_decode_record(scene, r.0, r.1, r.2) {
            Some(lock) => prev.push(lock),
            None => prev,
        }
    }
}

/// The number of records of `recs` that cannot be typed.
pub open spec fn spec_undecodable_count(scene: bool, recs: Seq<(u8, u8, u8)>) -> nat
    decreases recs.len(),
{
    if recs.len() == 0 {
        0
    } else {
        let r = recs.last();
        spec_undecodable_count(scene, recs.drop_last()) + if spec_decode_record(
            scene,
            r.0,
            r.1,
            r.2,
        ) is None {
            1nat
        } else {
            0nat
        }
    }
}

/// No record belongs to macro `id`.
pub open spec fn spec_no_record_of(raw: Seq<u8>, id: u8) -> bool {
    forall|s: int| 0 <= s < 48 ==> rec_id(raw, s) != id
}

/// Every record of macro `id` lies before every free record.
pub open spec fn spec_records_before_free(raw: Seq<u8>, id: u8) -> bool {
    forall|s: int, t: int| 0 <= t < s < 48 && rec_id(raw, s) == id ==> !rec_is_free(raw, t)
}

/// Tables that agree on every record of macro `id` hold the same definition of it.
pub proof fn lemma_lists_agree(a: Seq<u8>, b: Seq<u8>, scene: bool, id: u8, n: nat)
    requires
        a.len() == 192,
        b.len() == 192,
        n <= 48,
        forall|s: int|
            0 <= s < n && (rec_id(a, s) == id || rec_id(b, s) == id) ==> same_record(a, b, s),
    ensures
        spec_macro_locks(a, scene, id, n) == spec_macro_locks(b, scene, id, n),
        spec_macro_unknown(a, scene, id, n) == spec_macro_unknown(b, scene, id, n),
    decreases n,
{
    if n > 0 {
        lemma_lists_agree(a, b, scene, id, (n - 1) as nat);
        let s = n - 1;
        if rec_id(a, s) == id || rec_id(b, s) == id {
            assert(a.subrange(4 * s, 4 * s + 4) =~= b.subrange(4 * s, 4 * s + 4));
        }
    }
}

/// Records that do not belong to `id` add nothing to its definition.
pub proof fn lemma_lists_tail(raw: Seq<u8>, scene: bool, id: u8, m: nat, n: nat)
    requires
        m <= n <= 48,
        forall|s: int| m <= s < n ==> rec_id(raw, s) != id,
    ensures
        spec_macro_locks(raw, scene, id, n) == spec_macro_locks(raw, scene, id, m),
        spec_macro_unknown(raw, scene, id, n) == spec_macro_unknown(raw, scene, id, m),
    decreases n,
{
    if n > m {
        lemma_lists_tail(raw, scene, id, m, (n - 1) as nat);
    }
}

/// Placing one record of macro `id` appends its lock to the definition and leaves every other
/// macro's definition unchanged.
pub proof fn lemma_place_one_lists(raw: Seq<u8>, scene: bool, id: u8, rec: (u8, u8, u8))
    requires
        raw.len() == 192,
        id != 0xFF,
        spec_free_count(raw, 48) > 0,
        spec_records_before_free(raw, id),
    ensures
        ({
            let w = spec_place_one(raw, id, rec);
            let d = spec_decode_record(scene, rec.0, rec.1, rec.2);
            &&& w.len() == 192
            &&& spec_records_before_free(w, id)
            &&& spec_macro_locks(w, scene, id, 48) == (match d {
                Some(lock) => spec_macro_locks(raw, scene, id, 48).push(lock),
                None => spec_macro_locks(raw, scene, id, 48),
            })
            &&& spec_macro_unknown(w, scene, id, 48).len() == spec_macro_unknown(
                raw,
                scene,
                id,
                48,
            ).len() + if d is None {
                1int
            } else {
                0int
            }
            &&& forall|other: u8|
                other != id && other != 0xFF ==> spec_macro_locks(w, scene, other, 48)
                    == spec_macro_locks(raw, scene, other, 48) && spec_macro_unknown(
                    w,
                    scene,
                    other,
                    48,
                ) == spec_macro_unknown(raw, scene, other, 48)
        }),
{
    lemma_free_count_has_first_free(raw);
    lemma_first_free(raw, 0);
    let f = spec_first_free(raw, 0)->0;
    let w = spec_write_record(raw, f, rec.0, rec.1, rec.2, id);
    assert(spec_place_one(raw, id, rec) == w);
    assert forall|s: int| 0 <= s < 48 && s != f implies same_record(raw, w, s) by {}
    assert(rec_id(w, f) == id && rec_value(w, f) == rec.0 && rec_track(w, f) == rec.1
        && rec_parameter(w, f) == rec.2);
    // every record of `id` lies before the first free record
    assert forall|s: int| 0 <= s < 48 && rec_id(raw, s) == id implies s < f by {
        if s > f {
            assert(!rec_is_free(raw, f));
        }
    }
    lemma_lists_agree(raw, w, scene, id, f as nat);
    assert forall|s: int| f + 1 <= s < 48 implies rec_id(w, s) != id by {
        assert(w[4 * s + 3] == raw[4 * s + 3]);
        if rec_id(raw, s) == id {
            assert(!rec_is_free(raw, f));
        }
    }
    lemma_lists_tail(w, scene, id, (f + 1) as nat, 48);
    lemma_lists_tail(raw, scene, id, f as nat, 48);
    assert(spec_decode_slot(w, scene, f) == spec_decode_record(scene, rec.0, rec.1, rec.2));
    assert(w.subrange(4 * f, 4 * f + 4).len() == 4);
    assert forall|s: int, t: int|
        0 <= t < s < 48 && rec_id(w, s) == id implies !rec_is_free(w, t) by {
        if s != f {
            assert(w[4 * s + 3] == raw[4 * s + 3]);
            assert(rec_id(raw, s) == id);
        }
        if t != f {
            assert(w[4 * t + 3] == raw[4 * t + 3]);
            assert(!rec_is_free(raw, t));
            assert(!rec_is_free(w, t));
        } else {
            assert(rec_id(w, f) == id);
        }
    }
    assert forall|other: u8|
        other != id && other != 0xFF implies spec_macro_locks(w, scene, other, 48)
        == spec_macro_locks(raw, scene, other, 48) && spec_macro_unknown(w, scene, other, 48)
        == spec_macro_unknown(raw, scene, other, 48) by {
        lemma_lists_agree(raw, w, scene, other, 48);
    }
}

/// Placing `recs` for macro `id` into a table without records of `id` makes its definition
/// the decoded `recs`, and leaves every other macro's definition unchanged.
pub proof fn lemma_place_all_lists(raw: Seq<u8>, scene: bool, id: u8, recs: Seq<(u8, u8, u8)>)
    requires
        raw.len() == 192,
        id != 0xFF,
        spec_free_count(raw, 48) >= recs.len(),
        spec_no_record_of(raw, id),
    ensures
        ({
            let w = spec_place_all(raw, id, recs);
            &&& w.len() == 192
            &&& spec_records_before_free(w, id)
            &&& spec_free_count(w, 48) == spec_free_count(raw, 48) - recs.len()
            &&& spec_macro_locks(w, scene, id, 48) == spec_decoded_records(scene, recs)
            &&& spec_macro_unknown(w, scene, id, 48).len() == spec_undecodable_count(scene, recs)
            &&& forall|other: u8|
                other != id && other != 0xFF ==> spec_macro_locks(w, scene, other, 48)
                    == spec_macro_locks(raw, scene, other, 48) && spec_macro_unknown(
                    w,
                    scene,
                    other,
                    48,
                ) == spec_macro_unknown(raw, scene, other, 48)
        }),
    decreases recs.len(),
{
    if recs.len() == 0 {
        lemma_lists_tail(raw, scene, id, 0, 48);
    } else {
        let prev = spec_place_all(raw, id, recs.drop_last());
        lemma_place_all_lists(raw, scene, id, recs.drop_last());
        lemma_place_all_free_count(raw, id, recs.drop_last());
        lemma_place_one_lists(prev, scene, id, recs.last());
        lemma_place_one(prev, id, recs.last());
    }
}

/// Clearing macro `id` leaves no record of it and every other macro's definition unchanged.
pub proof fn lemma_clear_lists(raw: Seq<u8>, scene: bool, id: u8)
    requires
        raw.len() == 192,
        id != 0xFF,
    ensures
        spec_clear(raw, id).len() == 192,
        spec_no_record_of(spec_clear(raw, id), id),
        spec_macro_locks(spec_clear(raw, id), scene, id, 48) == Seq::<MacroLockModel>::empty(),
        spec_macro_unknown(spec_clear(raw, id), scene, id, 48) == Seq::<
            UnknownMacroLockModel,
        >::empty(),
        forall|other: u8|
            other != id && other != 0xFF ==> spec_macro_locks(spec_clear(raw, id), scene, other, 48)
                == spec_macro_locks(raw, scene, other, 48) && spec_macro_unknown(
                spec_clear(raw, id),
                scene,
                other,
                48,
            ) == spec_macro_unknown(raw, scene, other, 48),
{
    let c = spec_clear(raw, id);
    assert forall|s: int| 0 <= s < 48 implies rec_id(c, s) != id by {
        lemma_clear_record(raw, id, s);
    }
    lemma_lists_tail(c, scene, id, 0, 48);
    assert forall|other: u8|
        other != id && other != 0xFF implies spec_macro_locks(c, scene, other, 48)
        == spec_macro_locks(raw, scene, other, 48) && spec_macro_unknown(c, scene, other, 48)
        == spec_macro_unknown(raw, scene, other, 48) by {
        assert forall|s: int|
            0 <= s < 48 && (rec_id(raw, s) == other || rec_id(c, s) == other) implies same_record(
            raw,
            c,
            s,
        ) by {
            lemma_clear_record(raw, id, s);
        }
        lemma_lists_agree(raw, c, scene, other, 48);
    }
}

/// The records of macro `id` decode to its definition.
pub proof fn lemma_records_with_id_decode(raw: Seq<u8>, scene: bool, id: u8, n: nat)
    ensures
        spec_decoded_records(scene, spec_records_with_id(raw, id, n)) == spec_macro_locks(
            raw,
            scene,
            id,
            n,
        ),
        spec_undecodable_count(scene, spec_records_with_id(raw, id, n)) == spec_macro_unknown(
            raw,
            scene,
            id,
            n,
        ).len(),
    decreases n,
{
    if n > 0 {
        lemma_records_with_id_decode(raw, scene, id, (n - 1) as nat);
        let s = n - 1;
        if rec_id(raw, s) == id {
            let prev = spec_records_with_id(raw, id, (n - 1) as nat);
            let rec = (rec_value(raw, s), rec_track(raw, s), rec_parameter(raw, s));
            assert(prev.push(rec).drop_last() =~= prev);
        }
    }
}

/// Law: replacing the records of macro `id` with `recs` makes its definition exactly the
/// decoded `recs` and leaves every other macro's definition unchanged.
pub proof fn lemma_replace_records_lists(raw: Seq<u8>, scene: bool, id: u8, recs: Seq<(u8, u8, u8)>)
    requires
        raw.len() == 192,
        id != 0xFF,
        spec_replace_records(raw, id, recs) is Ok,
    ensures
        ({
            let w = spec_replace_records(raw, id, recs)->Ok_0;
            &&& w.len() == 192
            &&& spec_macro_locks(w, scene, id, 48) == spec_decoded_records(scene, recs)
            &&& spec_macro_unknown(w, scene, id, 48).len() == spec_undecodable_count(scene, recs)
            &&& forall|other: u8|
                other != id && other != 0xFF ==> spec_macro_locks(w, scene, other, 48)
                    == spec_macro_locks(raw, scene, other, 48) && spec_macro_unknown(
                    w,
                    scene,
                    other,
                    48,
                ) == spec_macro_unknown(raw, scene, other, 48)
        }),
{
    let c = spec_clear(raw, id);
    lemma_clear_lists(raw, scene, id);
    lemma_clear_free_count(raw, id, 48);
    lemma_place_all_lists(c, scene, id, recs);
}

/// Law: copying macro `source` to `target` gives `target` the typed locks of `source`, as many
/// untyped records as `source` has, and leaves every other macro's definition unchanged.
pub proof fn lemma_copy_records_lists(raw: Seq<u8>, scene: bool, source: u8, target: u8)
    requires
        raw.len() == 192,
        target != 0xFF,
        source != 0xFF,
        spec_copy_records(raw, source, target) is Ok,
    ensures
        ({
            let w = spec_copy_records(raw, source, target)->Ok_0;
            &&& w.len() == 192
            &&& spec_macro_locks(w, scene, target, 48) == spec_macro_locks(raw, scene, source, 48)
            &&& spec_macro_unknown(w, scene, target, 48).len() == spec_macro_unknown(
                raw,
                scene,
                source,
                48,
            ).len()
            &&& forall|other: u8|
                other != target && other != 0xFF ==> spec_macro_locks(w, scene, other, 48)
                    == spec_macro_locks(raw, scene, other, 48) && spec_macro_unknown(
                    w,
                    scene,
                    other,
                    48,
                ) == spec_macro_unknown(raw, scene, other, 48)
        }),
{
    if source != target {
        let recs = spec_records_with_id(raw, source, 48);
        lemma_records_with_id_decode(raw, scene, source, 48);
        let c = spec_clear(raw, target);
        lemma_clear_lists(raw, scene, target);
        lemma_clear_free_count(raw, target, 48);
        lemma_place_all_lists(c, scene, target, recs);
    }
}

/// A typed record of macro `id` contributes its lock to the definition.
pub proof fn lemma_macro_locks_contains(raw: Seq<u8>, scene: bool, id: u8, s: int, n: nat)
    requires
        0 <= s < n,
        rec_id(raw, s) == id,
        spec_decode_slot(raw, scene, s) is Some,
    ensures
        spec_macro_locks(raw, scene, id, n).contains(spec_decode_slot(raw, scene, s)->0),
    decreases n,
{
    let x = spec_decode_slot(raw, scene, s)->0;
    if s < n - 1 {
        lemma_macro_locks_contains(raw, scene, id, s, (n - 1) as nat);
        let prev = spec_macro_locks(raw, scene, id, (n - 1) as nat);
        let i = choose|i: int| 0 <= i < prev.len() && prev[i] == x;
        if rec_id(raw, n - 1) == id && spec_decode_slot(raw, scene, n - 1) is Some {
            assert(prev.push(spec_decode_slot(raw, scene, n - 1)->0)[i] == x);
        }
    } else {
        let prev = spec_macro_locks(raw, scene, id, (n - 1) as nat);
        assert(prev.push(x)[prev.len() as int] == x);
    }
}

/// Law: writing a typed record of macro `id` to a record that was free or already belonged to
/// `id` puts its lock into the definition of `id` and leaves every other macro's definition
/// unchanged.
pub proof fn lemma_write_record_lists(
    raw: Seq<u8>,
    scene: bool,
    s: int,
    value: u8,
    track: u8,
    parameter: u8,
    id: u8,
)
    requires
        raw.len() == 192,
        0 <= s < 48,
        id != 0xFF,
        rec_id(raw, s) == id || rec_is_free(raw, s),
        spec_decode_record(scene, value, track, parameter) is Some,
    ensures
        ({
            let w = spec_write_record(raw, s, value, track, parameter, id);
            &&& spec_macro_locks(w, scene, id, 48).contains(
                spec_decode_record(scene, value, track, parameter)->0,
            )
            &&& forall|other: u8|
                other != id && other != 0xFF ==> spec_macro_locks(w, scene, other, 48)
                    == spec_macro_locks(raw, scene, other, 48) && spec_macro_unknown(
                    w,
                    scene,
                    other,
                    48,
                ) == spec_macro_unknown(raw, scene, other, 48)
        }),
{
    let w = spec_write_record(raw, s, value, track, parameter, id);
    assert(rec_id(w, s) == id && rec_value(w, s) == value && rec_track(w, s) == track
        && rec_parameter(w, s) == parameter);
    lemma_macro_locks_contains(w, scene, id, s, 48);
    assert forall|other: u8|
        other != id && other != 0xFF implies spec_macro_locks(w, scene, other, 48)
        == spec_macro_locks(raw, scene, other, 48) && spec_macro_unknown(w, scene, other, 48)
        == spec_macro_unknown(raw, scene, other, 48) by {
        assert forall|t: int|
            0 <= t < 48 && (rec_id(raw, t) == other || rec_id(w, t) == other) implies same_record(
            raw,
            w,
            t,
        ) by {
            if t != s {
                assert(w[4 * t] == raw[4 * t]);
                assert(w[4 * t + 1] == raw[4 * t + 1]);
                assert(w[4 * t + 2] == raw[4 * t + 2]);
                assert(w[4 * t + 3] == raw[4 * t + 3]);
            }
        }
        lemma_lists_agree(raw, w, scene, other, 48);
    }
}

/// Clearing a macro twice is clearing it once.
pub proof fn lemma_clear_idempotent(raw: Seq<u8>, id: u8)
    requires
        raw.len() == 192,
    ensures
        spec_clear(spec_clear(raw, id), id) == spec_clear(raw, id),
{
    let once = spec_clear(raw, id);
    let twice = spec_clear(once, id);
    assert forall|i: int| 0 <= i < 192 implies twice[i] == once[i] by {
        let r = i / 4;
        let j = 4 * r + 3;
        assert(0 <= j < 192 && j / 4 == r && j % 4 == 3);
        assert(rec_id(once, r) == once[j]);
        if rec_id(raw, r) == id {
            assert(once[j] == 0xFF);
        } else {
            assert(once[j] == raw[j]);
        }
    }
    assert(twice =~= once);
}

/// The number of records among the first `n` that belong to macro `id`.
pub open spec fn spec_id_count(raw: Seq<u8>, id: u8, n: nat) -> nat
    decreases n,
{
    if n == 0 {
        0
    } else {
        spec_id_count(raw, id, (n - 1) as nat) + if rec_id(raw, n - 1) == id {
            1nat
        } else {
            0nat
        }
    }
}

/// A definition's typed and untyped locks together are its records: as many as the records
/// whose id byte is its id.
pub proof fn lemma_definition_counts_records(raw: Seq<u8>, scene: bool, id: u8, n: nat)
    ensures
        spec_macro_locks(raw, scene, id, n).len() + spec_macro_unknown(raw, scene, id, n).len()
            == spec_id_count(raw, id, n),
    decreases n,
{
    if n > 0 {
        lemma_definition_counts_records(raw, scene, id, (n - 1) as nat);
    }
}

/// Whether `u` is record `u.slot` of `raw`, one of the first `n`.
pub open spec fn spec_is_record_at_slot(raw: Seq<u8>, u: UnknownMacroLockModel, n: nat) -> bool {
    u.slot < n && u.raw == raw.subrange(4 * u.slot, 4 * u.slot + 4)
}

/// The unknown-lock value of a record is that record.
proof fn lemma_unknown_model_is_record(raw: Seq<u8>, s: int, n: nat)
    requires
        raw.len() == 192,
        0 <= s < n <= 48,
    ensures
        spec_is_record_at_slot(raw, spec_unknown_model(raw, s), n),
        spec_unknown_model(raw, s).slot == s,
        spec_unknown_model(raw, s).raw[3] == rec_id(raw, s),
{
    let u = spec_unknown_model(raw, s);
    assert(u.slot == s);
}

/// Each untyped record of a definition is the record at its slot, in ascending slot order, and
/// carries the definition's id.
pub proof fn lemma_definition_unknown_records(raw: Seq<u8>, scene: bool, id: u8, n: nat)
    requires
        raw.len() == 192,
        n <= 48,
    ensures
        forall|k: int|
            0 <= k < spec_macro_unknown(raw, scene, id, n).len() ==> spec_is_record_at_slot(
                raw,
                #[trigger] spec_macro_unknown(raw, scene, id, n)[k],
                n,
            ) && spec_macro_unknown(raw, scene, id, n)[k].raw[3] == id,
        forall|a: int, b: int|
            0 <= a < b < spec_macro_unknown(raw, scene, id, n).len() ==> #[trigger] spec_macro_unknown(
                raw,
                scene,
                id,
                n,
            )[a].slot < #[trigger] spec_macro_unknown(raw, scene, id, n)[b].slot,
    decreases n,
{
    if n > 0 {
        let m = (n - 1) as nat;
        let s = n - 1;
        lemma_definition_unknown_records(raw, scene, id, m);
        lemma_unknown_model_is_record(raw, s, n);
        let prev = spec_macro_unknown(raw, scene, id, m);
        let cur = spec_macro_unknown(raw, scene, id, n);
        assert forall|k: int| 0 <= k < cur.len() implies spec_is_record_at_slot(raw, #[trigger] cur[k], n)
            && cur[k].raw[3] == id by {
            if k < prev.len() {
                assert(cur[k] == prev[k]);
                assert(spec_is_record_at_slot(raw, prev[k], m));
            }
        }
        assert forall|a: int, b: int| 0 <= a < b < cur.len() implies #[trigger] cur[a].slot
            < #[trigger] cur[b].slot by {
            assert(cur[a] == prev[a]);
            assert(spec_is_record_at_slot(raw, prev[a], m));
            if b < prev.len() {
                assert(cur[b] == prev[b]);
            }
        }
    }
}

/// Each record of the table-wide unknown list is the record at its slot, in ascending slot
/// order, and is used; every used record whose id byte names no macro is in the list.
pub proof fn lemma_unknown_records_are_records(raw: Seq<u8>, scene: bool, n: nat)
    requires
        raw.len() == 192,
        n <= 48,
    ensures
        forall|k: int|
            0 <= k < spec_unknown_records(raw, scene, n).len() ==> spec_is_record_at_slot(
                raw,
                #[trigger] spec_unknown_records(raw, scene, n)[k],
                n,
            ) && spec_unknown_records(raw, scene, n)[k].raw[3] != 0xFF,
        forall|a: int, b: int|
            0 <= a < b < spec_unknown_records(raw, scene, n).len() ==> #[trigger] spec_unknown_records(
                raw,
                scene,
                n,
            )[a].slot < #[trigger] spec_unknown_records(raw, scene, n)[b].slot,
        forall|s: int|
            0 <= s < n && 12 <= #[trigger] rec_id(raw, s) < 0xFF ==> exists|k: int|
                0 <= k < spec_unknown_records(raw, scene, n).len() && #[trigger] spec_unknown_records(
                    raw,
                    scene,
                    n,
                )[k].slot == s,
    decreases n,
{
    if n > 0 {
        let m = (n - 1) as nat;
        let s = n - 1;
        lemma_unknown_records_are_records(raw, scene, m);
        lemma_unknown_model_is_record(raw, s, n);
        let prev = spec_unknown_records(raw, scene, m);
        let cur = spec_unknown_records(raw, scene, n);
        assert forall|k: int| 0 <= k < cur.len() implies spec_is_record_at_slot(raw, #[trigger] cur[k], n)
            && cur[k].raw[3] != 0xFF by {
            if k < prev.len() {
                assert(cur[k] == prev[k]);
                assert(spec_is_record_at_slot(raw, prev[k], m));
            }
        }
        assert forall|a: int, b: int| 0 <= a < b < cur.len() implies #[trigger] cur[a].slot
            < #[trigger] cur[b].slot by {
            assert(cur[a] == prev[a]);
            assert(spec_is_record_at_slot(raw, prev[a], m));
            if b < prev.len() {
                assert(cur[b] == prev[b]);
            }
        }
        assert forall|t: int| 0 <= t < n && 12 <= #[trigger] rec_id(raw, t) < 0xFF implies exists|
            k: int,
        | 0 <= k < cur.len() && #[trigger] cur[k].slot == t by {
            if t < s {
                let k = choose|k: int| 0 <= k < prev.len() && #[trigger] prev[k].slot == t;
                assert(cur[k] == prev[k]);
            } else {
                assert(cur[prev.len() as int] == spec_unknown_model(raw, s));
            }
        }
    }
}

/// The entries of `list` whose id byte is `id`, in order.
pub open spec fn spec_unknown_with_id(list: Seq<UnknownMacroLockModel>, id: u8) -> Seq<
    UnknownMacroLockModel,
>
    decreases list.len(),
{
    if list.len() == 0 {
        Seq::empty()
    } else {
        let prev = spec_unknown_with_id(list.drop_last(), id);
        if list.last().raw[3] == id {
            prev.push(list.last())
        } else {
            prev
        }
    }
}

/// Law: the table-wide unknown list, filtered by a macro id, is that macro's list of untyped
/// records.
pub proof fn lemma_unknown_records_by_id(raw: Seq<u8>, scene: bool, id: u8, n: nat)
    requires
        raw.len() == 192,
        n <= 48,
        id < 12,
    ensures
        spec_unknown_with_id(spec_unknown_records(raw, scene, n), id) == spec_macro_unknown(
            raw,
            scene,
            id,
            n,
        ),
    decreases n,
{
    if n > 0 {
        let m = (n - 1) as nat;
        let s = n - 1;
        lemma_unknown_records_by_id(raw, scene, id, m);
        lemma_unknown_model_is_record(raw, s, n);
        let prev = spec_unknown_records(raw, scene, m);
        let cur = spec_unknown_records(raw, scene, n);
        if cur.len() > prev.len() {
            assert(cur.drop_last() =~= prev);
            assert(cur.last() == spec_unknown_model(raw, s));
        }
    }
}

/// The first duplicate target among the first `n` records is none exactly when no two of them
/// share both track and parameter, and a found duplicate is shared by two of them.
pub proof fn lemma_first_duplicate_finds_shared_targets(recs: Seq<(u8, u8, u8)>, n: nat)
    requires
        n <= recs.len(),
    ensures
        spec_first_duplicate(recs, n) is None <==> forall|i: int, j: int|
            0 <= i < j < n ==> !(recs[i].1 == recs[j].1 && recs[i].2 == recs[j].2),
        spec_first_duplicate(recs, n) matches Some(d) ==> exists|i: int, j: int|
            0 <= i < j < n && recs[i].1 == d.0 && recs[j].1 == d.0 && recs[i].2 == d.1 && recs[j].2
                == d.1,
    decreases n,
{
    if n > 0 {
        let m = (n - 1) as nat;
        lemma_first_duplicate_finds_shared_targets(recs, m);
        if spec_first_duplicate(recs, m) is None {
            if exists|i: int|
                0 <= i < n - 1 && (#[trigger] recs[i]).1 == recs[n - 1].1 && recs[i].2 == recs[n
                    - 1].2 {
                let i = choose|i: int|
                    0 <= i < n - 1 && (#[trigger] recs[i]).1 == recs[n - 1].1 && recs[i].2 == recs[n
                        - 1].2;
                assert(0 <= i < n - 1 < n);
            } else {
                assert forall|i: int, j: int| 0 <= i < j < n implies !(recs[i].1 == recs[j].1
                    && recs[i].2 == recs[j].2) by {
                    if j == n - 1 {
                        assert(!((recs[i]).1 == recs[n - 1].1 && recs[i].2 == recs[n - 1].2));
                    }
                }
            }
        } else {
            let d = spec_first_duplicate(recs, m)->0;
            let (i, j) = choose|i: int, j: int|
                0 <= i < j < m && recs[i].1 == d.0 && recs[j].1 == d.0 && recs[i].2 == d.1
                    && recs[j].2 == d.1;
            assert(0 <= i < j < n);
        }
    }
}

/// For a real macro id, the records available to it are the free ones and its own.
pub proof fn lemma_available_is_free_and_own(raw: Seq<u8>, id: u8, n: nat)
    requires
        id != 0xFF,
    ensures
        spec_available(raw, id, n) == spec_free_count(raw, n) + spec_id_count(raw, id, n),
    decreases n,
{
    if n > 0 {
        lemma_available_is_free_and_own(raw, id, (n - 1) as nat);
    }
}

/// A macro's records, listed, are as many as the records carrying its id.
pub proof fn lemma_records_with_id_count(raw: Seq<u8>, id: u8, n: nat)
    ensures
        spec_records_with_id(raw, id, n).len() == spec_id_count(raw, id, n),
    decreases n,
{
    if n > 0 {
        lemma_records_with_id_count(raw, id, (n - 1) as nat);
    }
}

} // verus!
