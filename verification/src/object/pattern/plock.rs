//! The parameter-lock pool of a pattern.
//!
//! A pool has slots; a slot belongs to one lock target, a track number and a lock type, and
//! holds one value per trig of the pattern. A slot whose track number or type is `0xFF` is free,
//! and a trig column holding `0xFF` has no lock. A compound (two-byte) lock takes two adjacent
//! slots: the target's slot with the high bytes, then a companion slot marked `128`/`128` with
//! the low bytes.

use crate::error::RytmError;
use vstd::prelude::*;

verus! {

/// Number of slots in a pattern's parameter-lock pool.
const POOL_SLOT_COUNT: usize = 72;

/// Number of trig columns in a slot.
const TRIG_COUNT: usize = 64;

/// The track number and type byte of a free slot, and the value of a trig column without a lock.
const UNSET: u8 = 0xFF;

/// The track number of the FX track.
const FX_TRACK: u8 = 12;

/// The track number and type byte that mark the companion slot of a compound lock.
const COMPANION_MARKER: u8 = 128;

/// One slot of the parameter-lock pool.
#[derive(Clone, Copy, Debug)]
pub struct PlockSeq {
    pub track_nr: u8,
    pub plock_type: u8,
    pub data: [u8; 64],
}

/// The plain value of a [`PlockSeq`].
pub struct PlockSeqModel {
    pub track_nr: u8,
    pub plock_type: u8,
    pub data: Seq<u8>,
}

impl View for PlockSeq {
    type V = PlockSeqModel;

    open spec fn view(&self) -> PlockSeqModel {
        PlockSeqModel { track_nr: self.track_nr, plock_type: self.plock_type, data: self.data@ }
    }
}

/// The views of a sequence of slots.
pub open spec fn slot_views(slots: Seq<PlockSeq>) -> Seq<PlockSeqModel> {
    slots.map_values(|slot: PlockSeq| slot@)
}

/// Trig columns without any lock.
pub open spec fn spec_unset_column() -> Seq<u8> {
    Seq::new(64, |i: int| 0xFFu8)
}

/// A free slot with no lock in any column.
pub open spec fn spec_unset_slot() -> PlockSeqModel {
    PlockSeqModel { track_nr: 0xFF, plock_type: 0xFF, data: spec_unset_column() }
}

/// Whether a slot is free: its track number or its type is `0xFF`.
pub open spec fn spec_is_free(slot: PlockSeqModel) -> bool {
    slot.track_nr == 0xFF || slot.plock_type == 0xFF
}

/// Whether a slot belongs to the lock target `track`, `plock_type`.
pub open spec fn spec_is_target(slot: PlockSeqModel, track: u8, plock_type: u8) -> bool {
    slot.track_nr == track && slot.plock_type == plock_type
}

/// Whether a lock target is a real one, neither of whose bytes marks a free slot.
pub open spec fn spec_is_real_target(track: u8, plock_type: u8) -> bool {
    track != 0xFF && plock_type != 0xFF
}

/// The first index from `i` on whose slot satisfies `pred`.
pub open spec fn spec_first_from(
    slots: Seq<PlockSeqModel>,
    pred: spec_fn(PlockSeqModel) -> bool,
    i: int,
) -> Option<int>
    decreases slots.len() - i,
{
    if i < 0 || i >= slots.len() {
        None
    } else if pred(slots[i]) {
        Some(i)
    } else {
        spec_first_from(slots, pred, i + 1)
    }
}

/// The first slot of a lock target.
pub open spec fn spec_find(slots: Seq<PlockSeqModel>, track: u8, plock_type: u8) -> Option<int> {
    spec_first_from(slots, |slot: PlockSeqModel| spec_is_target(slot, track, plock_type), 0)
}

/// The first free slot.
pub open spec fn spec_first_free(slots: Seq<PlockSeqModel>) -> Option<int> {
    spec_first_from(slots, |slot: PlockSeqModel| spec_is_free(slot), 0)
}

/// `slot` with column `trig` set to `value`.
pub open spec fn spec_with_column(slot: PlockSeqModel, trig: int, value: u8) -> PlockSeqModel {
    PlockSeqModel { data: slot.data.update(trig, value), ..slot }
}

/// A slot newly claimed by a lock target, locked at column `trig` only.
pub open spec fn spec_claimed(track: u8, plock_type: u8, trig: int, value: u8) -> PlockSeqModel {
    PlockSeqModel { track_nr: track, plock_type, data: spec_unset_column().update(trig, value) }
}

/// The pool after setting a basic lock: the target's first slot gets the value at the trig, or
/// else the first free slot is claimed for the target.
pub open spec fn spec_set_basic(
    slots: Seq<PlockSeqModel>,
    trig: int,
    track: u8,
    plock_type: u8,
    value: u8,
) -> Result<Seq<PlockSeqModel>, RytmError> {
    match spec_find(slots, track, plock_type) {
        Some(i) => Ok(slots.update(i, spec_with_column(slots[i], trig, value))),
        None => match spec_first_free(slots) {
            Some(j) => Ok(slots.update(j, spec_claimed(track, plock_type, trig, value))),
            None => Err(RytmError::ParameterLockMemoryFull),
        },
    }
}

/// The inputs on which setting a basic lock writes within the slot: the trig is one of the 64
/// unless the pool is full and holds no slot of the target.
pub open spec fn spec_set_basic_in_bounds(
    slots: Seq<PlockSeqModel>,
    trig: int,
    track: u8,
    plock_type: u8,
) -> bool {
    0 <= trig < 64 || (spec_find(slots, track, plock_type) is None && spec_first_free(slots) is None)
}

/// The value of a basic lock: column `trig` of the target's first slot.
pub open spec fn spec_get_basic(
    slots: Seq<PlockSeqModel>,
    trig: int,
    track: u8,
    plock_type: u8,
) -> Option<u8> {
    match spec_find(slots, track, plock_type) {
        Some(i) => Some(slots[i].data[trig]),
        None => None,
    }
}

/// The inputs on which reading or clearing a basic lock stays within the slot.
pub open spec fn spec_basic_in_bounds(
    slots: Seq<PlockSeqModel>,
    trig: int,
    track: u8,
    plock_type: u8,
) -> bool {
    0 <= trig < 64 || spec_find(slots, track, plock_type) is None
}

/// The pool after clearing a basic lock: column `trig` of the target's first slot is unset, and
/// the slot is freed when no column is left locked.
pub open spec fn spec_clear_basic(
    slots: Seq<PlockSeqModel>,
    trig: int,
    track: u8,
    plock_type: u8,
) -> Seq<PlockSeqModel> {
    match spec_find(slots, track, plock_type) {
        None => slots,
        Some(i) => {
            let cleared = spec_with_column(slots[i], trig, 0xFF);
            if cleared.data == spec_unset_column() {
                slots.update(i, spec_unset_slot())
            } else {
                slots.update(i, cleared)
            }
        },
    }
}

/// Whether `slot`'s columns are all unset but column `trig`.
pub open spec fn spec_only_column(slot: PlockSeqModel, trig: int) -> bool {
    slot.data.len() == 64 && forall|t: int| 0 <= t < 64 && t != trig ==> #[trigger] slot.data[t] == 0xFF
}

/// Whether at most one slot belongs to a lock target.
pub open spec fn spec_target_is_unique(slots: Seq<PlockSeqModel>, track: u8, plock_type: u8) -> bool {
    forall|a: int, b: int|
        0 <= a < slots.len() && 0 <= b < slots.len() && #[trigger] spec_is_target(
            slots[a],
            track,
            plock_type,
        ) && #[trigger] spec_is_target(slots[b], track, plock_type) ==> a == b
}

/// What [`spec_first_from`] gives: the first index from `i` on whose slot satisfies `pred`.
pub proof fn lemma_first_from(slots: Seq<PlockSeqModel>, pred: spec_fn(PlockSeqModel) -> bool, i: int)
    requires
        0 <= i,
    ensures
        spec_first_from(slots, pred, i) matches Some(k) ==> i <= k < slots.len() && pred(slots[k])
            && forall|m: int| i <= m < k ==> !pred(#[trigger] slots[m]),
        spec_first_from(slots, pred, i) is None ==> forall|m: int|
            i <= m < slots.len() ==> !pred(#[trigger] slots[m]),
    decreases slots.len() - i,
{
    if i < slots.len() && !pred(slots[i]) {
        lemma_first_from(slots, pred, i + 1);
    }
}

/// The first index whose slot satisfies `pred` is `k` when `k`'s does and no earlier one does.
pub proof fn lemma_first_is(slots: Seq<PlockSeqModel>, pred: spec_fn(PlockSeqModel) -> bool, k: int)
    requires
        0 <= k < slots.len(),
        pred(slots[k]),
        forall|m: int| 0 <= m < k ==> !pred(#[trigger] slots[m]),
    ensures
        spec_first_from(slots, pred, 0) == Some(k),
{
    lemma_first_from(slots, pred, 0);
}

/// No index is the first whose slot satisfies `pred` when no slot does.
pub proof fn lemma_first_none(slots: Seq<PlockSeqModel>, pred: spec_fn(PlockSeqModel) -> bool)
    requires
        forall|m: int| 0 <= m < slots.len() ==> !pred(#[trigger] slots[m]),
    ensures
        spec_first_from(slots, pred, 0) is None,
{
    lemma_first_from(slots, pred, 0);
}

/// Finds the first slot of a lock target.
fn find_target(slots: &Vec<PlockSeq>, track: u8, plock_type: u8) -> (r: Option<usize>)
    ensures
        r matches Some(i) ==> spec_find(slot_views(slots@), track, plock_type) == Some(i as int)
            && i < slots@.len() && spec_is_target(slots@[i as int]@, track, plock_type),
        r is None ==> spec_find(slot_views(slots@), track, plock_type) is None,
{
    let ghost views = slot_views(slots@);
    let ghost pred = |slot: PlockSeqModel| spec_is_target(slot, track, plock_type);
    let mut i: usize = 0;
    while i < slots.len()
        invariant
            i <= slots@.len(),
            views == slot_views(slots@),
            pred == (|slot: PlockSeqModel| spec_is_target(slot, track, plock_type)),
            forall|m: int| 0 <= m < i ==> !pred(#[trigger] views[m]),
        decreases slots@.len() - i,
    {
        if slots[i].track_nr == track && slots[i].plock_type == plock_type {
            proof {
                lemma_first_is(views, pred, i as int);
            }
            return Some(i);
        }
        i += 1;
    }
    proof {
        lemma_first_none(views, pred);
    }
    None
}

/// Finds the first free slot.
fn find_free(slots: &Vec<PlockSeq>) -> (r: Option<usize>)
    ensures
        r matches Some(i) ==> spec_first_free(slot_views(slots@)) == Some(i as int) && i
            < slots@.len() && spec_is_free(slots@[i as int]@),
        r is None ==> spec_first_free(slot_views(slots@)) is None,
{
    let ghost views = slot_views(slots@);
    let ghost pred = |slot: PlockSeqModel| spec_is_free(slot);
    let mut i: usize = 0;
    while i < slots.len()
        invariant
            i <= slots@.len(),
            views == slot_views(slots@),
            pred == (|slot: PlockSeqModel| spec_is_free(slot)),
            forall|m: int| 0 <= m < i ==> !pred(#[trigger] views[m]),
        decreases slots@.len() - i,
    {
        if slots[i].track_nr == UNSET || slots[i].plock_type == UNSET {
            proof {
                lemma_first_is(views, pred, i as int);
            }
            return Some(i);
        }
        i += 1;
    }
    proof {
        lemma_first_none(views, pred);
    }
    None
}

/// Trig columns without any lock.
fn unset_column() -> (r: [u8; 64])
    ensures
        r@ == spec_unset_column(),
{
    let column = [UNSET; TRIG_COUNT];
    assert(column@ =~= spec_unset_column());
    column
}

/// Whether no column of a slot is locked.
fn all_unset(data: &[u8; 64]) -> (r: bool)
    ensures
        r == (data@ == spec_unset_column()),
{
    let mut i: usize = 0;
    while i < TRIG_COUNT
        invariant
            i <= 64,
            data@.len() == 64,
            forall|t: int| 0 <= t < i ==> data@[t] == 0xFF,
        decreases 64 - i,
    {
        if data[i] != UNSET {
            assert(data@[i as int] != spec_unset_column()[i as int]);
            return false;
        }
        i += 1;
    }
    assert(data@ =~= spec_unset_column());
    true
}

impl Default for PlockSeq {
    /// A free slot with no lock in any column.
    fn default() -> (r: Self)
        ensures
            r@ == spec_unset_slot(),
    {
        PlockSeq { track_nr: UNSET, plock_type: UNSET, data: unset_column() }
    }
}

/// Whether every slot has its 64 trig columns.
pub open spec fn spec_well_sized(slots: Seq<PlockSeqModel>) -> bool {
    forall|k: int| 0 <= k < slots.len() ==> (#[trigger] slots[k]).data.len() == 64
}

/// The first index whose slot satisfies `pred` is the same in two pools whose slots satisfy it
/// alike.
pub proof fn lemma_first_same(
    a: Seq<PlockSeqModel>,
    b: Seq<PlockSeqModel>,
    pred: spec_fn(PlockSeqModel) -> bool,
)
    requires
        a.len() == b.len(),
        forall|k: int| 0 <= k < a.len() ==> pred(#[trigger] a[k]) == pred(b[k]),
    ensures
        spec_first_from(a, pred, 0) == spec_first_from(b, pred, 0),
{
    lemma_first_from(a, pred, 0);
    lemma_first_from(b, pred, 0);
    if let Some(k) = spec_first_from(a, pred, 0) {
        assert forall|m: int| 0 <= m < k implies !pred(#[trigger] b[m]) by {
            assert(!pred(a[m]));
        }
        assert(pred(b[k]));
        lemma_first_is(b, pred, k);
    } else {
        assert forall|m: int| 0 <= m < b.len() implies !pred(#[trigger] b[m]) by {
            assert(!pred(a[m]));
        }
        lemma_first_none(b, pred);
    }
}

/// A basic lock that was set reads back.
pub proof fn lemma_set_basic_then_get(
    slots: Seq<PlockSeqModel>,
    trig: int,
    track: u8,
    plock_type: u8,
    value: u8,
)
    requires
        spec_well_sized(slots),
        0 <= trig < 64,
        spec_set_basic(slots, trig, track, plock_type, value) is Ok,
    ensures
        spec_get_basic(
            spec_set_basic(slots, trig, track, plock_type, value)->Ok_0,
            trig,
            track,
            plock_type,
        ) == Some(value),
{
    let pred = |slot: PlockSeqModel| spec_is_target(slot, track, plock_type);
    let after = spec_set_basic(slots, trig, track, plock_type, value)->Ok_0;
    lemma_first_from(slots, pred, 0);
    match spec_find(slots, track, plock_type) {
        Some(i) => {
            assert forall|m: int| 0 <= m < i implies !pred(#[trigger] after[m]) by {
                assert(!pred(slots[m]));
            }
            lemma_first_is(after, pred, i);
        },
        None => {
            let free = |slot: PlockSeqModel| spec_is_free(slot);
            lemma_first_from(slots, free, 0);
            let j = spec_first_free(slots)->Some_0;
            assert forall|m: int| 0 <= m < j implies !pred(#[trigger] after[m]) by {
                assert(!pred(slots[m]));
            }
            lemma_first_is(after, pred, j);
        },
    }
}

/// Setting a basic lock leaves the value of every other real lock target as it was.
pub proof fn lemma_set_basic_keeps_other_targets(
    slots: Seq<PlockSeqModel>,
    trig: int,
    track: u8,
    plock_type: u8,
    value: u8,
    other_trig: int,
    other_track: u8,
    other_type: u8,
)
    requires
        spec_set_basic(slots, trig, track, plock_type, value) is Ok,
        spec_is_real_target(other_track, other_type),
        other_track != track || other_type != plock_type,
    ensures
        spec_get_basic(
            spec_set_basic(slots, trig, track, plock_type, value)->Ok_0,
            other_trig,
            other_track,
            other_type,
        ) == spec_get_basic(slots, other_trig, other_track, other_type),
{
    let after = spec_set_basic(slots, trig, track, plock_type, value)->Ok_0;
    let pred = |slot: PlockSeqModel| spec_is_target(slot, other_track, other_type);
    let own = |slot: PlockSeqModel| spec_is_target(slot, track, plock_type);
    let free = |slot: PlockSeqModel| spec_is_free(slot);
    lemma_first_from(slots, own, 0);
    lemma_first_from(slots, free, 0);
    assert forall|k: int| 0 <= k < slots.len() implies pred(#[trigger] slots[k]) == pred(
        after[k],
    ) by {}
    lemma_first_same(slots, after, pred);
    lemma_first_from(slots, pred, 0);
}

/// Clearing the one column of the only slot of a real lock target frees the slot: no lock of
/// the target is left.
pub proof fn lemma_clear_only_basic_lock(
    slots: Seq<PlockSeqModel>,
    trig: int,
    track: u8,
    plock_type: u8,
)
    requires
        spec_well_sized(slots),
        0 <= trig < 64,
        spec_is_real_target(track, plock_type),
        spec_target_is_unique(slots, track, plock_type),
        spec_find(slots, track, plock_type) matches Some(i) ==> spec_only_column(slots[i], trig),
    ensures
        spec_find(spec_clear_basic(slots, trig, track, plock_type), track, plock_type) is None,
{
    let pred = |slot: PlockSeqModel| spec_is_target(slot, track, plock_type);
    let after = spec_clear_basic(slots, trig, track, plock_type);
    lemma_first_from(slots, pred, 0);
    if let Some(i) = spec_find(slots, track, plock_type) {
        let cleared = spec_with_column(slots[i], trig, 0xFF);
        assert(cleared.data =~= spec_unset_column());
        assert forall|m: int| 0 <= m < after.len() implies !pred(#[trigger] after[m]) by {
            if m != i {
                assert(!(spec_is_target(slots[m], track, plock_type) && spec_is_target(
                    slots[i],
                    track,
                    plock_type,
                )));
            }
        }
        lemma_first_none(after, pred);
    }
}

/// The pool with every slot freed and unset.
pub open spec fn spec_clear_all(slots: Seq<PlockSeqModel>) -> Seq<PlockSeqModel> {
    Seq::new(slots.len(), |k: int| spec_unset_slot())
}

/// The pool with every slot of track `track` freed and unset.
pub open spec fn spec_clear_track(slots: Seq<PlockSeqModel>, track: u8) -> Seq<PlockSeqModel> {
    Seq::new(
        slots.len(),
        |k: int|
            if slots[k].track_nr == track {
                spec_unset_slot()
            } else {
                slots[k]
            },
    )
}

/// After clearing every slot, no real lock target has a lock.
pub proof fn lemma_clear_all_then_get(slots: Seq<PlockSeqModel>, track: u8, plock_type: u8)
    requires
        spec_is_real_target(track, plock_type),
    ensures
        spec_find(spec_clear_all(slots), track, plock_type) is None,
{
    lemma_first_none(
        spec_clear_all(slots),
        |slot: PlockSeqModel| spec_is_target(slot, track, plock_type),
    );
}

/// After clearing every slot of a track, no real lock target of that track has a lock, and the
/// locks of every other track read as before.
pub proof fn lemma_clear_track_then_get(
    slots: Seq<PlockSeqModel>,
    track: u8,
    trig: int,
    target_track: u8,
    target_type: u8,
)
    requires
        spec_is_real_target(target_track, target_type),
    ensures
        target_track == track ==> spec_find(
            spec_clear_track(slots, track),
            target_track,
            target_type,
        ) is None,
        target_track != track ==> spec_get_basic(
            spec_clear_track(slots, track),
            trig,
            target_track,
            target_type,
        ) == spec_get_basic(slots, trig, target_track, target_type),
{
    let after = spec_clear_track(slots, track);
    let pred = |slot: PlockSeqModel| spec_is_target(slot, target_track, target_type);
    if target_track == track {
        lemma_first_none(after, pred);
    } else {
        lemma_first_same(slots, after, pred);
        lemma_first_from(slots, pred, 0);
    }
}

/// Whether a stable partition puts a slot in front: its track number or its type is not `0xFF`.
pub open spec fn spec_keeps_front(slot: PlockSeqModel) -> bool {
    slot.track_nr != 0xFF || slot.plock_type != 0xFF
}

/// The slots that go in front (`front`) or behind (`!front`), in their order.
pub open spec fn spec_select(slots: Seq<PlockSeqModel>, front: bool) -> Seq<PlockSeqModel>
    decreases slots.len(),
{
    if slots.len() == 0 {
        Seq::empty()
    } else {
        let rest = spec_select(slots.drop_last(), front);
        if spec_keeps_front(slots.last()) == front {
            rest.push(slots.last())
        } else {
            rest
        }
    }
}

/// The pool stably partitioned: the slots whose track number or type is not `0xFF` first, then
/// the others, each group in its order.
pub open spec fn spec_partition(slots: Seq<PlockSeqModel>) -> Seq<PlockSeqModel> {
    spec_select(slots, true) + spec_select(slots, false)
}

/// The high byte of a compound value.
pub open spec fn spec_value_msb(value: u16) -> u8 {
    (value >> 8u16) as u8
}

/// The low byte of a compound value.
pub open spec fn spec_value_lsb(value: u16) -> u8 {
    (value & 0xFFu16) as u8
}

/// The outcome of setting a compound lock, and the pool after it. The pool is first partitioned;
/// then the target's slot gets the high byte and the slot after it the low byte; or else, when
/// the last slot is free and a slot follows the first free one, the first free slot is claimed
/// for the target and the slot after it for the companion. Otherwise the pool is full.
pub open spec fn spec_set_compound(
    slots: Seq<PlockSeqModel>,
    trig: int,
    track: u8,
    plock_type: u8,
    value: u16,
) -> (Result<(), RytmError>, Seq<PlockSeqModel>) {
    let p = spec_partition(slots);
    let msb = spec_value_msb(value);
    let lsb = spec_value_lsb(value);
    match spec_find(p, track, plock_type) {
        Some(i) => (
            Ok(()),
            p.update(i, spec_with_column(p[i], trig, msb)).update(
                i + 1,
                spec_with_column(p[i + 1], trig, lsb),
            ),
        ),
        None => if !spec_is_free(p.last()) {
            (Err(RytmError::ParameterLockMemoryFull), p)
        } else {
            match spec_first_free(p) {
                Some(j) => if j + 1 < p.len() {
                    (
                        Ok(()),
                        p.update(j, spec_claimed(track, plock_type, trig, msb)).update(
                            j + 1,
                            spec_claimed(128, 128, trig, lsb),
                        ),
                    )
                } else {
                    (Err(RytmError::ParameterLockMemoryFull), p)
                },
                None => (Err(RytmError::ParameterLockMemoryFull), p),
            }
        },
    }
}

/// The inputs on which setting a compound lock writes within the pool: the trig is one of the
/// 64 whenever a write happens, and a slot follows the target's slot when it has one.
pub open spec fn spec_set_compound_in_bounds(
    slots: Seq<PlockSeqModel>,
    trig: int,
    track: u8,
    plock_type: u8,
) -> bool {
    let p = spec_partition(slots);
    &&& slots.len() > 0
    &&& match spec_find(p, track, plock_type) {
        Some(i) => 0 <= trig < 64 && i + 1 < p.len(),
        None => spec_is_free(p.last()) ==> match spec_first_free(p) {
            Some(j) => j + 1 < p.len() ==> 0 <= trig < 64,
            None => true,
        },
    }
}

/// The value of a compound lock: the high byte in the target's first slot and the low byte in
/// the slot after it.
pub open spec fn spec_get_compound(
    slots: Seq<PlockSeqModel>,
    trig: int,
    track: u8,
    plock_type: u8,
) -> Option<u16> {
    match spec_find(slots, track, plock_type) {
        Some(i) => Some(((slots[i].data[trig] as u16) << 8u16) | (slots[i + 1].data[trig] as u16)),
        None => None,
    }
}

/// The inputs on which reading or clearing a compound lock stays within the pool.
pub open spec fn spec_compound_in_bounds(
    slots: Seq<PlockSeqModel>,
    trig: int,
    track: u8,
    plock_type: u8,
) -> bool {
    match spec_find(slots, track, plock_type) {
        Some(i) => 0 <= trig < 64 && i + 1 < slots.len(),
        None => true,
    }
}

/// The pool after clearing a compound lock: column `trig` of the target's first slot and of the
/// slot after it is unset, and both slots are freed when the first has no column left locked.
pub open spec fn spec_clear_compound(
    slots: Seq<PlockSeqModel>,
    trig: int,
    track: u8,
    plock_type: u8,
) -> Seq<PlockSeqModel> {
    match spec_find(slots, track, plock_type) {
        None => slots,
        Some(i) => {
            let cleared = spec_with_column(slots[i], trig, 0xFF);
            if cleared.data == spec_unset_column() {
                slots.update(i, spec_unset_slot()).update(i + 1, spec_unset_slot())
            } else {
                slots.update(i, cleared).update(i + 1, spec_with_column(slots[i + 1], trig, 0xFF))
            }
        },
    }
}

/// Both groups of a stable partition together hold as many slots as the pool.
pub proof fn lemma_partition_len(slots: Seq<PlockSeqModel>)
    ensures
        spec_partition(slots).len() == slots.len(),
        spec_select(slots, true).len() + spec_select(slots, false).len() == slots.len(),
    decreases slots.len(),
{
    if slots.len() > 0 {
        lemma_partition_len(slots.drop_last());
    }
}

/// Each group of a stable partition of a pool whose slots have 64 columns has slots of 64
/// columns.
pub proof fn lemma_select_well_sized(slots: Seq<PlockSeqModel>, front: bool)
    requires
        spec_well_sized(slots),
    ensures
        spec_well_sized(spec_select(slots, front)),
    decreases slots.len(),
{
    if slots.len() > 0 {
        lemma_select_well_sized(slots.drop_last(), front);
    }
}

/// A stable partition of a pool whose slots have 64 columns has slots of 64 columns.
pub proof fn lemma_partition_well_sized(slots: Seq<PlockSeqModel>)
    requires
        spec_well_sized(slots),
    ensures
        spec_well_sized(spec_partition(slots)),
{
    lemma_select_well_sized(slots, true);
    lemma_select_well_sized(slots, false);
    let front = spec_select(slots, true);
    let back = spec_select(slots, false);
    assert forall|k: int| 0 <= k < spec_partition(slots).len() implies (#[trigger] spec_partition(
        slots,
    )[k]).data.len() == 64 by {
        if k < front.len() {
            assert(spec_partition(slots)[k] == front[k]);
        } else {
            assert(spec_partition(slots)[k] == back[k - front.len()]);
        }
    }
}

/// The high and low bytes of a compound value give the value back.
pub proof fn lemma_value_bytes(value: u16)
    ensures
        ((spec_value_msb(value) as u16) << 8u16) | (spec_value_lsb(value) as u16) == value,
{
    assert(((((value >> 8u16) as u8) as u16) << 8u16) | (((value & 0xFFu16) as u8) as u16) == value)
        by (bit_vector);
}

/// A compound lock that was set reads back.
pub proof fn lemma_set_compound_then_get(
    slots: Seq<PlockSeqModel>,
    trig: int,
    track: u8,
    plock_type: u8,
    value: u16,
)
    requires
        spec_well_sized(slots),
        spec_set_compound_in_bounds(slots, trig, track, plock_type),
        spec_set_compound(slots, trig, track, plock_type, value).0 is Ok,
    ensures
        spec_get_compound(
            spec_set_compound(slots, trig, track, plock_type, value).1,
            trig,
            track,
            plock_type,
        ) == Some(value),
        spec_compound_in_bounds(
            spec_set_compound(slots, trig, track, plock_type, value).1,
            trig,
            track,
            plock_type,
        ),
{
    let p = spec_partition(slots);
    let after = spec_set_compound(slots, trig, track, plock_type, value).1;
    let pred = |slot: PlockSeqModel| spec_is_target(slot, track, plock_type);
    lemma_partition_len(slots);
    lemma_value_bytes(value);
    lemma_partition_well_sized(slots);
    lemma_first_from(p, pred, 0);
    match spec_find(p, track, plock_type) {
        Some(i) => {
            assert forall|m: int| 0 <= m < i implies !pred(#[trigger] after[m]) by {
                assert(!pred(p[m]));
            }
            lemma_first_is(after, pred, i);
        },
        None => {
            let free = |slot: PlockSeqModel| spec_is_free(slot);
            lemma_first_from(p, free, 0);
            let j = spec_first_free(p)->Some_0;
            assert forall|m: int| 0 <= m < j implies !pred(#[trigger] after[m]) by {
                assert(!pred(p[m]));
            }
            lemma_first_is(after, pred, j);
        },
    }
}

/// Clearing the one column of the only slot of a real compound lock target frees it and its
/// companion: no lock of the target is left.
pub proof fn lemma_clear_only_compound_lock(
    slots: Seq<PlockSeqModel>,
    trig: int,
    track: u8,
    plock_type: u8,
)
    requires
        spec_well_sized(slots),
        0 <= trig < 64,
        spec_is_real_target(track, plock_type),
        spec_target_is_unique(slots, track, plock_type),
        spec_compound_in_bounds(slots, trig, track, plock_type),
        spec_find(slots, track, plock_type) matches Some(i) ==> spec_only_column(slots[i], trig),
    ensures
        spec_find(spec_clear_compound(slots, trig, track, plock_type), track, plock_type) is None,
{
    let pred = |slot: PlockSeqModel| spec_is_target(slot, track, plock_type);
    let after = spec_clear_compound(slots, trig, track, plock_type);
    lemma_first_from(slots, pred, 0);
    if let Some(i) = spec_find(slots, track, plock_type) {
        let cleared = spec_with_column(slots[i], trig, 0xFF);
        assert(cleared.data =~= spec_unset_column());
        assert forall|m: int| 0 <= m < after.len() implies !pred(#[trigger] after[m]) by {
            if m != i && m != i + 1 {
                assert(!(spec_is_target(slots[m], track, plock_type) && spec_is_target(
                    slots[i],
                    track,
                    plock_type,
                )));
            }
        }
        lemma_first_none(after, pred);
    }
}

/// The parameter-lock pool of one pattern: 72 slots, each with one value per trig.
#[derive(Debug)]
pub struct ParameterLockPool {
    pub owner_pattern_index: usize,
    pub inner: Vec<PlockSeq>,
    pub is_owner_pattern_work_buffer: bool,
}

impl Clone for ParameterLockPool {
    fn clone(&self) -> (r: Self)
        ensures
            r.owner_pattern_index == self.owner_pattern_index,
            r.inner@ == self.inner@,
            r.is_owner_pattern_work_buffer == self.is_owner_pattern_work_buffer,
    {
        let inner = self.inner.clone();
        assert(inner@ =~= self.inner@);
        ParameterLockPool {
            owner_pattern_index: self.owner_pattern_index,
            inner,
            is_owner_pattern_work_buffer: self.is_owner_pattern_work_buffer,
        }
    }
}

impl Default for ParameterLockPool {
    /// A pool of 72 free slots owned by pattern zero.
    fn default() -> (r: Self)
        ensures
            slot_views(r.inner@) == Seq::new(72, |k: int| spec_unset_slot()),
            r.owner_pattern_index == 0,
            !r.is_owner_pattern_work_buffer,
    {
        let mut inner: Vec<PlockSeq> = Vec::with_capacity(POOL_SLOT_COUNT);
        let mut k: usize = 0;
        while k < POOL_SLOT_COUNT
            invariant
                k <= 72,
                inner@.len() == k,
                forall|m: int| 0 <= m < k ==> #[trigger] inner@[m]@ == spec_unset_slot(),
            decreases 72 - k,
        {
            inner.push(PlockSeq::default());
            k += 1;
        }
        assert(slot_views(inner@) =~= Seq::new(72, |k: int| spec_unset_slot()));
        ParameterLockPool { owner_pattern_index: 0, inner, is_owner_pattern_work_buffer: false }
    }
}

impl ParameterLockPool {
    /// Sets the basic lock of a target at a trig, in the target's slot, or else in the first free
    /// slot, whose other columns are unset.
    ///
    /// # Errors
    ///
    /// When the pool holds no slot of the target and no free slot.
    pub fn set_basic_plock(
        &mut self,
        trig_index: usize,
        track_index: u8,
        plock_type: u8,
        value: u8,
    ) -> (r: Result<(), RytmError>)
        requires
            spec_set_basic_in_bounds(
                slot_views(old(self).inner@),
                trig_index as int,
                track_index,
                plock_type,
            ),
        ensures
            spec_set_basic(
                slot_views(old(self).inner@),
                trig_index as int,
                track_index,
                plock_type,
                value,
            ) matches Ok(after) ==> r is Ok && slot_views(final(self).inner@) == after,
            spec_set_basic(
                slot_views(old(self).inner@),
                trig_index as int,
                track_index,
                plock_type,
                value,
            ) matches Err(e) ==> r == Err::<(), RytmError>(e) && final(self).inner@ == old(
                self,
            ).inner@,
            final(self).owner_pattern_index == old(self).owner_pattern_index,
            final(self).is_owner_pattern_work_buffer == old(self).is_owner_pattern_work_buffer,
            r is Ok ==> spec_get_basic(
                slot_views(final(self).inner@),
                trig_index as int,
                track_index,
                plock_type,
            ) == Some(value),
    {
        let ghost views = slot_views(self.inner@);
        if let Some(i) = find_target(&self.inner, track_index, plock_type) {
            let mut slot = self.inner[i];
            slot.data[trig_index] = value;
            self.inner[i] = slot;
            proof {
                assert(slot_views(self.inner@) =~= views.update(
                    i as int,
                    spec_with_column(views[i as int], trig_index as int, value),
                ));
                lemma_set_basic_then_get(views, trig_index as int, track_index, plock_type, value);
            }
            return Ok(());
        }
        if let Some(j) = find_free(&self.inner) {
            let mut data = unset_column();
            data[trig_index] = value;
            self.inner[j] = PlockSeq { track_nr: track_index, plock_type, data };
            proof {
                assert(slot_views(self.inner@) =~= views.update(
                    j as int,
                    spec_claimed(track_index, plock_type, trig_index as int, value),
                ));
                lemma_set_basic_then_get(views, trig_index as int, track_index, plock_type, value);
            }
            return Ok(());
        }
        Err(RytmError::ParameterLockMemoryFull)
    }

    /// Returns the basic lock of a target at a trig, if the pool holds a slot of the target.
    pub fn get_basic_plock(&self, trig_index: usize, track_index: u8, plock_type: u8) -> (r: Option<
        u8,
    >)
        requires
            spec_basic_in_bounds(slot_views(self.inner@), trig_index as int, track_index, plock_type),
        ensures
            r == spec_get_basic(slot_views(self.inner@), trig_index as int, track_index, plock_type),
    {
        if let Some(i) = find_target(&self.inner, track_index, plock_type) {
            return Some(self.inner[i].data[trig_index]);
        }
        None
    }

    /// Clears the basic plock for the given trig, and frees the target's slot when none of its
    /// columns is left locked.
    pub fn clear_basic_plock(&mut self, trig_index: usize, track_index: u8, plock_type: u8)
        requires
            spec_basic_in_bounds(
                slot_views(old(self).inner@),
                trig_index as int,
                track_index,
                plock_type,
            ),
        ensures
            slot_views(final(self).inner@) == spec_clear_basic(
                slot_views(old(self).inner@),
                trig_index as int,
                track_index,
                plock_type,
            ),
            final(self).owner_pattern_index == old(self).owner_pattern_index,
            final(self).is_owner_pattern_work_buffer == old(self).is_owner_pattern_work_buffer,
    {
        let ghost views = slot_views(self.inner@);
        if let Some(i) = find_target(&self.inner, track_index, plock_type) {
            let mut slot = self.inner[i];
            slot.data[trig_index] = UNSET;
            if all_unset(&slot.data) {
                slot.track_nr = UNSET;
                slot.plock_type = UNSET;
            }
            self.inner[i] = slot;
            proof {
                let cleared = spec_with_column(views[i as int], trig_index as int, 0xFF);
                assert(slot@.data == cleared.data);
                assert(slot_views(self.inner@) =~= spec_clear_basic(
                    views,
                    trig_index as int,
                    track_index,
                    plock_type,
                ));
            }
        }
    }

    /// Sets the basic lock of an FX target at a trig.
    ///
    /// # Errors
    ///
    /// When the pool holds no slot of the target and no free slot.
    pub fn set_fx_basic_plock(&mut self, trig_index: usize, plock_type: u8, value: u8) -> (r: Result<
        (),
        RytmError,
    >)
        requires
            spec_set_basic_in_bounds(slot_views(old(self).inner@), trig_index as int, 12, plock_type),
        ensures
            spec_set_basic(slot_views(old(self).inner@), trig_index as int, 12, plock_type, value)
                matches Ok(after) ==> r is Ok && slot_views(final(self).inner@) == after,
            spec_set_basic(slot_views(old(self).inner@), trig_index as int, 12, plock_type, value)
                matches Err(e) ==> r == Err::<(), RytmError>(e) && final(self).inner@ == old(
                self,
            ).inner@,
            final(self).owner_pattern_index == old(self).owner_pattern_index,
            final(self).is_owner_pattern_work_buffer == old(self).is_owner_pattern_work_buffer,
            r is Ok ==> spec_get_basic(
                slot_views(final(self).inner@),
                trig_index as int,
                12,
                plock_type,
            ) == Some(value),
    {
        self.set_basic_plock(trig_index, FX_TRACK, plock_type, value)
    }

    /// Returns the basic lock of an FX target at a trig.
    pub fn get_fx_basic_plock(&self, trig_index: usize, plock_type: u8) -> (r: Option<u8>)
        requires
            spec_basic_in_bounds(slot_views(self.inner@), trig_index as int, 12, plock_type),
        ensures
            r == spec_get_basic(slot_views(self.inner@), trig_index as int, 12, plock_type),
    {
        self.get_basic_plock(trig_index, FX_TRACK, plock_type)
    }

    /// Clears the basic lock of an FX target at a trig.
    pub fn clear_fx_basic_plock(&mut self, trig_index: usize, plock_type: u8)
        requires
            spec_basic_in_bounds(slot_views(old(self).inner@), trig_index as int, 12, plock_type),
        ensures
            slot_views(final(self).inner@) == spec_clear_basic(
                slot_views(old(self).inner@),
                trig_index as int,
                12,
                plock_type,
            ),
            final(self).owner_pattern_index == old(self).owner_pattern_index,
            final(self).is_owner_pattern_work_buffer == old(self).is_owner_pattern_work_buffer,
    {
        self.clear_basic_plock(trig_index, FX_TRACK, plock_type);
    }

    /// Frees every slot and unsets every column.
    pub fn clear_all_plocks(&mut self)
        ensures
            slot_views(final(self).inner@) == spec_clear_all(slot_views(old(self).inner@)),
            final(self).owner_pattern_index == old(self).owner_pattern_index,
            final(self).is_owner_pattern_work_buffer == old(self).is_owner_pattern_work_buffer,
    {
        let ghost views = slot_views(self.inner@);
        let mut k: usize = 0;
        while k < self.inner.len()
            invariant
                k <= self.inner@.len(),
                self.inner@.len() == views.len(),
                forall|m: int| 0 <= m < k ==> #[trigger] self.inner@[m]@ == spec_unset_slot(),
                forall|m: int| k <= m < views.len() ==> #[trigger] self.inner@[m]@ == views[m],
                self.owner_pattern_index == old(self).owner_pattern_index,
                self.is_owner_pattern_work_buffer == old(self).is_owner_pattern_work_buffer,
                views == slot_views(old(self).inner@),
            decreases views.len() - k,
        {
            self.inner[k] = PlockSeq::default();
            k += 1;
        }
        assert(slot_views(self.inner@) =~= spec_clear_all(views));
    }

    /// Frees every slot of a track and unsets its columns.
    pub fn clear_all_plocks_for_track(&mut self, track_index: u8)
        ensures
            slot_views(final(self).inner@) == spec_clear_track(
                slot_views(old(self).inner@),
                track_index,
            ),
            final(self).owner_pattern_index == old(self).owner_pattern_index,
            final(self).is_owner_pattern_work_buffer == old(self).is_owner_pattern_work_buffer,
    {
        let ghost views = slot_views(self.inner@);
        let mut k: usize = 0;
        while k < self.inner.len()
            invariant
                k <= self.inner@.len(),
                self.inner@.len() == views.len(),
                forall|m: int|
                    0 <= m < k ==> #[trigger] self.inner@[m]@ == if views[m].track_nr
                        == track_index {
                        spec_unset_slot()
                    } else {
                        views[m]
                    },
                forall|m: int| k <= m < views.len() ==> #[trigger] self.inner@[m]@ == views[m],
                self.owner_pattern_index == old(self).owner_pattern_index,
                self.is_owner_pattern_work_buffer == old(self).is_owner_pattern_work_buffer,
                views == slot_views(old(self).inner@),
            decreases views.len() - k,
        {
            assert(self.inner@[k as int]@ == views[k as int]);
            if self.inner[k].track_nr == track_index {
                self.inner[k] = PlockSeq::default();
            }
            assert(self.inner@[k as int]@ == if views[k as int].track_nr == track_index {
                spec_unset_slot()
            } else {
                views[k as int]
            });
            k += 1;
        }
        assert(slot_views(self.inner@) =~= spec_clear_track(views, track_index));
    }
}

/// Stably partitions the pool: the slots whose track number or type is not `0xFF` first, then
/// the others, each group in its order.
fn stable_partition_slots(slots: &mut Vec<PlockSeq>)
    ensures
        slot_views(final(slots)@) == spec_partition(slot_views(old(slots)@)),
{
    let ghost views = slot_views(slots@);
    let mut front: Vec<PlockSeq> = Vec::new();
    let mut back: Vec<PlockSeq> = Vec::new();
    let mut i: usize = 0;
    while i < slots.len()
        invariant
            i <= slots@.len(),
            views == slot_views(slots@),
            slot_views(front@) == spec_select(views.take(i as int), true),
            slot_views(back@) == spec_select(views.take(i as int), false),
        decreases slots@.len() - i,
    {
        let slot = slots[i];
        proof {
            assert(views.take(i + 1).drop_last() =~= views.take(i as int));
            assert(views.take(i + 1).last() == slot@);
        }
        if slot.track_nr != UNSET || slot.plock_type != UNSET {
            front.push(slot);
            proof {
                assert(slot_views(front@) =~= spec_select(views.take(i as int), true).push(slot@));
            }
        } else {
            back.push(slot);
            proof {
                assert(slot_views(back@) =~= spec_select(views.take(i as int), false).push(slot@));
            }
        }
        i += 1;
    }
    proof {
        assert(views.take(views.len() as int) =~= views);
    }
    let ghost front_views = slot_views(front@);
    let mut k: usize = 0;
    while k < back.len()
        invariant
            k <= back@.len(),
            slot_views(front@) == front_views + slot_views(back@).take(k as int),
        decreases back@.len() - k,
    {
        let item = back[k];
        let ghost before = slot_views(front@);
        front.push(item);
        proof {
            assert(slot_views(front@) =~= before.push(item@));
            assert(slot_views(back@).take(k + 1) =~= slot_views(back@).take(k as int).push(item@));
            assert(slot_views(front@) =~= front_views + slot_views(back@).take(k + 1));
        }
        k += 1;
    }
    proof {
        assert(slot_views(back@).take(back@.len() as int) =~= slot_views(back@));
    }
    *slots = front;
}

impl ParameterLockPool {
    /// Sets the compound lock of a target at a trig. The pool is first stably partitioned so that
    /// its free slots gather at the end; then the target's slot takes the high byte and the slot
    /// after it the low byte, or else, when the last slot is free, the first free slot is claimed
    /// for the target and the slot after it for the companion, with their other columns unset.
    ///
    /// # Errors
    ///
    /// When the pool holds no slot of the target and its last slot is not free.
    pub fn set_compound_plock(
        &mut self,
        trig_index: usize,
        track_index: u8,
        plock_type: u8,
        value: u16,
    ) -> (r: Result<(), RytmError>)
        requires
            spec_set_compound_in_bounds(
                slot_views(old(self).inner@),
                trig_index as int,
                track_index,
                plock_type,
            ),
        ensures
            r == spec_set_compound(
                slot_views(old(self).inner@),
                trig_index as int,
                track_index,
                plock_type,
                value,
            ).0,
            slot_views(final(self).inner@) == spec_set_compound(
                slot_views(old(self).inner@),
                trig_index as int,
                track_index,
                plock_type,
                value,
            ).1,
            final(self).owner_pattern_index == old(self).owner_pattern_index,
            final(self).is_owner_pattern_work_buffer == old(self).is_owner_pattern_work_buffer,
            r is Ok ==> spec_get_compound(
                slot_views(final(self).inner@),
                trig_index as int,
                track_index,
                plock_type,
            ) == Some(value),
            r is Ok ==> spec_compound_in_bounds(
                slot_views(final(self).inner@),
                trig_index as int,
                track_index,
                plock_type,
            ),
    {
        let ghost views = slot_views(self.inner@);
        let value_msb = (value >> 8u16) as u8;
        let value_lsb = (value & 0xFFu16) as u8;
        stable_partition_slots(&mut self.inner);
        let ghost p = slot_views(self.inner@);
        proof {
            lemma_partition_len(views);
            assert forall|k: int| 0 <= k < views.len() implies (#[trigger] views[k]).data.len()
                == 64 by {}
            lemma_partition_well_sized(views);
            if spec_set_compound(views, trig_index as int, track_index, plock_type, value).0 is Ok {
                lemma_set_compound_then_get(
                    views,
                    trig_index as int,
                    track_index,
                    plock_type,
                    value,
                );
            }
        }
        let last = self.inner.len() - 1;
        let last_slot_available = self.inner[last].track_nr == UNSET || self.inner[last].plock_type
            == UNSET;
        if let Some(i) = find_target(&self.inner, track_index, plock_type) {
            let mut slot = self.inner[i];
            slot.data[trig_index] = value_msb;
            self.inner[i] = slot;
            let mut companion = self.inner[i + 1];
            companion.data[trig_index] = value_lsb;
            self.inner[i + 1] = companion;
            proof {
                assert(slot_views(self.inner@) =~= p.update(
                    i as int,
                    spec_with_column(p[i as int], trig_index as int, value_msb),
                ).update(i + 1, spec_with_column(p[i + 1], trig_index as int, value_lsb)));
            }
            return Ok(());
        }
        if !last_slot_available {
            return Err(RytmError::ParameterLockMemoryFull);
        }
        if let Some(j) = find_free(&self.inner) {
            if j + 1 >= self.inner.len() {
                return Err(RytmError::ParameterLockMemoryFull);
            }
            let mut data = unset_column();
            data[trig_index] = value_msb;
            self.inner[j] = PlockSeq { track_nr: track_index, plock_type, data };
            let mut companion_data = unset_column();
            companion_data[trig_index] = value_lsb;
            self.inner[j + 1] = PlockSeq {
                track_nr: COMPANION_MARKER,
                plock_type: COMPANION_MARKER,
                data: companion_data,
            };
            proof {
                assert(slot_views(self.inner@) =~= p.update(
                    j as int,
                    spec_claimed(track_index, plock_type, trig_index as int, value_msb),
                ).update(j + 1, spec_claimed(128, 128, trig_index as int, value_lsb)));
            }
            return Ok(());
        }
        Err(RytmError::ParameterLockMemoryFull)
    }

    /// Returns the compound lock of a target at a trig, if the pool holds a slot of the target.
    pub fn get_compound_plock(&self, trig_index: usize, track_index: u8, plock_type: u8) -> (r:
        Option<u16>)
        requires
            spec_compound_in_bounds(
                slot_views(self.inner@),
                trig_index as int,
                track_index,
                plock_type,
            ),
        ensures
            r == spec_get_compound(
                slot_views(self.inner@),
                trig_index as int,
                track_index,
                plock_type,
            ),
    {
        if let Some(i) = find_target(&self.inner, track_index, plock_type) {
            let slot_count = self.inner.len();
            assert(i + 1 < slot_count);
            return Some(
                ((self.inner[i].data[trig_index] as u16) << 8u16) | (self.inner[i
                    + 1].data[trig_index] as u16),
            );
        }
        None
    }

    /// Clears the compound lock of a target at a trig, and frees both of its slots when the
    /// target's slot has no column left locked.
    pub fn clear_compound_plock(&mut self, trig_index: usize, track_index: u8, plock_type: u8)
        requires
            spec_compound_in_bounds(
                slot_views(old(self).inner@),
                trig_index as int,
                track_index,
                plock_type,
            ),
        ensures
            slot_views(final(self).inner@) == spec_clear_compound(
                slot_views(old(self).inner@),
                trig_index as int,
                track_index,
                plock_type,
            ),
            final(self).owner_pattern_index == old(self).owner_pattern_index,
            final(self).is_owner_pattern_work_buffer == old(self).is_owner_pattern_work_buffer,
    {
        let ghost views = slot_views(self.inner@);
        if let Some(i) = find_target(&self.inner, track_index, plock_type) {
            let slot_count = self.inner.len();
            assert(i + 1 < slot_count);
            let mut slot = self.inner[i];
            slot.data[trig_index] = UNSET;
            let mut companion = self.inner[i + 1];
            companion.data[trig_index] = UNSET;
            if all_unset(&slot.data) {
                slot.track_nr = UNSET;
                slot.plock_type = UNSET;
                companion.track_nr = UNSET;
                companion.plock_type = UNSET;
                companion.data = unset_column();
            }
            self.inner[i] = slot;
            self.inner[i + 1] = companion;
            proof {
                let cleared = spec_with_column(views[i as int], trig_index as int, 0xFF);
                assert(slot@.data == cleared.data || slot@ == spec_unset_slot());
                assert(slot_views(self.inner@) =~= spec_clear_compound(
                    views,
                    trig_index as int,
                    track_index,
                    plock_type,
                ));
            }
        }
    }

    /// Sets the compound lock of an FX target at a trig.
    ///
    /// # Errors
    ///
    /// When the pool holds no slot of the target and its last slot is not free.
    pub fn set_fx_compound_plock(&mut self, trig_index: usize, plock_type: u8, value: u16) -> (r:
        Result<(), RytmError>)
        requires
            spec_set_compound_in_bounds(
                slot_views(old(self).inner@),
                trig_index as int,
                12,
                plock_type,
            ),
        ensures
            r == spec_set_compound(
                slot_views(old(self).inner@),
                trig_index as int,
                12,
                plock_type,
                value,
            ).0,
            slot_views(final(self).inner@) == spec_set_compound(
                slot_views(old(self).inner@),
                trig_index as int,
                12,
                plock_type,
                value,
            ).1,
            final(self).owner_pattern_index == old(self).owner_pattern_index,
            final(self).is_owner_pattern_work_buffer == old(self).is_owner_pattern_work_buffer,
            r is Ok ==> spec_get_compound(
                slot_views(final(self).inner@),
                trig_index as int,
                12,
                plock_type,
            ) == Some(value) && spec_compound_in_bounds(
                slot_views(final(self).inner@),
                trig_index as int,
                12,
                plock_type,
            ),
    {
        self.set_compound_plock(trig_index, FX_TRACK, plock_type, value)
    }

    /// Returns the compound lock of an FX target at a trig.
    pub fn get_fx_compound_plock(&self, trig_index: usize, plock_type: u8) -> (r: Option<u16>)
        requires
            spec_compound_in_bounds(slot_views(self.inner@), trig_index as int, 12, plock_type),
        ensures
            r == spec_get_compound(slot_views(self.inner@), trig_index as int, 12, plock_type),
    {
        self.get_compound_plock(trig_index, FX_TRACK, plock_type)
    }

    /// Clears the compound lock of an FX target at a trig.
    pub fn clear_fx_compound_plock(&mut self, trig_index: usize, plock_type: u8)
        requires
            spec_compound_in_bounds(slot_views(old(self).inner@), trig_index as int, 12, plock_type),
        ensures
            slot_views(final(self).inner@) == spec_clear_compound(
                slot_views(old(self).inner@),
                trig_index as int,
                12,
                plock_type,
            ),
            final(self).owner_pattern_index == old(self).owner_pattern_index,
            final(self).is_owner_pattern_work_buffer == old(self).is_owner_pattern_work_buffer,
    {
        self.clear_compound_plock(trig_index, FX_TRACK, plock_type);
    }
}

} // verus!
