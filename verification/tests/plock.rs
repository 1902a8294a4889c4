use rytm_rs::error::RytmError;
use rytm_rs::object::pattern::plock::{ParameterLockPool, PlockSeq};

/// Dirty a free slot's data buffer to simulate the stale bytes a claimed
/// slot can carry (e.g. 0x00 fill decoded from a device pool).
fn dirty_free_slot(pool: &mut ParameterLockPool, index: usize) {
    pool.inner[index].data = [0x00; 64];
    assert_eq!(pool.inner[index].track_nr, 0xFF, "slot must stay free");
    assert_eq!(pool.inner[index].plock_type, 0xFF, "slot must stay free");
}

#[test]
fn basic_plock_claim_resets_all_columns_to_the_unset_sentinel() {
    let mut pool = ParameterLockPool::default();
    dirty_free_slot(&mut pool, 0);

    // CH (track 8) AMP_PAN (0x1E) lock of -20 (byte 44) on trig 5.
    pool.set_basic_plock(5, 8, 0x1E, 44).unwrap();

    let slot = &pool.inner[0];
    assert_eq!(slot.track_nr, 8);
    assert_eq!(slot.plock_type, 0x1E);
    assert_eq!(slot.data[5], 44);
    for (i, byte) in slot.data.iter().enumerate() {
        if i != 5 {
            assert_eq!(
                *byte, 0xFF,
                "column {i} must be the unset sentinel, not a live value (0x00 = pan hard-left)"
            );
        }
    }
}

#[test]
fn compound_plock_claim_resets_all_columns_of_both_slots() {
    let mut pool = ParameterLockPool::default();
    dirty_free_slot(&mut pool, 0);
    dirty_free_slot(&mut pool, 1);

    pool.set_compound_plock(3, 8, 0x28, 0x5900).unwrap();

    let msb = &pool.inner[0];
    let lsb = &pool.inner[1];
    assert_eq!((msb.track_nr, msb.plock_type), (8, 0x28));
    assert_eq!((lsb.track_nr, lsb.plock_type), (128, 128));
    assert_eq!(msb.data[3], 0x59);
    assert_eq!(lsb.data[3], 0x00);
    for i in 0..64 {
        if i != 3 {
            assert_eq!(msb.data[i], 0xFF, "MSB column {i} must be sentinel");
            assert_eq!(lsb.data[i], 0xFF, "LSB column {i} must be sentinel");
        }
    }
}

#[test]
fn modifying_an_existing_basic_plock_does_not_disturb_other_columns() {
    let mut pool = ParameterLockPool::default();
    pool.set_basic_plock(5, 8, 0x1E, 44).unwrap();
    pool.set_basic_plock(9, 8, 0x1E, 84).unwrap();

    let slot = &pool.inner[0];
    assert_eq!(slot.data[5], 44);
    assert_eq!(slot.data[9], 84);
    for i in 0..64 {
        if i != 5 && i != 9 {
            assert_eq!(slot.data[i], 0xFF);
        }
    }
}

#[test]
fn default_pool_has_seventy_two_free_slots() {
    let pool = ParameterLockPool::default();
    assert_eq!(pool.inner.len(), 72);
    assert_eq!(pool.owner_pattern_index, 0);
    assert!(!pool.is_owner_pattern_work_buffer);
    for slot in &pool.inner {
        assert_eq!((slot.track_nr, slot.plock_type), (0xFF, 0xFF));
        assert!(slot.data.iter().all(|byte| *byte == 0xFF));
    }
    let slot = PlockSeq::default();
    assert_eq!((slot.track_nr, slot.plock_type, slot.data), (0xFF, 0xFF, [0xFF; 64]));
}

#[test]
fn basic_lock_reads_back_and_other_targets_are_untouched() {
    let mut pool = ParameterLockPool::default();
    pool.set_basic_plock(0, 1, 0x10, 7).unwrap();
    pool.set_basic_plock(2, 3, 0x11, 9).unwrap();
    assert_eq!(pool.get_basic_plock(0, 1, 0x10), Some(7));
    assert_eq!(pool.get_basic_plock(2, 3, 0x11), Some(9));
    assert_eq!(pool.get_basic_plock(1, 1, 0x10), Some(0xFF));
    assert_eq!(pool.get_basic_plock(0, 4, 0x10), None);
    pool.set_basic_plock(0, 1, 0x10, 8).unwrap();
    assert_eq!(pool.get_basic_plock(0, 1, 0x10), Some(8));
    assert_eq!(pool.get_basic_plock(2, 3, 0x11), Some(9));
}

#[test]
fn clearing_the_only_basic_lock_releases_its_slot() {
    let mut pool = ParameterLockPool::default();
    pool.set_basic_plock(4, 2, 0x05, 33).unwrap();
    pool.set_basic_plock(6, 2, 0x05, 34).unwrap();
    pool.clear_basic_plock(4, 2, 0x05);
    assert_eq!(pool.get_basic_plock(4, 2, 0x05), Some(0xFF));
    assert_eq!(pool.get_basic_plock(6, 2, 0x05), Some(34));
    pool.clear_basic_plock(6, 2, 0x05);
    assert_eq!(pool.get_basic_plock(6, 2, 0x05), None);
    assert!(pool
        .inner
        .iter()
        .all(|slot| slot.track_nr == 0xFF && slot.plock_type == 0xFF));
}

#[test]
fn full_pool_rejects_new_basic_targets() {
    let mut pool = ParameterLockPool::default();
    for index in 0..72u8 {
        pool.set_basic_plock(0, index % 12, index, 1).unwrap();
    }
    assert_eq!(
        pool.set_basic_plock(0, 0, 0x70, 1),
        Err(RytmError::ParameterLockMemoryFull)
    );
    // An existing target is still updated in place.
    pool.set_basic_plock(1, 0, 0, 5).unwrap();
    assert_eq!(pool.get_basic_plock(1, 0, 0), Some(5));
}

#[test]
fn compound_lock_reads_back_and_clears_with_its_companion() {
    let mut pool = ParameterLockPool::default();
    pool.set_compound_plock(10, 4, 0x20, 0x1234).unwrap();
    assert_eq!(pool.get_compound_plock(10, 4, 0x20), Some(0x1234));
    pool.set_compound_plock(11, 4, 0x20, 0xABCD).unwrap();
    assert_eq!(pool.get_compound_plock(11, 4, 0x20), Some(0xABCD));
    assert_eq!(pool.get_compound_plock(10, 4, 0x20), Some(0x1234));
    pool.clear_compound_plock(10, 4, 0x20);
    assert_eq!(pool.get_compound_plock(10, 4, 0x20), Some(0xFFFF));
    pool.clear_compound_plock(11, 4, 0x20);
    assert_eq!(pool.get_compound_plock(11, 4, 0x20), None);
    assert!(pool
        .inner
        .iter()
        .all(|slot| slot.track_nr == 0xFF && slot.plock_type == 0xFF && slot.data == [0xFF; 64]));
}

#[test]
fn compound_set_partitions_free_slots_to_the_end() {
    let mut pool = ParameterLockPool::default();
    pool.inner[3].track_nr = 1;
    pool.inner[3].plock_type = 2;
    pool.inner[7].track_nr = 5;
    pool.inner[7].plock_type = 6;
    pool.set_compound_plock(0, 9, 0x30, 0x0102).unwrap();
    assert_eq!((pool.inner[0].track_nr, pool.inner[0].plock_type), (1, 2));
    assert_eq!((pool.inner[1].track_nr, pool.inner[1].plock_type), (5, 6));
    assert_eq!((pool.inner[2].track_nr, pool.inner[2].plock_type), (9, 0x30));
    assert_eq!((pool.inner[3].track_nr, pool.inner[3].plock_type), (128, 128));
    assert_eq!(pool.get_compound_plock(0, 9, 0x30), Some(0x0102));
}

#[test]
fn compound_set_on_a_pool_without_a_free_last_slot_is_memory_full() {
    let mut pool = ParameterLockPool::default();
    for slot in pool.inner.iter_mut() {
        slot.track_nr = 1;
        slot.plock_type = 1;
    }
    assert_eq!(
        pool.set_compound_plock(0, 2, 2, 5),
        Err(RytmError::ParameterLockMemoryFull)
    );
}

#[test]
fn fx_locks_use_the_fx_track() {
    let mut pool = ParameterLockPool::default();
    pool.set_fx_basic_plock(1, 0x03, 40).unwrap();
    assert_eq!(pool.get_fx_basic_plock(1, 0x03), Some(40));
    assert_eq!(pool.get_basic_plock(1, 12, 0x03), Some(40));
    pool.set_fx_compound_plock(2, 0x04, 0x0203).unwrap();
    assert_eq!(pool.get_fx_compound_plock(2, 0x04), Some(0x0203));
    pool.clear_fx_basic_plock(1, 0x03);
    assert_eq!(pool.get_fx_basic_plock(1, 0x03), None);
    pool.clear_fx_compound_plock(2, 0x04);
    assert_eq!(pool.get_fx_compound_plock(2, 0x04), None);
}

#[test]
fn clearing_a_track_keeps_other_tracks() {
    let mut pool = ParameterLockPool::default();
    pool.set_basic_plock(0, 1, 0x10, 7).unwrap();
    pool.set_basic_plock(0, 2, 0x10, 8).unwrap();
    pool.clear_all_plocks_for_track(1);
    assert_eq!(pool.get_basic_plock(0, 1, 0x10), None);
    assert_eq!(pool.get_basic_plock(0, 2, 0x10), Some(8));
    pool.clear_all_plocks();
    assert_eq!(pool.get_basic_plock(0, 2, 0x10), None);
    assert!(pool.inner.iter().all(|slot| slot.data == [0xFF; 64]));
}

#[test]
fn compound_set_with_one_free_slot_is_memory_full() {
    let mut pool = ParameterLockPool::default();
    for slot in pool.inner.iter_mut().take(71) {
        slot.track_nr = 1;
        slot.plock_type = 1;
    }
    assert_eq!(
        pool.set_compound_plock(0, 2, 2, 5),
        Err(RytmError::ParameterLockMemoryFull)
    );
    assert!(pool.inner[..71]
        .iter()
        .all(|slot| slot.track_nr == 1 && slot.plock_type == 1));
    assert_eq!((pool.inner[71].track_nr, pool.inner[71].plock_type), (0xFF, 0xFF));
}
