use rytm_rs::error::{
    CompatibilityReason, CompatibilityValue, CustomError, ParameterError, ParameterName, RytmError,
};
use rytm_rs::object::kit::macros::{
    default_macro_records, MacroParameter, MacroTrack, PerformanceDefinitions, PerformanceLock,
    SceneDefinition, SceneDefinitions, SceneLock, KIT_MACRO_COUNT, KIT_MACRO_LOCK_CAPACITY,
};

#[test]
fn empty_define_replace_clear_and_copy_are_lossless() {
    let mut scenes = SceneDefinitions::default();
    assert_eq!(scenes.definitions().len(), KIT_MACRO_COUNT);
    assert!(scenes.definitions().iter().all(SceneDefinition::is_empty));

    let voice = MacroTrack::try_voice(0).unwrap();
    let tune = MacroParameter::try_from_raw(voice, 8).unwrap();
    let cutoff = MacroParameter::try_from_raw(voice, 20).unwrap();
    scenes
        .set_lock(0, SceneLock::try_new(voice, tune, 65).unwrap())
        .unwrap();
    scenes
        .set_lock(0, SceneLock::try_new(voice, cutoff, 96).unwrap())
        .unwrap();
    assert_eq!(scenes.definition(0).unwrap().lock_count(), 2);

    let before_copy = scenes.raw();
    scenes.copy(0, 1).unwrap();
    assert_eq!(
        scenes.definition(1).unwrap().locks(),
        scenes.definition(0).unwrap().locks()
    );
    assert_eq!(&scenes.raw()[0..8], &before_copy[0..8]);

    scenes
        .replace(1, &[SceneLock::try_new(voice, tune, 64).unwrap()])
        .unwrap();
    assert_eq!(scenes.definition(1).unwrap().lock_count(), 1);
    assert_eq!(scenes.definition(0).unwrap().lock_count(), 2);
    scenes.clear(1).unwrap();
    assert!(scenes.definition(1).unwrap().is_empty());
    assert_eq!(scenes.definition(0).unwrap().lock_count(), 2);
}

#[test]
fn performance_depths_and_fx_targets_round_trip() {
    let mut performances = PerformanceDefinitions::default();
    let delay_feedback = MacroParameter::try_from_raw(MacroTrack::Fx, 3).unwrap();
    let locks = [
        PerformanceLock::try_new(MacroTrack::Fx, delay_feedback, 63).unwrap(),
        PerformanceLock::try_new(
            MacroTrack::try_voice(11).unwrap(),
            MacroParameter::try_from_raw(MacroTrack::try_voice(11).unwrap(), 31).unwrap(),
            -64,
        )
        .unwrap(),
    ];
    performances.replace(11, &locks).unwrap();
    assert_eq!(performances.definition(11).unwrap().locks(), locks);
    assert_eq!(performances.raw()[0..4], [63, 12, 3, 11]);
    assert_eq!(performances.raw()[4..8], [192, 11, 31, 11]);
}

#[test]
fn reserved_and_cross_family_parameters_are_rejected() {
    let voice = MacroTrack::try_voice(0).unwrap();
    assert!(MacroParameter::try_from_raw(voice, 32).is_err());
    assert!(MacroParameter::try_from_raw(MacroTrack::Fx, 20).is_err());
    assert!(MacroParameter::try_from_raw(MacroTrack::Fx, 8).is_ok());
    assert!(MacroParameter::try_from_raw(voice, 8).is_ok());
    assert!(MacroTrack::try_voice(12).is_err());
}

#[test]
fn unknown_records_survive_unrelated_mutations_and_copy() {
    let mut raw = default_macro_records();
    raw[40..44].copy_from_slice(&[200, 31, 250, 3]);
    let mut scenes = SceneDefinitions::from_raw(raw);
    assert_eq!(scenes.definition(3).unwrap().unknown_locks().len(), 1);
    let original = scenes.raw()[40..44].to_vec();
    scenes
        .set_lock(
            0,
            SceneLock::try_new(
                MacroTrack::try_voice(0).unwrap(),
                MacroParameter::try_from_raw(MacroTrack::try_voice(0).unwrap(), 8).unwrap(),
                64,
            )
            .unwrap(),
        )
        .unwrap();
    assert_eq!(scenes.raw()[40..44], original);
    scenes.copy(3, 4).unwrap();
    assert_eq!(scenes.definition(4).unwrap().unknown_locks().len(), 1);
}

#[test]
fn kit_wide_capacity_and_duplicate_targets_are_enforced() {
    let mut performances = PerformanceDefinitions::default();
    for index in 0..KIT_MACRO_LOCK_CAPACITY {
        let macro_id = index / 4;
        let track = MacroTrack::try_voice(macro_id).unwrap();
        let parameter = MacroParameter::try_from_raw(track, (index % 4) as u8).unwrap();
        performances
            .set_lock(
                macro_id,
                PerformanceLock::try_new(track, parameter, 1).unwrap(),
            )
            .unwrap();
    }
    assert_eq!(performances.lock_count(), KIT_MACRO_LOCK_CAPACITY);
    let extra = PerformanceLock::try_new(
        MacroTrack::Fx,
        MacroParameter::try_from_raw(MacroTrack::Fx, 0).unwrap(),
        1,
    )
    .unwrap();
    assert!(performances.set_lock(0, extra).is_err());

    let duplicate = PerformanceLock::try_new(
        MacroTrack::try_voice(0).unwrap(),
        MacroParameter::try_from_raw(MacroTrack::try_voice(0).unwrap(), 8).unwrap(),
        1,
    )
    .unwrap();
    assert!(PerformanceDefinitions::default()
        .replace(0, &[duplicate, duplicate])
        .is_err());
}

#[test]
fn full_lock_memory_is_reported_as_such() {
    let mut scenes = SceneDefinitions::default();
    for index in 0..KIT_MACRO_LOCK_CAPACITY {
        let macro_id = index / 4;
        let track = MacroTrack::try_voice(macro_id).unwrap();
        let parameter = MacroParameter::try_from_raw(track, (index % 4) as u8).unwrap();
        scenes
            .set_lock(macro_id, SceneLock::try_new(track, parameter, 7).unwrap())
            .unwrap();
    }
    let fx = MacroParameter::try_from_raw(MacroTrack::Fx, 0).unwrap();
    assert_eq!(
        scenes.set_lock(0, SceneLock::try_new(MacroTrack::Fx, fx, 1).unwrap()),
        Err(RytmError::Custom(CustomError::KitMacroLockMemoryFull))
    );
    // Setting an existing target again reuses its record.
    let track = MacroTrack::try_voice(0).unwrap();
    let parameter = MacroParameter::try_from_raw(track, 0).unwrap();
    scenes
        .set_lock(0, SceneLock::try_new(track, parameter, 99).unwrap())
        .unwrap();
    assert_eq!(scenes.lock_count(), KIT_MACRO_LOCK_CAPACITY);
    assert_eq!(scenes.definition(0).unwrap().locks()[0].value(), 99);
}

#[test]
fn out_of_range_values_and_ids_name_the_parameter() {
    let track = MacroTrack::try_voice(0).unwrap();
    let parameter = MacroParameter::try_from_raw(track, 8).unwrap();
    assert_eq!(
        SceneLock::try_new(track, parameter, 128),
        Err(RytmError::Parameter(ParameterError::Range {
            value: 128,
            parameter_name: ParameterName::SceneLockValue,
        }))
    );
    assert_eq!(
        MacroTrack::try_voice(12),
        Err(RytmError::Parameter(ParameterError::Range {
            value: 12,
            parameter_name: ParameterName::MacroVoiceTrack,
        }))
    );
    let mut scenes = SceneDefinitions::default();
    assert_eq!(
        scenes.clear(12),
        Err(RytmError::Parameter(ParameterError::Range {
            value: 12,
            parameter_name: ParameterName::MacroId,
        }))
    );
    assert!(scenes.definition(12).is_err());
    assert!(scenes.copy(0, 12).is_err());
}

#[test]
fn replaced_locks_read_back_and_leave_other_macros_alone() {
    let mut scenes = SceneDefinitions::default();
    let track = MacroTrack::try_voice(2).unwrap();
    let first = SceneLock::try_new(track, MacroParameter::try_from_raw(track, 8).unwrap(), 10).unwrap();
    scenes.set_lock(5, first).unwrap();
    let locks = [
        SceneLock::try_new(track, MacroParameter::try_from_raw(track, 9).unwrap(), 1).unwrap(),
        SceneLock::try_new(MacroTrack::Fx, MacroParameter::try_from_raw(MacroTrack::Fx, 8).unwrap(), 2)
            .unwrap(),
    ];
    scenes.replace(6, &locks).unwrap();
    assert_eq!(scenes.definition(6).unwrap().locks(), locks);
    assert_eq!(scenes.definition(5).unwrap().locks(), [first]);
    scenes.clear(6).unwrap();
    assert!(scenes.definition(6).unwrap().is_empty());
    assert_eq!(scenes.definition(5).unwrap().locks(), [first]);
}

#[test]
fn incompatible_parameters_and_duplicates_are_compatibility_errors() {
    let voice = MacroTrack::try_voice(3).unwrap();
    assert_eq!(
        MacroParameter::try_from_raw(MacroTrack::Fx, 20),
        Err(RytmError::Parameter(ParameterError::Compatibility {
            value: CompatibilityValue::Number(20),
            parameter_name: ParameterName::MacroParameter,
            reason: Some(CompatibilityReason::NotAvailableForTrack(MacroTrack::Fx)),
        }))
    );
    let tune = MacroParameter::try_from_raw(voice, 8).unwrap();
    let fx_parameter = MacroParameter::try_from_raw(MacroTrack::Fx, 8).unwrap();
    assert!(fx_parameter.page() != tune.page());
    assert_eq!(
        SceneLock::try_new(MacroTrack::Fx, tune, 1),
        Err(RytmError::Parameter(ParameterError::Compatibility {
            value: CompatibilityValue::PageAndId(tune.page(), 8),
            parameter_name: ParameterName::MacroParameter,
            reason: Some(CompatibilityReason::ExpectedPage(fx_parameter.page())),
        }))
    );
    let lock = PerformanceLock::try_new(voice, tune, 5).unwrap();
    assert_eq!(
        PerformanceDefinitions::default().replace(1, &[lock, lock]),
        Err(RytmError::Parameter(ParameterError::Compatibility {
            value: CompatibilityValue::Target(3, 8),
            parameter_name: ParameterName::MacroLocks,
            reason: Some(CompatibilityReason::DuplicateTargets),
        }))
    );
    assert_eq!(
        CustomError::KitMacroLockMemoryFull.message(),
        "Kit macro lock memory full; at most 48 locks are available"
    );
}

#[test]
fn clearing_twice_is_clearing_once() {
    let mut performances = PerformanceDefinitions::default();
    let track = MacroTrack::try_voice(1).unwrap();
    let parameter = MacroParameter::try_from_raw(track, 2).unwrap();
    performances
        .set_lock(4, PerformanceLock::try_new(track, parameter, -3).unwrap())
        .unwrap();
    performances.clear(4).unwrap();
    let once = performances.raw();
    performances.clear(4).unwrap();
    assert_eq!(performances.raw(), once);
    assert!(performances.definition(4).unwrap().is_empty());
    assert_eq!(performances.lock_count(), 0);
}

#[test]
fn accepted_parameters_have_distinct_known_names() {
    let mut names = Vec::new();
    let voice = MacroTrack::try_voice(0).unwrap();
    for track in [voice, MacroTrack::Fx] {
        for raw_id in 0..=255u8 {
            if let Ok(parameter) = MacroParameter::try_from_raw(track, raw_id) {
                assert_ne!(parameter.name(), "unknown");
                names.push(parameter.name());
            }
        }
    }
    let count = names.len();
    names.sort_unstable();
    names.dedup();
    assert_eq!(names.len(), count);
    assert_eq!(count, 76);
}
