use rytm_rs::error::{
    CompatibilityReason, CompatibilityValue, ParameterError, ParameterName, RytmError,
    SysexConversionError,
};
use rytm_rs::object::song::{
    decode_rows, Song, SongPattern, SongRow, NAME_LENGTH, NAME_OFFSET, PATTERN_RECORD_SIZE,
    PATTERN_TABLE_OFFSET, ROW_TABLE_OFFSET,
};
use rytm_rs::sysex::{SysexMeta, SONG_RAW_SIZE};

fn range(value: usize, parameter_name: ParameterName) -> RytmError {
    RytmError::Parameter(ParameterError::Range {
        value,
        parameter_name,
    })
}

/// A decoded work-buffer Song whose unidentified bytes are all set, with no active row.
fn busy_work_buffer_raw() -> [u8; SONG_RAW_SIZE] {
    let mut raw = [0u8; SONG_RAW_SIZE];
    for (i, byte) in raw.iter_mut().enumerate() {
        *byte = ((i * 7 + 3) % 251) as u8;
    }
    for row in 0..64 {
        raw[ROW_TABLE_OFFSET + 4 * row + 1] = 0;
        raw[ROW_TABLE_OFFSET + 4 * row + 3] = 0;
    }
    raw[ROW_TABLE_OFFSET] = 0;
    raw[ROW_TABLE_OFFSET + 2] = 0;
    raw
}

#[test]
fn connected_empty_fixture_is_typed_and_byte_stable() {
    let song = Song::work_buffer_default_with_device_id(0);
    assert!(song.is_work_buffer());
    assert!(song.name().is_empty());
    assert!(song.rows().unwrap().is_empty());
    assert_eq!(song.raw_bytes().len(), SONG_RAW_SIZE);
    let again = Song::try_from_raw(song.sysex_meta(), song.raw_bytes()).unwrap();
    assert_eq!(again.raw_bytes(), song.raw_bytes());
}

#[test]
fn rows_repeats_patterns_and_mutes_round_trip() {
    let mut first = SongPattern::try_new(0).unwrap();
    first.set_track_muted(0, true).unwrap();
    first.set_track_muted(11, true).unwrap();
    let second = SongPattern::try_new(17).unwrap();
    let rows = vec![
        SongRow::try_new(vec![first, second], 3).unwrap(),
        SongRow::try_new(vec![SongPattern::try_new(127).unwrap()], 1).unwrap(),
    ];
    let mut song = Song::try_default(2).unwrap();
    song.set_name("AGENT SONG").unwrap();
    song.replace_rows(&rows).unwrap();

    let decoded = Song::try_from_raw(song.sysex_meta(), song.raw_bytes()).unwrap();
    assert_eq!(decoded.index(), 2);
    assert_eq!(decoded.name(), "AGENT SONG");
    assert_eq!(decoded.rows().unwrap(), rows);
    assert!(decoded.rows().unwrap()[0].patterns()[0]
        .is_track_muted(0)
        .unwrap());
    assert!(decoded.rows().unwrap()[0].patterns()[0]
        .is_track_muted(11)
        .unwrap());
}

#[test]
fn semantic_mutations_preserve_unidentified_regions() {
    let meta = Song::work_buffer_default_with_device_id(0).sysex_meta();
    let mut song = Song::try_from_raw(meta, &busy_work_buffer_raw()).unwrap();
    let baseline = *song.raw_bytes();
    song.set_name("TEST").unwrap();
    song.replace_rows(&[SongRow::try_new(vec![SongPattern::try_new(4).unwrap()], 2).unwrap()])
        .unwrap();

    let allowed: Vec<usize> = (NAME_OFFSET..NAME_OFFSET + NAME_LENGTH)
        .chain([ROW_TABLE_OFFSET + 1, ROW_TABLE_OFFSET + 3])
        .chain(PATTERN_TABLE_OFFSET..PATTERN_TABLE_OFFSET + PATTERN_RECORD_SIZE)
        .collect();
    for (offset, (before, after)) in baseline.iter().zip(song.raw_bytes()).enumerate() {
        if before != after {
            assert!(
                allowed.contains(&offset),
                "unexpected mutation at {offset:#06x}"
            );
        }
    }
}

#[test]
fn unsupported_arranger_fields_are_explicit() {
    let capabilities = Song::try_default(0).unwrap().capabilities();
    assert!(capabilities.rows);
    assert!(capabilities.repeats);
    assert!(capabilities.track_mutes);
    assert!(!capabilities.tempo_overrides);
    assert!(!capabilities.jumps);
    assert!(!capabilities.loops);
    assert!(!capabilities.explicit_end);
}

#[test]
fn capacities_and_ranges_are_enforced() {
    assert!(SongPattern::try_new(128).is_err());
    assert!(SongRow::try_new(Vec::new(), 1).is_err());
    assert!(SongRow::try_new(vec![SongPattern::try_new(0).unwrap()], 257).is_err());
    let row = SongRow::try_new(vec![SongPattern::try_new(0).unwrap(); 255], 1).unwrap();
    let mut song = Song::try_default(0).unwrap();
    assert!(song.replace_rows(&[row.clone(), row]).is_err());

    let mut invalid_raw = *Song::try_default(0).unwrap().raw_bytes();
    invalid_raw[ROW_TABLE_OFFSET + 1] = 1;
    invalid_raw[PATTERN_TABLE_OFFSET + 3] = 128;
    assert!(decode_rows(&invalid_raw).is_err());
}

#[test]
fn every_song_error_names_its_value() {
    assert_eq!(
        SongPattern::try_new(128),
        Err(range(128, ParameterName::SongPattern))
    );
    assert_eq!(
        SongRow::try_new(Vec::new(), 1),
        Err(range(0, ParameterName::SongRowPatternCount))
    );
    assert_eq!(
        SongRow::try_new(vec![SongPattern::try_new(0).unwrap()], 0),
        Err(range(0, ParameterName::SongRowRepeats))
    );
    assert!(Song::try_default(16).is_err());
    assert_eq!(
        Song::try_default(16).unwrap_err(),
        range(16, ParameterName::SongIndex)
    );
    let row = SongRow::try_new(vec![SongPattern::try_new(0).unwrap()], 1).unwrap();
    let many = vec![row; 65];
    let mut song = Song::try_default(0).unwrap();
    assert_eq!(
        song.replace_rows(&many),
        Err(range(65, ParameterName::SongRowCount))
    );
    let long = SongRow::try_new(vec![SongPattern::try_new(0).unwrap(); 200], 1).unwrap();
    assert_eq!(
        song.replace_rows(&[long.clone(), long]),
        Err(range(400, ParameterName::SongPatternPositionCount))
    );
    assert_eq!(
        song.set_name("SIXTEEN LETTERS!"),
        Err(range(16, ParameterName::ObjectName))
    );
    assert_eq!(
        song.set_name("CAFÉ"),
        Err(RytmError::Parameter(ParameterError::Compatibility {
            value: CompatibilityValue::Number(5),
            parameter_name: ParameterName::ObjectName,
            reason: None,
        }))
    );
    let mut pattern = SongPattern::try_new(0).unwrap();
    assert_eq!(
        pattern.set_muted_tracks_mask(0x1000),
        Err(range(0x1000, ParameterName::SongMutedTracks))
    );
    assert_eq!(
        pattern.is_track_muted(12),
        Err(range(12, ParameterName::SongMuteTrack))
    );
}

#[test]
fn raw_objects_that_are_not_songs_are_refused() {
    let song = Song::try_default(1).unwrap();
    let mut meta = song.sysex_meta();
    assert_eq!(
        Song::try_from_raw(meta, &song.raw_bytes()[..100]),
        Err(RytmError::SysexConversion(SysexConversionError::InvalidSize(
            SONG_RAW_SIZE,
            100
        )))
    );
    meta.obj_type = 0;
    assert_eq!(
        Song::try_from_raw(meta, song.raw_bytes()),
        Err(RytmError::SysexConversion(SysexConversionError::InvalidObjType))
    );
    meta.obj_type = 9;
    assert_eq!(
        Song::try_from_raw(meta, song.raw_bytes()),
        Err(RytmError::SysexConversion(SysexConversionError::InvalidObjType))
    );
}

#[test]
fn row_counts_past_the_pattern_pool_are_a_compatibility_error() {
    let mut raw = *Song::try_default(0).unwrap().raw_bytes();
    raw[ROW_TABLE_OFFSET + 1] = 200;
    raw[ROW_TABLE_OFFSET + 4 + 1] = 100;
    assert_eq!(
        decode_rows(&raw),
        Err(RytmError::Parameter(ParameterError::Compatibility {
            value: CompatibilityValue::Number(300),
            parameter_name: ParameterName::SongPatternPositions,
            reason: Some(CompatibilityReason::SongPoolExceeded),
        }))
    );
    let meta = Song::try_default(0).unwrap().sysex_meta();
    assert!(Song::try_from_raw(meta, &raw).is_err());
}

#[test]
fn decoding_reads_rows_until_the_first_empty_one() {
    let mut raw = *Song::try_default(0).unwrap().raw_bytes();
    raw[ROW_TABLE_OFFSET] = 0xA0;
    raw[ROW_TABLE_OFFSET + 1] = 2;
    raw[ROW_TABLE_OFFSET + 2] = 0x0B;
    raw[ROW_TABLE_OFFSET + 3] = 255;
    raw[ROW_TABLE_OFFSET + 8 + 1] = 1;
    raw[PATTERN_TABLE_OFFSET] = 0xF8;
    raw[PATTERN_TABLE_OFFSET + 1] = 0x01;
    raw[PATTERN_TABLE_OFFSET + 2] = 0x44;
    raw[PATTERN_TABLE_OFFSET + 3] = 5;
    raw[PATTERN_TABLE_OFFSET + 7] = 6;
    let rows = decode_rows(&raw).unwrap();
    assert_eq!(rows.len(), 1);
    assert_eq!(rows[0].repeats(), 256);
    assert_eq!(rows[0].unknown_prefix(), 0xA0);
    assert_eq!(rows[0].unknown_flags(), 0x0B);
    let patterns = rows[0].patterns();
    assert_eq!(patterns.len(), 2);
    assert_eq!(patterns[0].pattern(), 5);
    assert_eq!(patterns[0].muted_tracks_mask(), 0x0801);
    assert_eq!(patterns[0].unknown_mute_bits(), 0xF000);
    assert_eq!(patterns[0].unknown_flags(), 0x44);
    assert!(patterns[0].is_track_muted(0).unwrap());
    assert!(patterns[0].is_track_muted(11).unwrap());
    assert!(!patterns[0].is_track_muted(1).unwrap());
    assert_eq!(patterns[1].pattern(), 6);
}

#[test]
fn written_rows_read_back_and_clear_removes_them() {
    let meta = Song::work_buffer_default_with_device_id(3).sysex_meta();
    let mut song = Song::try_from_raw(meta, &busy_work_buffer_raw()).unwrap();
    let mut pattern = SongPattern::try_new(100).unwrap();
    pattern.set_muted_tracks_mask(0x0A5A).unwrap();
    let rows = vec![
        SongRow::try_new(vec![pattern; 3], 256).unwrap(),
        SongRow::try_new(vec![SongPattern::try_new(1).unwrap()], 7).unwrap(),
        SongRow::try_new(vec![SongPattern::try_new(2).unwrap(); 4], 1).unwrap(),
    ];
    song.replace_rows(&rows).unwrap();
    assert_eq!(song.rows().unwrap(), rows);
    assert_eq!(song.raw_bytes()[ROW_TABLE_OFFSET + 3], 255);
    song.clear();
    assert!(song.rows().unwrap().is_empty());
    for row in 0..64 {
        assert_eq!(song.raw_bytes()[ROW_TABLE_OFFSET + 4 * row + 1], 0);
        assert_eq!(song.raw_bytes()[ROW_TABLE_OFFSET + 4 * row + 3], 0);
    }
    assert_eq!(song.raw_bytes()[0x118 + 3], 100);
}

#[test]
fn names_are_trimmed_and_invalid_utf8_reads_as_empty() {
    let mut raw = *Song::try_default(0).unwrap().raw_bytes();
    raw[NAME_OFFSET..NAME_OFFSET + 6].copy_from_slice(b"KICK  ");
    let meta = Song::try_default(0).unwrap().sysex_meta();
    let song = Song::try_from_raw(meta, &raw).unwrap();
    assert_eq!(song.name(), "KICK");
    raw[NAME_OFFSET] = 0xFF;
    let song = Song::try_from_raw(meta, &raw).unwrap();
    assert_eq!(song.name(), "");
    let mut song = Song::try_default(0).unwrap();
    song.set_name("FIFTEEN LETTERS").unwrap();
    assert_eq!(song.name(), "FIFTEEN LETTERS");
    assert_eq!(&song.raw_header()[NAME_OFFSET..NAME_OFFSET + NAME_LENGTH], b"FIFTEEN LETTERS");
    song.set_name("A").unwrap();
    assert_eq!(song.name(), "A");
    assert_eq!(song.raw_header()[NAME_OFFSET + 1], 0);
    assert_eq!(song.raw_header().len(), 24);
}

#[test]
fn defaults_and_device_ids() {
    let song = Song::try_default_with_device_id(15, 9).unwrap();
    assert_eq!(song.index(), 15);
    assert!(!song.is_work_buffer());
    assert_eq!(song.sysex_meta().dev_id, 9);
    assert_eq!(song.raw_bytes()[0x15], 1);
    assert_eq!(song.raw_bytes().iter().filter(|byte| **byte != 0).count(), 1);
    let mut buffer = Song::work_buffer_default_with_device_id(2);
    assert!(buffer.is_work_buffer());
    assert_eq!(buffer.index(), 0);
    buffer.set_device_id(5);
    assert_eq!(buffer.sysex_meta().dev_id, 5);
    assert_eq!(buffer.sysex_meta().obj_nr, 0x80);
}

#[test]
fn song_patterns_keep_unidentified_mute_bits() {
    let mut raw = *Song::try_default(0).unwrap().raw_bytes();
    raw[ROW_TABLE_OFFSET + 1] = 1;
    raw[PATTERN_TABLE_OFFSET] = 0x90;
    raw[PATTERN_TABLE_OFFSET + 1] = 0x00;
    let rows = decode_rows(&raw).unwrap();
    let mut pattern = rows[0].patterns()[0];
    pattern.set_muted_tracks_mask(0x0003).unwrap();
    assert_eq!(pattern.unknown_mute_bits(), 0x9000);
    assert_eq!(pattern.muted_tracks_mask(), 0x0003);
    pattern.set_track_muted(0, false).unwrap();
    assert_eq!(pattern.muted_tracks_mask(), 0x0002);
    assert_eq!(pattern.unknown_mute_bits(), 0x9000);
    pattern.set_pattern(127).unwrap();
    assert_eq!(pattern.pattern(), 127);
    assert!(pattern.set_pattern(128).is_err());
    let mut row = rows[0].clone();
    row.patterns_mut()[0] = pattern;
    assert_eq!(row.patterns()[0].pattern(), 127);
    row.set_repeats(12).unwrap();
    assert_eq!(row.repeats(), 12);
    assert!(row.set_repeats(0).is_err());
    assert!(row.set_patterns(Vec::new()).is_err());
    row.set_patterns(vec![pattern, pattern]).unwrap();
    assert_eq!(row.patterns().len(), 2);
}
