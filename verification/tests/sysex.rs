use rytm_rs::error::{ParameterError, ParameterName, RytmError, SysexConversionError};
use rytm_rs::sysex::{
    check_response_shape, codec_outcome, AnySysexType, RawSysexObject, SysexCompatible,
    SysexMeta, SysexType, SONG_SYSEX_SIZE, SOUND_SYSEX_SIZE,
};

/// A framed response of `len` bytes with a valid checksum and encoded size.
fn framed_response(len: usize, dump_id: u8) -> Vec<u8> {
    let mut bytes = vec![0u8; len];
    bytes[0] = 0xF0;
    bytes[1] = 0x00;
    bytes[2] = 0x20;
    bytes[3] = 0x3C;
    bytes[4] = 0x07;
    bytes[5] = 0x00;
    bytes[6] = dump_id;
    for (i, byte) in bytes.iter_mut().enumerate().take(len - 5).skip(10) {
        *byte = (i % 0x80) as u8;
    }
    let checksum = bytes[10..len - 5]
        .iter()
        .fold(0u16, |sum, byte| sum.wrapping_add(u16::from(*byte)))
        & 0x3FFF;
    bytes[len - 5] = (checksum >> 7) as u8;
    bytes[len - 4] = (checksum & 0x7F) as u8;
    let size = len - 10;
    bytes[len - 3] = (size >> 7) as u8;
    bytes[len - 2] = (size & 0x7F) as u8;
    bytes[len - 1] = 0xF7;
    bytes
}

fn sound_meta() -> SysexMeta {
    SysexMeta {
        container_version: 0x0101,
        dev_id: 0,
        obj_type: 1,
        obj_nr: 3,
        chksum: 0,
        data_size: 0,
    }
}

#[test]
fn object_type_ids_and_dump_ids() {
    assert_eq!(SysexType::try_from_object_type_id(3), Ok(SysexType::Song));
    assert_eq!(SysexType::try_from_object_type_id(0), Ok(SysexType::Kit));
    assert_eq!(
        SysexType::try_from_object_type_id(6),
        Err(RytmError::SysexConversion(SysexConversionError::InvalidObjType))
    );
    assert_eq!(SysexType::try_from_dump_id(0x52), Ok(SysexType::Kit));
    assert_eq!(SysexType::try_from_dump_id(0x5D), Ok(SysexType::Global));
    assert_eq!(
        SysexType::try_from_dump_id(0x51),
        Err(RytmError::SysexConversion(SysexConversionError::InvalidDumpMsgId))
    );
    assert_eq!(SysexType::Song.object_type_id(), 3);
}

#[test]
fn any_sysex_type_bytes_round_trip() {
    assert_eq!(AnySysexType::from(0x55u8), AnySysexType::Known(SysexType::Song));
    assert_eq!(AnySysexType::from(1u8), AnySysexType::Known(SysexType::Sound));
    assert_eq!(AnySysexType::from(0x40u8), AnySysexType::Unknown(0x40));
    assert_eq!(u8::from(AnySysexType::from(0x40u8)), 0x40);
    assert_eq!(u8::from(AnySysexType::from(4u8)), 4);
    assert_eq!(u8::from(AnySysexType::from(0x5Bu8)), 3);
    assert_eq!(AnySysexType::from(SysexType::Kit), AnySysexType::Known(SysexType::Kit));
}

#[test]
fn song_metadata_targets_slots_and_the_work_buffer() {
    let meta = SysexMeta::try_default_for_song(7, Some(2)).unwrap();
    assert_eq!(meta.obj_nr, 7);
    assert_eq!(meta.dev_id, 2);
    assert_eq!(meta.object_type(), Ok(SysexType::Song));
    assert!(!meta.is_targeting_work_buffer());
    assert_eq!(
        SysexMeta::try_default_for_song(16, None),
        Err(RytmError::Parameter(ParameterError::Range {
            value: 16,
            parameter_name: ParameterName::SongIndex,
        }))
    );
    let mut buffer = SysexMeta::default_for_song_in_work_buffer(None);
    assert!(buffer.is_targeting_work_buffer());
    assert_eq!(buffer.get_normalized_object_index(), 0);
    buffer.set_device_id(9);
    assert_eq!(buffer.dev_id, 9);
}

#[test]
fn response_shape_is_checked_before_decoding() {
    assert_eq!(
        check_response_shape(&[0xF0, 0, 0]),
        Err(RytmError::SysexConversion(SysexConversionError::ShortRead))
    );
    assert_eq!(
        check_response_shape(&framed_response(SOUND_SYSEX_SIZE, 0x10)),
        Err(RytmError::SysexConversion(SysexConversionError::InvalidDumpMsgId))
    );
    assert_eq!(
        check_response_shape(&framed_response(SOUND_SYSEX_SIZE, 0x55)),
        Err(RytmError::SysexConversion(SysexConversionError::InvalidSize(
            SONG_SYSEX_SIZE,
            SOUND_SYSEX_SIZE
        )))
    );
    assert_eq!(
        check_response_shape(&framed_response(SONG_SYSEX_SIZE, 0x5B)),
        Ok(SysexType::Song)
    );
}

#[test]
fn codec_return_codes_map_to_errors() {
    assert_eq!(
        codec_outcome(9, vec![1, 2], sound_meta()),
        Err(RytmError::SysexConversion(SysexConversionError::Chksum))
    );
    assert_eq!(
        codec_outcome(200, vec![], sound_meta()),
        Err(RytmError::SysexConversion(SysexConversionError::Unknown(200)))
    );
    assert_eq!(
        codec_outcome(0, vec![1, 2], sound_meta()),
        Ok((vec![1, 2], sound_meta()))
    );
}

#[test]
fn raw_objects_keep_every_byte() {
    let response = framed_response(SOUND_SYSEX_SIZE, 0x53);
    let object = RawSysexObject::from_sysex(&response, Ok(sound_meta())).unwrap();
    assert_eq!(object.bytes(), response.as_slice());
    assert_eq!(object.metadata(), sound_meta());
    assert_eq!(object.sysex_type(), AnySysexType::Known(SysexType::Sound));
    assert_eq!(object.as_sysex().unwrap(), response);
    assert_eq!(object.into_bytes(), response);
}

#[test]
fn raw_objects_reject_broken_envelopes() {
    let response = framed_response(SOUND_SYSEX_SIZE, 0x53);
    let short = &response[..14];
    assert_eq!(
        RawSysexObject::from_sysex(short, Ok(sound_meta())),
        Err(RytmError::SysexConversion(SysexConversionError::ShortRead))
    );
    let mut unframed = response.clone();
    unframed[0] = 0xF1;
    assert_eq!(
        RawSysexObject::from_sysex(&unframed, Ok(sound_meta())),
        Err(RytmError::SysexConversion(SysexConversionError::NotASysexMsg))
    );
    let mut eight_bit = response.clone();
    eight_bit[20] = 0x80;
    assert_eq!(
        RawSysexObject::from_sysex(&eight_bit, Ok(sound_meta())),
        Err(RytmError::SysexConversion(SysexConversionError::NotASysexMsg))
    );
    let mut corrupted = response.clone();
    corrupted[20] ^= 0x01;
    assert_eq!(
        RawSysexObject::from_sysex(&corrupted, Ok(sound_meta())),
        Err(RytmError::SysexConversion(SysexConversionError::Chksum))
    );
    let mut resized = response.clone();
    let len = resized.len();
    resized[len - 2] ^= 0x01;
    assert_eq!(
        RawSysexObject::from_sysex(&resized, Ok(sound_meta())),
        Err(RytmError::SysexConversion(SysexConversionError::InvalidSize(
            len - 10,
            (len - 10) ^ 0x01
        )))
    );
    assert_eq!(
        RawSysexObject::from_sysex(
            &response,
            Err(RytmError::SysexConversion(SysexConversionError::Abort))
        ),
        Err(RytmError::SysexConversion(SysexConversionError::Abort))
    );
    let mut unknown_type = sound_meta();
    unknown_type.obj_type = 7;
    assert_eq!(
        RawSysexObject::from_sysex(&response, Ok(unknown_type)),
        Err(RytmError::SysexConversion(SysexConversionError::InvalidObjType))
    );
}
