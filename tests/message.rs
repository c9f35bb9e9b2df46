use wavcast::message::{
    AudioMessage, AudioSpec, DeserializationError, SampleFormat, Serializable,
};

fn round_trip(msg: AudioMessage) {
    let mut buf = Vec::new();
    msg.serialize(&mut buf).expect("serialize failed");
    let decoded = AudioMessage::deserialize(&buf).expect("deserialize failed");
    assert_eq!(decoded, msg);
}

fn encode(msg: &AudioMessage) -> Vec<u8> {
    let mut buf = Vec::new();
    msg.serialize(&mut buf).expect("serialize failed");
    buf
}

#[test]
fn audio_message_round_trips() {
    let messages = vec![
        AudioMessage::Spec(AudioSpec {
            channels: 1,
            sample_rate: 44_100,
            bits_per_sample: 16,
            sample_format: SampleFormat::Int,
        }),
        AudioMessage::Spec(AudioSpec {
            channels: 2,
            sample_rate: 48_000,
            bits_per_sample: 32,
            sample_format: SampleFormat::Float,
        }),
        AudioMessage::Samples(vec![]),
        AudioMessage::Samples(vec![0]),
        AudioMessage::Samples(vec![i16::MIN, -1, 0, 1, i16::MAX]),
    ];

    for msg in messages {
        round_trip(msg);
    }
}

#[test]
fn unknown_sample_format_tag_yields_correct_error() {
    let mut bytes = Vec::new();
    bytes.push(1);
    bytes.extend_from_slice(&1u16.to_le_bytes());
    bytes.extend_from_slice(&44_100u32.to_le_bytes());
    bytes.extend_from_slice(&16u16.to_le_bytes());
    bytes.push(99);

    let err = AudioMessage::deserialize(&bytes).unwrap_err();
    assert_eq!(err, DeserializationError::UnknownWaveSpecSampleFormat);
}

#[test]
fn spec_message_has_documented_bytes() {
    let spec = AudioSpec {
        channels: 2,
        sample_rate: 48_000,
        bits_per_sample: 16,
        sample_format: SampleFormat::Int,
    };
    let bytes = encode(&AudioMessage::Spec(spec));
    assert_eq!(bytes, vec![0x01, 0x02, 0x00, 0x80, 0xBB, 0x00, 0x00, 0x10, 0x00, 0x02]);
    assert_eq!(AudioMessage::deserialize(&bytes).unwrap(), AudioMessage::Spec(spec));
}

#[test]
fn float_format_is_tagged_one() {
    let spec = AudioSpec {
        channels: 1,
        sample_rate: 44_100,
        bits_per_sample: 32,
        sample_format: SampleFormat::Float,
    };
    let bytes = encode(&AudioMessage::Spec(spec));
    assert_eq!(bytes, vec![0x01, 0x01, 0x00, 0x44, 0xAC, 0x00, 0x00, 0x20, 0x00, 0x01]);
}

#[test]
fn empty_samples_message_has_documented_bytes() {
    let bytes = encode(&AudioMessage::Samples(vec![]));
    assert_eq!(bytes, vec![0x02, 0x00, 0x00, 0x00, 0x00]);
    assert_eq!(AudioMessage::deserialize(&bytes).unwrap(), AudioMessage::Samples(vec![]));
}

#[test]
fn edge_samples_message_has_documented_bytes() {
    let samples = vec![-32768, -1, 0, 1, 32767];
    let bytes = encode(&AudioMessage::Samples(samples.clone()));
    assert_eq!(
        bytes,
        vec![
            0x02, 0x05, 0x00, 0x00, 0x00, 0x00, 0x80, 0xFF, 0xFF, 0x00, 0x00, 0x01, 0x00, 0xFF,
            0x7F
        ]
    );
    assert_eq!(AudioMessage::deserialize(&bytes).unwrap(), AudioMessage::Samples(samples));
}

#[test]
fn unknown_format_byte_from_documented_frame() {
    let bytes = [0x01, 0x01, 0x00, 0x44, 0xAC, 0x00, 0x00, 0x10, 0x00, 0x63];
    assert_eq!(
        AudioMessage::deserialize(&bytes).unwrap_err(),
        DeserializationError::UnknownWaveSpecSampleFormat
    );
}

#[test]
fn serialize_appends_to_buffer() {
    let mut buf = vec![0xAA];
    AudioMessage::Samples(vec![258]).serialize(&mut buf).unwrap();
    assert_eq!(buf, vec![0xAA, 0x02, 0x01, 0x00, 0x00, 0x00, 0x02, 0x01]);
}

#[test]
fn empty_frame_is_a_length_mismatch() {
    assert_eq!(
        AudioMessage::deserialize(&[]).unwrap_err(),
        DeserializationError::DataLengthMismatch { expected_length: 1, current_length: 0 }
    );
}

#[test]
fn unknown_tag_is_reported() {
    assert_eq!(
        AudioMessage::deserialize(&[7, 0, 0]).unwrap_err(),
        DeserializationError::IncorrectAudioMessageType { kind: 7 }
    );
}

#[test]
fn spec_of_wrong_length_is_reported() {
    assert_eq!(
        AudioMessage::deserialize(&[1, 2, 0, 0x80, 0xBB, 0, 0, 16, 0]).unwrap_err(),
        DeserializationError::DataLengthMismatch { expected_length: 10, current_length: 9 }
    );
}

#[test]
fn short_samples_header_is_reported() {
    assert_eq!(
        AudioMessage::deserialize(&[2, 1, 0]).unwrap_err(),
        DeserializationError::DataLengthMismatch { expected_length: 5, current_length: 3 }
    );
}

#[test]
fn samples_count_disagreeing_with_length_is_reported() {
    assert_eq!(
        AudioMessage::deserialize(&[2, 2, 0, 0, 0, 1, 0]).unwrap_err(),
        DeserializationError::DataLengthMismatch { expected_length: 9, current_length: 7 }
    );
}

#[test]
fn decoded_bytes_encode_back_to_themselves() {
    let inputs: Vec<Vec<u8>> = vec![
        vec![2, 2, 0, 0, 0, 0x34, 0x12, 0xFE, 0xFF],
        vec![1, 6, 0, 0x22, 0x56, 0, 0, 24, 0, 2],
        vec![2, 0, 0, 0, 0],
    ];
    for bytes in inputs {
        let msg = AudioMessage::deserialize(&bytes).unwrap();
        assert_eq!(encode(&msg), bytes);
    }
}

#[test]
fn decoded_sample_values_are_little_endian() {
    let msg = AudioMessage::deserialize(&[2, 2, 0, 0, 0, 0x34, 0x12, 0xFE, 0xFF]).unwrap();
    assert_eq!(msg, AudioMessage::Samples(vec![0x1234, -2]));
}

#[test]
fn oversized_count_with_short_frame_is_a_length_mismatch() {
    let bytes = [0x02, 0xFF, 0xFF, 0xFF, 0xFF];
    assert_eq!(
        AudioMessage::deserialize(&bytes).unwrap_err(),
        DeserializationError::DataLengthMismatch {
            expected_length: 5 + 2 * (u32::MAX as usize),
            current_length: 5
        }
    );
    let bytes = [0x02, 0x00, 0x00, 0x00, 0x80, 0x01];
    assert_eq!(
        AudioMessage::deserialize(&bytes).unwrap_err(),
        DeserializationError::DataLengthMismatch { expected_length: 5 + (1usize << 32), current_length: 6 }
    );
}
