use wavcast::pacer::{next_phase, StreamPhase};
use wavcast::message::{AudioMessage, AudioSpec, SampleFormat, Serializable};
use wavcast::pacer::{pacing_sleep_micros, samples_payload, spec_payload, Pacer, SAMPLES_PER_GROUP};

fn spec(rate: u32) -> AudioSpec {
    AudioSpec { channels: 2, sample_rate: rate, bits_per_sample: 16, sample_format: SampleFormat::Int }
}

#[test]
fn sleep_time_at_44100() {
    assert_eq!(pacing_sleep_micros(44_100), 18_140);
    assert_eq!(pacing_sleep_micros(48_000), 16_666);
    assert_eq!(pacing_sleep_micros(8_000), 100_000);
}

#[test]
fn sleep_time_at_zero_rate_is_largest() {
    assert_eq!(pacing_sleep_micros(0), u64::MAX);
}

#[test]
fn no_sleep_before_warm_up() {
    let mut pacer = Pacer::new(&spec(44_100));
    let mut batches = 0u64;
    let mut first_sleep_at = None;
    for i in 0..140_000u64 {
        if let Some(batch) = pacer.push_sample((i % 100) as i16) {
            batches += 1;
            let sent = batches * SAMPLES_PER_GROUP as u64;
            if batch.sleep_micros.is_some() && first_sleep_at.is_none() {
                first_sleep_at = Some(sent);
                assert_eq!(batch.sleep_micros, Some(18_140));
            }
            if sent <= 3 * 44_100 {
                assert_eq!(batch.sleep_micros, None);
            }
        }
    }
    assert_eq!(batches, 140);
    assert_eq!(first_sleep_at, Some(133_000));
}

#[test]
fn full_group_is_one_samples_message() {
    let mut pacer = Pacer::new(&spec(44_100));
    for i in 0..999 {
        assert!(pacer.push_sample(i as i16).is_none());
    }
    let batch = pacer.push_sample(999).unwrap();
    let expected: Vec<i16> = (0..1000).map(|i| i as i16).collect();
    assert_eq!(AudioMessage::deserialize(&batch.payload).unwrap(), AudioMessage::Samples(expected));
    assert_eq!(pacer.finish(), None);
}

#[test]
fn partial_group_is_flushed_at_the_end() {
    let mut pacer = Pacer::new(&spec(44_100));
    for i in 0..1003 {
        pacer.push_sample(i as i16);
    }
    let rest = pacer.finish().unwrap();
    assert_eq!(
        AudioMessage::deserialize(&rest).unwrap(),
        AudioMessage::Samples(vec![1000, 1001, 1002])
    );
    assert_eq!(pacer.finish(), None);
}

#[test]
fn spec_payload_is_the_spec_message() {
    let s = spec(48_000);
    let bytes = spec_payload(&s);
    assert_eq!(bytes, vec![0x01, 0x02, 0x00, 0x80, 0xBB, 0x00, 0x00, 0x10, 0x00, 0x02]);
}

#[test]
fn samples_payload_encodes_the_batch() {
    let bytes = samples_payload(&vec![1, -2]).unwrap();
    assert_eq!(bytes, vec![0x02, 0x02, 0x00, 0x00, 0x00, 0x01, 0x00, 0xFE, 0xFF]);
}

#[test]
fn stream_phases_follow_peers_and_source() {
    assert_eq!(next_phase(StreamPhase::AwaitingPeers, 0, false), StreamPhase::AwaitingPeers);
    assert_eq!(next_phase(StreamPhase::AwaitingPeers, 1, false), StreamPhase::Streaming);
    assert_eq!(next_phase(StreamPhase::Streaming, 2, false), StreamPhase::Streaming);
    assert_eq!(next_phase(StreamPhase::Streaming, 2, true), StreamPhase::Draining);
    assert_eq!(next_phase(StreamPhase::Draining, 1, true), StreamPhase::Draining);
    assert_eq!(next_phase(StreamPhase::Draining, 0, true), StreamPhase::Finished);
    assert_eq!(next_phase(StreamPhase::Finished, 3, false), StreamPhase::Finished);
}
