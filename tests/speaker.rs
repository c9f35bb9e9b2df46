use wavcast::speaker::{sample_or_silence, decimal_string, device_label, device_labels, fill_frames, find_device, sample_channel};

#[test]
fn decimal_notation() {
    assert_eq!(decimal_string(0), "0");
    assert_eq!(decimal_string(7), "7");
    assert_eq!(decimal_string(10), "10");
    assert_eq!(decimal_string(1234), "1234");
}

#[test]
fn unnamed_devices_get_a_numbered_label() {
    assert_eq!(device_label(3, &None), "Unknown Device 3");
    assert_eq!(device_label(0, &Some("Speakers".to_string())), "Speakers");
    let names = vec![Some("A".to_string()), None, Some("C".to_string())];
    assert_eq!(device_labels(&names), vec!["A", "Unknown Device 1", "C"]);
}

#[test]
fn devices_are_found_by_label() {
    let names = vec![Some("A".to_string()), None, Some("A".to_string())];
    assert_eq!(find_device(&names, "A"), Some(0));
    assert_eq!(find_device(&names, "Unknown Device 1"), Some(1));
    assert_eq!(find_device(&names, "Unknown Device 0"), None);
    assert_eq!(find_device(&names, "B"), None);
}

#[test]
fn frames_duplicate_one_sample_and_fall_back_to_silence() {
    let (mut feed, mut tap) = sample_channel(8);
    assert_eq!(feed.push_if_room(&[1, 2, 3]), Some(3));
    let mut out = [9i16; 8];
    fill_frames(&mut tap, &mut out, 2);
    assert_eq!(out, [1, 1, 2, 2, 3, 3, 0, 0]);
}

#[test]
fn batch_larger_than_room_waits() {
    let (mut feed, mut tap) = sample_channel(4);
    assert_eq!(feed.push_if_room(&[1, 2, 3]), Some(3));
    assert_eq!(feed.push_if_room(&[4, 5]), None);
    assert_eq!(tap.next_sample(), 1);
    assert_eq!(feed.push_if_room(&[4, 5]), Some(2));
    assert_eq!(tap.next_sample(), 2);
}

#[test]
fn odd_tail_frame_is_filled() {
    let (mut feed, mut tap) = sample_channel(4);
    feed.push_if_room(&[7, 8]);
    let mut out = [0i16; 3];
    fill_frames(&mut tap, &mut out, 2);
    assert_eq!(out, [7, 7, 8]);
}

#[test]
fn each_sample_fills_every_channel_of_its_frame() {
    let (mut feed, mut tap) = sample_channel(16);
    assert_eq!(feed.push_if_room(&[-4, 6]), Some(2));
    let mut out = [1i16; 9];
    fill_frames(&mut tap, &mut out, 3);
    assert_eq!(out, [-4, -4, -4, 6, 6, 6, 0, 0, 0]);
}

#[test]
fn popped_sample_or_silence() {
    assert_eq!(sample_or_silence(Some(-7)), -7);
    assert_eq!(sample_or_silence(None), 0);
}

#[test]
fn empty_batch_always_fits() {
    let (mut feed, _tap) = sample_channel(1);
    assert_eq!(feed.push_if_room(&[5]), Some(1));
    assert_eq!(feed.push_if_room(&[]), Some(0));
    assert_eq!(feed.push_if_room(&[6]), None);
}
