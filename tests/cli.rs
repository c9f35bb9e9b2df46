use wavcast::cli::wav_file_verdict;
use wavcast::cli::{existing_verdict, name_verdict, parent_verdict, parse_existing_wav, SpeakerDevice, WavFile};

#[test]
fn wav_extension_is_required() {
    let err = WavFile::from_str("song.mp3").unwrap_err();
    assert_eq!(err, "File 'song.mp3' does not have a .wav extension. Only wav files are supported.");
    assert!(WavFile::from_str("song").is_err());
    assert!(WavFile::from_str("song.WAV").is_err());
}

#[test]
fn wav_name_in_current_directory_is_accepted() {
    let w = WavFile::from_str("song.wav").unwrap();
    assert_eq!(w.path, "song.wav");
}

#[test]
fn missing_parent_directory_is_refused() {
    let err = WavFile::from_str("no_such_dir_for_wav_files/out.wav").unwrap_err();
    assert_eq!(err, "Parent directory 'no_such_dir_for_wav_files' does not exist");
}

#[test]
fn existing_wav_must_exist() {
    let err = parse_existing_wav("definitely_missing_input.wav").unwrap_err();
    assert_eq!(err, "File 'definitely_missing_input.wav' does not exist");
    assert!(parse_existing_wav("Cargo.toml").is_err());
}

#[test]
fn verdicts_on_given_outcomes() {
    assert_eq!(parent_verdict("d", false, false).unwrap_err(), "Parent directory 'd' does not exist");
    assert_eq!(parent_verdict("d", true, false).unwrap_err(), "Parent 'd' is not a directory");
    assert!(parent_verdict("d", true, true).is_ok());
    assert_eq!(name_verdict("a.wav", &Some("wav".to_string())).unwrap().path, "a.wav");
    assert!(name_verdict("a.wa", &Some("wa".to_string())).is_err());
    assert!(name_verdict("a", &None).is_err());
    let w = name_verdict("a.wav", &Some("wav".to_string())).unwrap();
    assert_eq!(existing_verdict(w.clone(), true).unwrap().path, "a.wav");
    assert_eq!(existing_verdict(w, false).unwrap_err(), "File 'a.wav' does not exist");
}

#[test]
fn speaker_device_must_be_offered() {
    let available = vec!["Built-in".to_string(), "USB DAC".to_string()];
    assert_eq!(SpeakerDevice::from_name("USB DAC", &available).unwrap().name, "USB DAC");
    assert_eq!(
        SpeakerDevice::from_name("HDMI", &available).unwrap_err(),
        "Speaker device 'HDMI' not found.\n Use the list-available-speakers command to see available devices."
    );
}

#[test]
fn parent_error_comes_before_name_error() {
    let err = wav_file_verdict("d/a.mp3", Err("Parent 'd' is not a directory".to_string()), &Some("mp3".to_string()));
    assert_eq!(err.unwrap_err(), "Parent 'd' is not a directory");
    assert_eq!(wav_file_verdict("d/a.wav", Ok(()), &Some("wav".to_string())).unwrap().path, "d/a.wav");
    assert!(wav_file_verdict("d/a.mp3", Ok(()), &Some("mp3".to_string())).is_err());
}
