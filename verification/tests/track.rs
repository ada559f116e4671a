use multitrack_recorder::storage::{sanitize_filename, StorageManager};
use multitrack_recorder::track::{TrackRecorder, CHANNEL_BUFFER_SIZE};
use multitrack_recorder::types::RecordingConfig;

#[test]
fn test_sanitize_filename() {
    assert_eq!(sanitize_filename("John Doe"), "John_Doe");
    assert_eq!(sanitize_filename("user@example.com"), "user_example_com");
    assert_eq!(sanitize_filename("test-user_123"), "test-user_123");
}

#[test]
fn sanitize_is_total_and_length_preserving() {
    assert_eq!(sanitize_filename(""), "");
    let odd = "a b\tc\nd/..\\e\u{e9}f";
    let clean = sanitize_filename(odd);
    assert_eq!(clean.chars().count(), odd.chars().count());
    assert!(clean
        .chars()
        .all(|c| c.is_ascii_alphanumeric() || c == '-' || c == '_'));
    assert_eq!(clean, "a_b_c_d____e_f");
}

#[test]
fn storage_layout_is_deterministic() {
    let storage = StorageManager::new_at("/data", "room-7", "2024-06-01_10-00-00");
    assert_eq!(storage.get_recording_id(), "recording-room-7-2024-06-01_10-00-00");
    assert_eq!(
        storage.get_output_dir(),
        "/data/recording-room-7-2024-06-01_10-00-00"
    );
    assert_eq!(
        storage.metadata_path(),
        "/data/recording-room-7-2024-06-01_10-00-00/metadata.json"
    );
}

#[test]
fn writers_resolve_sanitized_paths() {
    let storage = StorageManager::new_at("/data", "r", "s");
    let config = RecordingConfig::default();
    let audio = storage.create_audio_file("p1", "John Doe", &config).unwrap();
    let video = storage.create_video_file("p1", "John Doe").unwrap();
    assert_eq!(
        audio.finalize().unwrap(),
        "/data/recording-r-s/p1-John_Doe-audio.webm"
    );
    assert_eq!(
        video.finalize().unwrap(),
        "/data/recording-r-s/p1-John_Doe-video.webm"
    );
}

#[test]
fn track_counts_bytes_exactly() {
    let storage = StorageManager::new_at("/data", "r", "s");
    let config = RecordingConfig::default();
    let audio = storage.create_audio_file("p1", "Alice", &config).unwrap();
    let mut track = TrackRecorder::new(
        "p1".to_string(),
        "Alice".to_string(),
        &config,
        Some(audio),
        None,
    )
    .unwrap();
    for _ in 0..3 {
        track.add_audio_chunk(vec![1, 2, 3]).unwrap();
    }
    // No video pipeline: dropped silently, still a success.
    track.add_video_chunk(vec![9, 9]).unwrap();
    let result = track.stop().unwrap();
    assert_eq!(result.participant_id, "p1");
    assert_eq!(result.stats.audio_chunks_received, 3);
    assert_eq!(result.stats.audio_bytes_written, 9);
    assert_eq!(result.stats.video_chunks_received, 0);
    assert_eq!(result.stats.video_bytes_written, 0);
    assert!(result.stats.errors.is_empty());
    assert_eq!(
        result.audio_file.as_deref(),
        Some("/data/recording-r-s/p1-Alice-audio.webm")
    );
    assert_eq!(result.video_file, None);
}

#[test]
fn track_records_write_errors_without_stopping() {
    let storage = StorageManager::new_at("/data", "r", "s");
    let config = RecordingConfig::default();
    let audio = storage.create_audio_file("p1", "Alice", &config).unwrap();
    let mut track = TrackRecorder::new(
        "p1".to_string(),
        "Alice".to_string(),
        &config,
        Some(audio),
        None,
    )
    .unwrap();
    track.add_audio_chunk(vec![1]).unwrap();
    track.record_write_error("Audio write error: disk full".to_string());
    track.add_audio_chunk(vec![2]).unwrap();
    let result = track.stop().unwrap();
    assert_eq!(result.stats.audio_chunks_received, 2);
    assert_eq!(result.stats.errors, vec!["Audio write error: disk full".to_string()]);
}

#[test]
fn queue_capacity_matches_the_documented_bound() {
    assert_eq!(CHANNEL_BUFFER_SIZE, 1000);
}
