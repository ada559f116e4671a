use multitrack_recorder::recorder::RecordingManager;
use multitrack_recorder::types::{RecordingConfig, RecordingError, RecordingStatus};

fn test_config(room: &str) -> RecordingConfig {
    RecordingConfig {
        room_id: room.to_string(),
        output_dir: "/tmp".to_string(),
        ..Default::default()
    }
}

#[test]
fn test_recording_lifecycle() {
    let mut manager = RecordingManager::new();

    // Initially idle
    assert!(matches!(manager.get_status(), RecordingStatus::Idle));

    // Start recording
    let config = RecordingConfig {
        room_id: "test-room".to_string(),
        output_dir: "/tmp".to_string(),
        ..Default::default()
    };

    let _ = manager.start_recording(config);
}

#[test]
fn start_returns_prefixed_recording_id() {
    let mut manager = RecordingManager::new();
    let id = manager
        .start_at(test_config("room-1"), 1_000, "2024-01-02_03-04-05")
        .unwrap();
    assert!(id.starts_with("recording-room-1-"));
    assert_eq!(id, "recording-room-1-2024-01-02_03-04-05");
    assert_eq!(manager.get_recording_id(), Some(id));
}

#[test]
fn start_with_wall_clock_stamps_the_id() {
    let mut manager = RecordingManager::new();
    let id = manager.start_recording(test_config("room-1")).unwrap();
    assert!(id.starts_with("recording-room-1-"));
    // The timestamp label is `YYYY-MM-DD_HH-MM-SS`: 19 characters.
    assert_eq!(id.len(), "recording-room-1-".len() + 19);
}

#[test]
fn start_fails_when_not_idle() {
    let mut manager = RecordingManager::new();
    manager.start_at(test_config("a"), 0, "s").unwrap();
    let again = manager.start_at(test_config("b"), 1, "t");
    assert!(matches!(again, Err(RecordingError::AlreadyRecording)));

    // A stopped session does not return to idle: restarting keeps failing.
    manager.stop_at(5_000).unwrap();
    assert!(matches!(manager.get_status(), RecordingStatus::Stopped));
    let after_stop = manager.start_at(test_config("c"), 2, "u");
    assert!(matches!(after_stop, Err(RecordingError::AlreadyRecording)));
}

#[test]
fn pause_and_resume_preserve_start_time() {
    let mut manager = RecordingManager::new();
    manager.start_at(test_config("r"), 1_000, "s").unwrap();
    manager.pause_at(3_000).unwrap();
    match manager.get_status() {
        RecordingStatus::Paused { started_at, paused_at } => {
            assert_eq!(started_at, 1_000);
            assert_eq!(paused_at, 3_000);
        }
        other => panic!("expected paused, got {:?}", other),
    }
    manager.resume_recording().unwrap();
    match manager.get_status() {
        RecordingStatus::Recording { started_at } => assert_eq!(started_at, 1_000),
        other => panic!("expected recording, got {:?}", other),
    }
}

#[test]
fn pause_and_resume_fail_outside_their_states() {
    let mut manager = RecordingManager::new();
    assert!(matches!(manager.pause_at(1), Err(RecordingError::NoActiveRecording)));
    assert!(matches!(manager.resume_recording(), Err(RecordingError::NoActiveRecording)));

    manager.start_at(test_config("r"), 0, "s").unwrap();
    // Resuming while recording fails; pausing twice fails the second time.
    assert!(matches!(manager.resume_recording(), Err(RecordingError::NoActiveRecording)));
    manager.pause_at(10).unwrap();
    assert!(matches!(manager.pause_at(20), Err(RecordingError::NoActiveRecording)));

    manager.stop_at(30).unwrap();
    assert!(matches!(manager.pause_at(40), Err(RecordingError::NoActiveRecording)));
    assert!(matches!(manager.resume_recording(), Err(RecordingError::NoActiveRecording)));
}

#[test]
fn stop_fails_when_idle_or_stopped() {
    let mut manager = RecordingManager::new();
    assert!(matches!(manager.stop_at(1), Err(RecordingError::NoActiveRecording)));
    manager.start_at(test_config("r"), 0, "s").unwrap();
    manager.stop_at(1_000).unwrap();
    assert!(matches!(manager.stop_at(2_000), Err(RecordingError::NoActiveRecording)));
}

#[test]
fn stop_clears_session_state() {
    let mut manager = RecordingManager::new();
    manager.start_at(test_config("r"), 0, "s").unwrap();
    assert!(manager.get_metadata().is_some());
    let metadata = manager.stop_at(9_000).unwrap();
    assert!(matches!(manager.get_status(), RecordingStatus::Stopped));
    assert!(manager.get_metadata().is_none());
    assert!(manager.get_recording_id().is_some());
    assert_eq!(metadata.stopped_at, Some(9_000));
    assert_eq!(metadata.duration_seconds, 9);
}

#[test]
fn duration_ignores_paused_time_and_floors_at_zero() {
    let mut manager = RecordingManager::new();
    manager.start_at(test_config("r"), 1_000, "s").unwrap();
    manager.pause_at(2_000).unwrap();
    manager.resume_recording().unwrap();
    let metadata = manager.stop_at(10_500).unwrap();
    // Wall-clock session age in whole seconds; the pause is not subtracted.
    assert_eq!(metadata.duration_seconds, 9);
    assert_eq!(metadata.started_at, 1_000);

    let mut backwards = RecordingManager::new();
    backwards.start_at(test_config("r"), 5_000, "s").unwrap();
    let metadata = backwards.stop_at(4_000).unwrap();
    assert_eq!(metadata.duration_seconds, 0);
}

#[test]
fn add_participant_twice_creates_one_entry() {
    let mut manager = RecordingManager::new();
    manager.start_at(test_config("r"), 0, "s").unwrap();
    manager
        .add_participant_at("p1".to_string(), "Alice".to_string(), true, false, 10)
        .unwrap();
    manager
        .add_participant_at("p1".to_string(), "Other".to_string(), true, true, 20)
        .unwrap();
    let metadata = manager.stop_at(1_000).unwrap();
    assert_eq!(metadata.participants.len(), 1);
    assert_eq!(metadata.participants[0].id, "p1");
    assert_eq!(metadata.participants[0].name, "Alice");
}

#[test]
fn add_participant_requires_active_session() {
    let mut manager = RecordingManager::new();
    let r = manager.add_participant_at("p1".to_string(), "Alice".to_string(), true, false, 0);
    assert!(matches!(r, Err(RecordingError::NoActiveRecording)));
    manager.start_at(test_config("r"), 0, "s").unwrap();
    manager.stop_at(1).unwrap();
    let r = manager.add_participant_at("p1".to_string(), "Alice".to_string(), true, false, 2);
    assert!(matches!(r, Err(RecordingError::NoActiveRecording)));
}

#[test]
fn ingest_for_unknown_participant_fails() {
    let mut manager = RecordingManager::new();
    manager.start_at(test_config("r"), 0, "s").unwrap();
    let r = manager.add_audio_chunk("unknown", vec![1]);
    match r {
        Err(RecordingError::ParticipantNotFound(id)) => assert_eq!(id, "unknown"),
        other => panic!("expected participant-not-found, got {:?}", other),
    }
}

#[test]
fn ingest_without_pipeline_is_a_silent_no_op() {
    let mut manager = RecordingManager::new();
    manager.start_at(test_config("r"), 0, "s").unwrap();
    manager
        .add_participant_at("p1".to_string(), "Alice".to_string(), true, false, 0)
        .unwrap();
    // No video pipeline was requested: the chunk is dropped without error.
    manager.add_video_chunk("p1", vec![1, 2, 3]).unwrap();
    let metadata = manager.stop_at(1_000).unwrap();
    assert_eq!(metadata.participants[0].video_file, None);
    assert!(metadata.participants[0].audio_file.is_some());
}

#[test]
fn stop_merges_paths_and_leave_times() {
    let mut manager = RecordingManager::new();
    manager.start_at(test_config("room-1"), 0, "stamp").unwrap();
    manager
        .add_participant_at("p1".to_string(), "John Doe".to_string(), true, true, 50)
        .unwrap();
    for _ in 0..3 {
        manager.add_audio_chunk("p1", vec![1, 2, 3]).unwrap();
    }
    let metadata = manager.stop_at(7_000).unwrap();
    let dir = "/tmp/recording-room-1-stamp";
    assert_eq!(metadata.output_directory, dir);
    assert_eq!(metadata.id, "recording-room-1-stamp");
    assert_eq!(metadata.room_id, "room-1");
    let p = &metadata.participants[0];
    assert_eq!(p.joined_at, 50);
    assert_eq!(p.left_at, Some(7_000));
    assert_eq!(
        p.audio_file.as_deref(),
        Some("/tmp/recording-room-1-stamp/p1-John_Doe-audio.webm")
    );
    assert_eq!(
        p.video_file.as_deref(),
        Some("/tmp/recording-room-1-stamp/p1-John_Doe-video.webm")
    );
}

#[test]
fn error_messages_and_tags_are_stable() {
    assert_eq!(
        RecordingError::AlreadyRecording.message(),
        "Recording already in progress"
    );
    assert_eq!(RecordingError::NoActiveRecording.message(), "No active recording");
    assert_eq!(
        RecordingError::ParticipantNotFound("p9".to_string()).message(),
        "Participant not found: p9"
    );
    assert_eq!(
        RecordingError::IoError("disk gone".to_string()).message(),
        "IO error: disk gone"
    );
    assert_eq!(
        RecordingError::TrackError("thread crashed".to_string()).message(),
        "Track error: thread crashed"
    );
    assert_eq!(RecordingError::InvalidChunkData.message(), "Invalid chunk data");
    assert_eq!(
        RecordingError::InvalidConfig("bad room".to_string()).message(),
        "Invalid configuration: bad room"
    );

    let (kind, message) = RecordingError::AlreadyRecording.tagged();
    assert_eq!(kind, "alreadyRecording");
    assert_eq!(message, "Recording already in progress");
    let (kind, _) = RecordingError::InvalidChunkData.tagged();
    assert_eq!(kind, "invalidChunkData");
}
