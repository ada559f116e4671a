use multitrack_recorder::json::{metadata_to_json, parse_i64, parse_metadata, parse_u64, push_dec_i64, push_dec_u64};
use multitrack_recorder::types::{ParticipantMetadata, RecordingMetadata};

fn sample_metadata() -> RecordingMetadata {
    RecordingMetadata {
        id: "recording-room-1-stamp".to_string(),
        room_id: "room-1".to_string(),
        started_at: 1_000,
        stopped_at: Some(10_500),
        duration_seconds: 9,
        participants: vec![ParticipantMetadata {
            id: "p1".to_string(),
            name: "John \"JD\" Doe\n".to_string(),
            audio_file: Some("/tmp/recording-room-1-stamp/p1-John__JD__Doe_-audio.webm".to_string()),
            video_file: None,
            joined_at: 1_050,
            left_at: Some(10_500),
        }],
        output_directory: "/tmp/recording-room-1-stamp".to_string(),
    }
}

#[test]
fn empty_session_document_is_exact() {
    let m = RecordingMetadata {
        id: "recording-r-s".to_string(),
        room_id: "r".to_string(),
        started_at: -2,
        stopped_at: None,
        duration_seconds: 0,
        participants: Vec::new(),
        output_directory: "/tmp/recording-r-s".to_string(),
    };
    let doc = metadata_to_json(&m);
    let expected = "{\n  \"id\": \"recording-r-s\",\n  \"room_id\": \"r\",\n  \"started_at\": -2,\n  \"stopped_at\": null,\n  \"duration_seconds\": 0,\n  \"participants\": {},\n  \"output_directory\": \"/tmp/recording-r-s\"\n}";
    assert_eq!(doc, expected);
}

#[test]
fn document_round_trips_through_a_json_parser() {
    let m = sample_metadata();
    let doc = metadata_to_json(&m);
    let value: serde_json::Value = serde_json::from_str(&doc).unwrap();
    assert_eq!(value.get("id").unwrap().as_str(), Some("recording-room-1-stamp"));
    assert_eq!(value.get("room_id").unwrap().as_str(), Some("room-1"));
    assert_eq!(value.get("started_at").unwrap().as_i64(), Some(1_000));
    assert_eq!(value.get("stopped_at").unwrap().as_i64(), Some(10_500));
    assert_eq!(value.get("duration_seconds").unwrap().as_u64(), Some(9));
    assert_eq!(
        value.get("output_directory").unwrap().as_str(),
        Some("/tmp/recording-room-1-stamp")
    );
    let participants = value.get("participants").unwrap().as_object().unwrap();
    assert_eq!(participants.len(), 1);
    let p = participants.get("p1").unwrap();
    assert_eq!(p.get("id").unwrap().as_str(), Some("p1"));
    // The escaped quotes and newline survive the round trip.
    assert_eq!(p.get("name").unwrap().as_str(), Some("John \"JD\" Doe\n"));
    assert_eq!(
        p.get("audio_file").unwrap().as_str(),
        Some("/tmp/recording-room-1-stamp/p1-John__JD__Doe_-audio.webm")
    );
    assert!(p.get("video_file").unwrap().is_null());
    assert_eq!(p.get("joined_at").unwrap().as_i64(), Some(1_050));
    assert_eq!(p.get("left_at").unwrap().as_i64(), Some(10_500));
}

#[test]
fn library_parses_its_own_documents_back() {
    let m = sample_metadata();
    let doc = metadata_to_json(&m);
    let parsed = parse_metadata(&doc).unwrap();
    assert_eq!(parsed.id, m.id);
    assert_eq!(parsed.room_id, m.room_id);
    assert_eq!(parsed.started_at, m.started_at);
    assert_eq!(parsed.stopped_at, m.stopped_at);
    assert_eq!(parsed.duration_seconds, m.duration_seconds);
    assert_eq!(parsed.output_directory, m.output_directory);
    assert_eq!(parsed.participants.len(), m.participants.len());
    let (p, q) = (&parsed.participants[0], &m.participants[0]);
    assert_eq!(p.id, q.id);
    assert_eq!(p.name, q.name);
    assert_eq!(p.audio_file, q.audio_file);
    assert_eq!(p.video_file, q.video_file);
    assert_eq!(p.joined_at, q.joined_at);
    assert_eq!(p.left_at, q.left_at);

    // Only whole canonical documents parse.
    assert!(parse_metadata(&format!("{} ", doc)).is_none());
    assert!(parse_metadata("{}").is_none());
    assert!(parse_metadata("").is_none());
}

#[test]
fn document_escapes_are_canonical() {
    let m = sample_metadata();
    let doc = metadata_to_json(&m);
    assert!(doc.contains("\"name\": \"John \\\"JD\\\" Doe\\n\""));
    assert!(doc.contains("\"video_file\": null"));
}

#[test]
fn decimal_formatting_is_exact() {
    let mut out = String::new();
    push_dec_u64(&mut out, 0);
    out.push(' ');
    push_dec_u64(&mut out, 10);
    out.push(' ');
    push_dec_u64(&mut out, 18_446_744_073_709_551_615);
    assert_eq!(out, "0 10 18446744073709551615");

    let mut signed = String::new();
    push_dec_i64(&mut signed, -9_223_372_036_854_775_808);
    signed.push(' ');
    push_dec_i64(&mut signed, 42);
    assert_eq!(signed, "-9223372036854775808 42");
}

#[test]
fn decimal_parsing_is_exact() {
    assert_eq!(parse_u64("0"), Some(0));
    assert_eq!(parse_u64("123"), Some(123));
    assert_eq!(parse_u64("18446744073709551615"), Some(u64::MAX));
    assert_eq!(parse_u64("18446744073709551616"), None);
    assert_eq!(parse_u64(""), None);
    assert_eq!(parse_u64("12a"), None);
    assert_eq!(parse_u64("-1"), None);

    assert_eq!(parse_i64("-42"), Some(-42));
    assert_eq!(parse_i64("9223372036854775807"), Some(i64::MAX));
    assert_eq!(parse_i64("-9223372036854775808"), Some(i64::MIN));
    assert_eq!(parse_i64("9223372036854775808"), None);
    assert_eq!(parse_i64("-"), None);
    assert_eq!(parse_i64("--1"), None);
}
