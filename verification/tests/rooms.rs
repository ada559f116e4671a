use multitrack_recorder::config::Config;
use multitrack_recorder::models::{default_max_participants, Participant, Room};
use multitrack_recorder::rooms::{AppError, RoomStorage, StorageError};

#[test]
fn config_defaults_apply() {
    let c = Config::from_values(None, None, None, None, None).unwrap();
    assert_eq!(c.host, "0.0.0.0");
    assert_eq!(c.port, 3001);
    assert_eq!(c.log_level, "info");
    assert_eq!(c.room_ttl_seconds, 7200);
    assert_eq!(c.cleanup_interval_seconds, 300);
    assert_eq!(c.addr(), "0.0.0.0:3001");
}

#[test]
fn config_parses_given_values() {
    let c = Config::from_values(
        Some("127.0.0.1".to_string()),
        Some("8080".to_string()),
        Some("debug".to_string()),
        Some("-5".to_string()),
        Some("60".to_string()),
    )
    .unwrap();
    assert_eq!(c.host, "127.0.0.1");
    assert_eq!(c.port, 8080);
    assert_eq!(c.log_level, "debug");
    assert_eq!(c.room_ttl_seconds, -5);
    assert_eq!(c.cleanup_interval_seconds, 60);
    assert_eq!(c.addr(), "127.0.0.1:8080");
}

#[test]
fn config_rejects_bad_numbers() {
    let e = Config::from_values(None, Some("99999".to_string()), None, None, None).unwrap_err();
    assert_eq!(e, "invalid PORT");
    let e = Config::from_values(None, None, None, Some("x".to_string()), None).unwrap_err();
    assert_eq!(e, "invalid ROOM_TTL_SECONDS");
    let e = Config::from_values(None, None, None, None, Some("-1".to_string())).unwrap_err();
    assert_eq!(e, "invalid CLEANUP_INTERVAL_SECONDS");
}

#[test]
fn rooms_have_fresh_ids_and_default_servers() {
    let room = Room::new("studio".to_string(), "host-1".to_string(), 2);
    assert_eq!(room.id.len(), 36);
    assert_eq!(room.name, "studio");
    assert_eq!(room.created_by, "host-1");
    assert!(room.participants.is_empty());
    assert_eq!(room.max_participants, 2);
    assert_eq!(room.ice_servers.len(), 2);
    assert_eq!(room.ice_servers[0].urls, vec!["stun:stun.l.google.com:19302".to_string()]);
    assert_eq!(room.ice_servers[1].urls, vec!["stun:stun1.l.google.com:19302".to_string()]);
    assert_eq!(default_max_participants(), 10);
}

#[test]
fn room_capacity_is_enforced() {
    let mut room = Room::new("studio".to_string(), "host-1".to_string(), 2);
    assert!(room.can_join());
    let a = Participant {
        id: "a".to_string(),
        name: "Alice".to_string(),
        joined_at: 1,
        is_host: true,
    };
    let b = Participant {
        id: "b".to_string(),
        name: "Bob".to_string(),
        joined_at: 2,
        is_host: false,
    };
    let c = Participant {
        id: "c".to_string(),
        name: "Cleo".to_string(),
        joined_at: 3,
        is_host: false,
    };
    assert!(room.add_participant(a));
    assert!(room.add_participant(b));
    assert!(!room.can_join());
    assert!(!room.add_participant(c));
    assert_eq!(room.participants.len(), 2);

    let info = room.to_public_info();
    assert_eq!(info.participant_count, 2);
    assert_eq!(info.max_participants, 2);
    assert_eq!(info.id, room.id);
}

#[test]
fn re_adding_a_participant_replaces_the_entry() {
    let mut room = Room::new("studio".to_string(), "host-1".to_string(), 2);
    let a1 = Participant {
        id: "a".to_string(),
        name: "Alice".to_string(),
        joined_at: 1,
        is_host: false,
    };
    let a2 = Participant {
        id: "a".to_string(),
        name: "Alicia".to_string(),
        joined_at: 9,
        is_host: true,
    };
    assert!(room.add_participant(a1));
    assert!(room.add_participant(a2));
    assert_eq!(room.participants.len(), 1);
    assert_eq!(room.participants[0].name, "Alicia");
}

#[test]
fn registry_creates_looks_up_and_deletes_rooms() {
    let mut storage = RoomStorage::with_secret("secret".to_string());
    assert_eq!(storage.jwt_secret(), "secret");
    let room = storage.create_room("studio".to_string(), "host-1".to_string(), 4);

    let found = storage.get_room(&room.id).unwrap();
    assert_eq!(found.id, room.id);
    assert_eq!(found.name, "studio");

    assert!(matches!(storage.get_room("missing"), Err(StorageError::RoomNotFound)));

    let denied = storage.delete_room(&room.id, "someone-else");
    assert!(matches!(denied, Err(StorageError::Unauthorized)));
    storage.delete_room(&room.id, "host-1").unwrap();
    assert!(matches!(storage.get_room(&room.id), Err(StorageError::RoomNotFound)));
}

#[test]
fn registry_join_admits_until_full() {
    let mut storage = RoomStorage::with_secret("secret".to_string());
    let room = storage.create_room("studio".to_string(), "host-1".to_string(), 1);
    let p = storage
        .join_room(&room.id, "Alice".to_string(), false)
        .unwrap();
    assert_eq!(p.name, "Alice");
    assert_eq!(p.id.len(), 36);
    assert!(!p.is_host);
    assert_eq!(storage.get_room(&room.id).unwrap().participants.len(), 1);

    let full = storage.join_room(&room.id, "Bob".to_string(), false);
    assert!(matches!(full, Err(StorageError::RoomFull)));
    let missing = storage.join_room("missing", "Cleo".to_string(), false);
    assert!(matches!(missing, Err(StorageError::RoomNotFound)));
}

#[test]
fn random_secret_is_hexadecimal() {
    let storage = RoomStorage::new();
    let secret = storage.jwt_secret();
    assert_eq!(secret.len(), 64);
    assert!(secret.chars().all(|c| c.is_ascii_hexdigit()));
}

#[test]
fn participants_get_fresh_ids() {
    let p = Participant::new("Alice".to_string(), true);
    assert_eq!(p.id.len(), 36);
    assert_eq!(p.name, "Alice");
    assert!(p.is_host);
}

#[test]
fn app_error_wraps_registry_errors() {
    let (status, message) = AppError::from(StorageError::RoomFull).response_parts();
    assert_eq!(status, 409);
    assert_eq!(message, "Room is full");
    let (status, message) = AppError(StorageError::RoomNotFound).response_parts();
    assert_eq!(status, 404);
    assert_eq!(message, "Room not found");
}

#[test]
fn storage_errors_map_to_stable_text_and_status() {
    assert_eq!(StorageError::RoomNotFound.message(), "Room not found");
    assert_eq!(StorageError::RoomFull.message(), "Room is full");
    assert_eq!(StorageError::Unauthorized.message(), "Unauthorized");
    assert_eq!(
        StorageError::TokenGenerationFailed("no key".to_string()).message(),
        "Token generation failed: no key"
    );
    assert_eq!(StorageError::RoomNotFound.status_code(), 404);
    assert_eq!(StorageError::RoomFull.status_code(), 409);
    assert_eq!(StorageError::Unauthorized.status_code(), 403);
    assert_eq!(StorageError::TokenGenerationFailed(String::new()).status_code(), 500);
}
