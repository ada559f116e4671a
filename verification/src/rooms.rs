//! The room registry of the signaling service: room creation, lookup,
//! deletion and membership. Session tokens are minted by the surrounding
//! application; the registry owns the secret they are signed with.

use crate::json::hex_digit;
use crate::models::{
    has_participant, participant_index, participants_unique, room_eq, Participant, Room,
};
use vstd::prelude::*;

verus! {

/// The error type of the room registry.
#[derive(Debug)]
pub enum StorageError {
    RoomNotFound,
    RoomFull,
    Unauthorized,
    TokenGenerationFailed(String),
}

/// The human-readable description of a registry error.
pub open spec fn spec_storage_error_message(e: &StorageError) -> Seq<char> {
    match e {
        StorageError::RoomNotFound => "Room not found"@,
        StorageError::RoomFull => "Room is full"@,
        StorageError::Unauthorized => "Unauthorized"@,
        StorageError::TokenGenerationFailed(m) => "Token generation failed: "@ + m@,
    }
}

impl StorageError {
    /// The human-readable description of the error.
    pub fn message(&self) -> (r: String)
        ensures
            r@ == spec_storage_error_message(self),
    {
        match self {
            StorageError::RoomNotFound => "Room not found".to_owned(),
            StorageError::RoomFull => "Room is full".to_owned(),
            StorageError::Unauthorized => "Unauthorized".to_owned(),
            StorageError::TokenGenerationFailed(m) => {
                let mut s = "Token generation failed: ".to_owned();
                s.append(m.as_str());
                s
            },
        }
    }

    /// The HTTP status code the room API answers with for this error.
    pub fn status_code(&self) -> (r: u16)
        ensures
            r == (match self {
                StorageError::RoomNotFound => 404u16,
                StorageError::RoomFull => 409u16,
                StorageError::Unauthorized => 403u16,
                StorageError::TokenGenerationFailed(_) => 500u16,
            }),
    {
        match self {
            StorageError::RoomNotFound => 404,
            StorageError::RoomFull => 409,
            StorageError::Unauthorized => 403,
            StorageError::TokenGenerationFailed(_) => 500,
        }
    }
}

/// The lowercase hexadecimal text of a byte string.
pub open spec fn hex_str(b: Seq<u8>) -> Seq<char>
    decreases b.len(),
{
    if b.len() == 0 {
        Seq::empty()
    } else {
        seq![hex_digit(b[0] as int / 16), hex_digit(b[0] as int % 16)] + hex_str(b.drop_first())
    }
}

proof fn lemma_hex_str_len(b: Seq<u8>)
    ensures
        hex_str(b).len() == 2 * b.len(),
    decreases b.len(),
{
    if b.len() > 0 {
        lemma_hex_str_len(b.drop_first());
    }
}

/// Relies on rand's `rng` and `Rng::fill`: 32 bytes of randomness from the
/// thread-local generator. Nothing is promised of the values.
#[verifier::external_body]
fn random_bytes_32() -> (r: Vec<u8>)
    ensures
        r@.len() == 32,
{
    let mut bytes = vec![0u8; 32];
    rand::Rng::fill(&mut rand::rng(), bytes.as_mut_slice());
    bytes
}

/// Relies on hex::encode: two lowercase hexadecimal digits per byte, in
/// order.
#[verifier::external_body]
fn hex_encode(bytes: &Vec<u8>) -> (r: String)
    ensures
        r@ == hex_str(bytes@),
{
    hex::encode(bytes)
}

/// Some room of `rooms` has this id.
pub open spec fn has_room(rooms: Seq<Room>, id: Seq<char>) -> bool {
    exists|i: int| 0 <= i < rooms.len() && (#[trigger] rooms[i]).id@ == id
}

/// The index of the room with this id; meaningful when `has_room`.
pub open spec fn room_index(rooms: Seq<Room>, id: Seq<char>) -> int {
    choose|i: int| 0 <= i < rooms.len() && (#[trigger] rooms[i]).id@ == id
}

/// In-memory storage for all active rooms, with the secret that session
/// tokens are signed with.
pub struct RoomStorage {
    rooms: Vec<Room>,
    jwt_secret: String,
}

impl RoomStorage {
    pub closed spec fn spec_rooms(&self) -> Seq<Room> {
        self.rooms@
    }

    pub closed spec fn spec_secret(&self) -> Seq<char> {
        self.jwt_secret@
    }

    /// Room ids are unique, and each room's participant ids are unique.
    pub closed spec fn wf(&self) -> bool {
        &&& forall|i: int, j: int|
            0 <= i < self.rooms@.len() && 0 <= j < self.rooms@.len() && i != j ==> (
            #[trigger] self.rooms@[i]).id@ != (#[trigger] self.rooms@[j]).id@
        &&& forall|i: int|
            0 <= i < self.rooms@.len() ==> participants_unique(
                (#[trigger] self.rooms@[i]).participants@,
            )
    }

    /// An empty registry with a fresh random signing secret of 64
    /// hexadecimal digits.
    pub fn new() -> (r: RoomStorage)
        ensures
            r.wf(),
            r.spec_rooms().len() == 0,
            r.spec_secret().len() == 64,
    {
        let bytes = random_bytes_32();
        let jwt_secret = hex_encode(&bytes);
        proof {
            lemma_hex_str_len(bytes@);
        }
        RoomStorage { rooms: Vec::new(), jwt_secret }
    }

    /// An empty registry with the given signing secret.
    pub fn with_secret(jwt_secret: String) -> (r: RoomStorage)
        ensures
            r.wf(),
            r.spec_rooms().len() == 0,
            r.spec_secret() == jwt_secret@,
    {
        RoomStorage { rooms: Vec::new(), jwt_secret }
    }

    /// Borrows the signing secret for the application's token minting.
    pub fn jwt_secret(&self) -> (r: &str)
        ensures
            r@ == self.spec_secret(),
    {
        self.jwt_secret.as_str()
    }

    /// The index of the room with this id, if any.
    fn find_room(&self, room_id: &str) -> (r: Option<usize>)
        ensures
            r matches Some(i) ==> i < self.spec_rooms().len() && self.spec_rooms()[i as int].id@
                == room_id@,
            r is None ==> !has_room(self.spec_rooms(), room_id@),
    {
        let mut i: usize = 0;
        while i < self.rooms.len()
            invariant
                i <= self.rooms@.len(),
                forall|j: int| 0 <= j < i ==> (#[trigger] self.rooms@[j]).id@ != room_id@,
            decreases self.rooms@.len() - i,
        {
            if crate::text::str_eq(self.rooms[i].id.as_str(), room_id) {
                return Some(i);
            }
            i += 1;
        }
        None
    }

    /// Creates a room with a fresh random id, stores it, and returns a
    /// copy. In the vanishingly unlikely event that the fresh id collides
    /// with an existing room, that room is replaced.
    pub fn create_room(&mut self, name: String, created_by: String, max_participants: usize) -> (r:
        Room)
        requires
            old(self).wf(),
        ensures
            final(self).wf(),
            final(self).spec_secret() == old(self).spec_secret(),
            r.id@.len() == 36,
            r.name == name,
            r.created_by == created_by,
            r.participants@.len() == 0,
            r.max_participants == max_participants,
            !has_room(old(self).spec_rooms(), r.id@) ==> final(self).spec_rooms().len() == old(self).spec_rooms().len() + 1 && room_eq(final(self).spec_rooms().last(), r) && final(self).spec_rooms().drop_last() == old(self).spec_rooms(),
            has_room(old(self).spec_rooms(), r.id@) ==> final(self).spec_rooms() == old(self).spec_rooms().update(room_index(old(self).spec_rooms(), r.id@), final(self).spec_rooms()[room_index(old(self).spec_rooms(), r.id@)]) && room_eq(
                final(self).spec_rooms()[room_index(old(self).spec_rooms(), r.id@)],
                r,
            ),
    {
        let room = Room::new(name, created_by, max_participants);
        let stored = room.clone();
        let ghost pre = self.rooms@;
        match self.find_room(room.id.as_str()) {
            Some(i) => {
                self.rooms.remove(i);
                self.rooms.insert(i, stored);
                proof {
                    assert(self.rooms@ =~= pre.update(i as int, self.rooms@[i as int]));
                    let k = room_index(pre, room.id@);
                    assert(0 <= k < pre.len() && pre[k].id@ == room.id@);
                    if k != i {
                        assert(pre[k].id@ != pre[i as int].id@);
                    }
                    assert(k == i);
                    assert forall|a: int, b: int|
                        0 <= a < self.rooms@.len() && 0 <= b < self.rooms@.len() && a != b implies (
                    #[trigger] self.rooms@[a]).id@ != (#[trigger] self.rooms@[b]).id@ by {
                        assert(pre[a].id@ != pre[b].id@);
                        if a != i && b != i {
                            assert(self.rooms@[a] == pre[a]);
                            assert(self.rooms@[b] == pre[b]);
                        }
                    }
                    assert forall|a: int|
                        0 <= a < self.rooms@.len() implies participants_unique(
                        (#[trigger] self.rooms@[a]).participants@,
                    ) by {
                        if a != i {
                            assert(self.rooms@[a] == pre[a]);
                        }
                    }
                }
                room
            },
            None => {
                self.rooms.push(stored);
                proof {
                    assert forall|a: int, b: int|
                        0 <= a < self.rooms@.len() && 0 <= b < self.rooms@.len() && a != b implies (
                    #[trigger] self.rooms@[a]).id@ != (#[trigger] self.rooms@[b]).id@ by {
                        if a < pre.len() && b < pre.len() {
                            assert(pre[a].id@ != pre[b].id@);
                        }
                    }
                    assert forall|a: int|
                        0 <= a < self.rooms@.len() implies participants_unique(
                        (#[trigger] self.rooms@[a]).participants@,
                    ) by {
                        if a < pre.len() {
                            assert(pre[a] == self.rooms@[a]);
                        }
                    }
                    assert(self.rooms@.drop_last() =~= pre);
                }
                room
            },
        }
    }

    /// Looks a room up by id and returns a copy of it; fails with
    /// `RoomNotFound` exactly when no room has the id.
    pub fn get_room(&self, room_id: &str) -> (r: Result<Room, StorageError>)
        requires
            self.wf(),
        ensures
            r is Ok <==> has_room(self.spec_rooms(), room_id@),
            r matches Ok(room) ==> room_eq(
                room,
                self.spec_rooms()[room_index(self.spec_rooms(), room_id@)],
            ),
            r matches Err(e) ==> e is RoomNotFound,
    {
        match self.find_room(room_id) {
            Some(i) => {
                let room = self.rooms[i].clone();
                proof {
                    assert(has_room(self.spec_rooms(), room_id@));
                    let k = room_index(self.spec_rooms(), room_id@);
                    assert(0 <= k < self.rooms@.len() && self.rooms@[k].id@ == room_id@);
                    if k != i {
                        assert(self.rooms@[k].id@ != self.rooms@[i as int].id@);
                    }
                    assert(k == i);
                }
                Ok(room)
            },
            None => Err(StorageError::RoomNotFound),
        }
    }

    /// Deletes a room, but only for the requester that created it. Fails
    /// with `RoomNotFound` when no room has the id and with `Unauthorized`
    /// when the requester is not the creator; both failures leave the
    /// registry untouched.
    pub fn delete_room(&mut self, room_id: &str, requester_id: &str) -> (r: Result<
        (),
        StorageError,
    >)
        requires
            old(self).wf(),
        ensures
            final(self).wf(),
            final(self).spec_secret() == old(self).spec_secret(),
            !has_room(old(self).spec_rooms(), room_id@) ==> (r matches Err(
                StorageError::RoomNotFound,
            ) && *final(self) == *old(self)),
            has_room(old(self).spec_rooms(), room_id@) && old(self).spec_rooms()[room_index(
                old(self).spec_rooms(),
                room_id@,
            )].created_by@ != requester_id@ ==> (r matches Err(StorageError::Unauthorized) && *final(self) == *old(self)),
            has_room(old(self).spec_rooms(), room_id@) && old(self).spec_rooms()[room_index(
                old(self).spec_rooms(),
                room_id@,
            )].created_by@ == requester_id@ ==> (r is Ok && final(self).spec_rooms() == old(self).spec_rooms().remove(room_index(old(self).spec_rooms(), room_id@))),
    {
        let ghost pre = self.rooms@;
        match self.find_room(room_id) {
            Some(i) => {
                proof {
                    let k = room_index(pre, room_id@);
                    assert(0 <= k < pre.len() && pre[k].id@ == room_id@);
                    if k != i {
                        assert(pre[k].id@ != pre[i as int].id@);
                    }
                    assert(k == i);
                }
                if !crate::text::str_eq(self.rooms[i].created_by.as_str(), requester_id) {
                    return Err(StorageError::Unauthorized);
                }
                self.rooms.remove(i);
                proof {
                    assert forall|a: int, b: int|
                        0 <= a < self.rooms@.len() && 0 <= b < self.rooms@.len() && a != b implies (
                    #[trigger] self.rooms@[a]).id@ != (#[trigger] self.rooms@[b]).id@ by {
                        let a0: int = if a < i { a } else { a + 1 };
                        let b0: int = if b < i { b } else { b + 1 };
                        assert(self.rooms@[a] == pre[a0]);
                        assert(self.rooms@[b] == pre[b0]);
                        assert(pre[a0].id@ != pre[b0].id@);
                    }
                    assert forall|a: int|
                        0 <= a < self.rooms@.len() implies participants_unique(
                        (#[trigger] self.rooms@[a]).participants@,
                    ) by {
                        let a0: int = if a < i { a } else { a + 1 };
                        assert(self.rooms@[a] == pre[a0]);
                    }
                }
                Ok(())
            },
            None => Err(StorageError::RoomNotFound),
        }
    }

    /// Admits a new participant with a fresh random id into a room.
    /// Fails with `RoomNotFound` when no room has the id and with
    /// `RoomFull` when the room is at capacity; both failures leave the
    /// registry untouched. On success the returned participant has been
    /// added to the room.
    pub fn join_room(&mut self, room_id: &str, participant_name: String, is_host: bool) -> (r:
        Result<Participant, StorageError>)
        requires
            old(self).wf(),
        ensures
            final(self).wf(),
            final(self).spec_secret() == old(self).spec_secret(),
            !has_room(old(self).spec_rooms(), room_id@) ==> (r matches Err(
                StorageError::RoomNotFound,
            ) && *final(self) == *old(self)),
            has_room(old(self).spec_rooms(), room_id@) && old(self).spec_rooms()[room_index(
                old(self).spec_rooms(),
                room_id@,
            )].participants@.len() >= old(self).spec_rooms()[room_index(
                old(self).spec_rooms(),
                room_id@,
            )].max_participants ==> (r matches Err(StorageError::RoomFull) && *final(self) == *old(self)),
            has_room(old(self).spec_rooms(), room_id@) && old(self).spec_rooms()[room_index(
                old(self).spec_rooms(),
                room_id@,
            )].participants@.len() < old(self).spec_rooms()[room_index(
                old(self).spec_rooms(),
                room_id@,
            )].max_participants ==> (r matches Ok(p) && {
                let i = room_index(old(self).spec_rooms(), room_id@);
                let pre_room = old(self).spec_rooms()[i];
                let post_room = final(self).spec_rooms()[i];
                &&& p.id@.len() == 36
                &&& p.name == participant_name
                &&& p.is_host == is_host
                &&& final(self).spec_rooms().len() == old(self).spec_rooms().len()
                &&& (forall|j: int|
                    0 <= j < old(self).spec_rooms().len() && j != i ==> final(self).spec_rooms()[j]
                        == old(self).spec_rooms()[j])
                &&& post_room.id == pre_room.id
                &&& (if has_participant(pre_room.participants@, p.id@) {
                    post_room.participants@ == pre_room.participants@.update(
                        participant_index(pre_room.participants@, p.id@),
                        p,
                    )
                } else {
                    post_room.participants@ == pre_room.participants@.push(p)
                })
            }),
    {
        let ghost pre = self.rooms@;
        let idx = match self.find_room(room_id) {
            Some(i) => i,
            None => {
                return Err(StorageError::RoomNotFound);
            },
        };
        proof {
            let k = room_index(pre, room_id@);
            assert(0 <= k < pre.len() && pre[k].id@ == room_id@);
            if k != idx {
                assert(pre[k].id@ != pre[idx as int].id@);
            }
            assert(k == idx);
        }
        if !self.rooms[idx].can_join() {
            return Err(StorageError::RoomFull);
        }
        let participant = Participant::new(participant_name, is_host);
        let returned = participant.clone();
        let mut room = self.rooms.remove(idx);
        let admitted = room.add_participant(participant);
        self.rooms.insert(idx, room);
        proof {
            assert(admitted);
            assert(self.rooms@ =~= pre.update(idx as int, self.rooms@[idx as int]));
            assert forall|a: int, b: int|
                0 <= a < self.rooms@.len() && 0 <= b < self.rooms@.len() && a != b implies (
            #[trigger] self.rooms@[a]).id@ != (#[trigger] self.rooms@[b]).id@ by {
                assert(pre[a].id@ != pre[b].id@);
                if a != idx {
                    assert(self.rooms@[a] == pre[a]);
                }
                if b != idx {
                    assert(self.rooms@[b] == pre[b]);
                }
            }
            assert forall|a: int|
                0 <= a < self.rooms@.len() implies participants_unique(
                (#[trigger] self.rooms@[a]).participants@,
            ) by {
                if a != idx {
                    assert(self.rooms@[a] == pre[a]);
                }
            }
        }
        Ok(returned)
    }
}

/// The room API's error response: the registry error it wraps.
pub struct AppError(pub StorageError);

impl AppError {
    /// The HTTP status code and the body text of the error response.
    pub fn response_parts(&self) -> (r: (u16, String))
        ensures
            r.0 == (match self.0 {
                StorageError::RoomNotFound => 404u16,
                StorageError::RoomFull => 409u16,
                StorageError::Unauthorized => 403u16,
                StorageError::TokenGenerationFailed(_) => 500u16,
            }),
            r.1@ == spec_storage_error_message(&self.0),
    {
        (self.0.status_code(), self.0.message())
    }
}

impl From<StorageError> for AppError {
    fn from(error: StorageError) -> (r: AppError)
        ensures
            r.0 == error,
    {
        AppError(error)
    }
}

impl vstd::std_specs::convert::FromSpecImpl<StorageError> for AppError {
    open spec fn obeys_from_spec() -> bool {
        true
    }

    open spec fn from_spec(error: StorageError) -> AppError {
        AppError(error)
    }
}


impl Default for RoomStorage {
    fn default() -> (r: Self)
        ensures
            r.wf(),
            r.spec_rooms().len() == 0,
            r.spec_secret().len() == 64,
    {
        Self::new()
    }
}

} // verus!
