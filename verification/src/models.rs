//! Data model of the signaling service's room registry: rooms, their
//! participants and the request and response shapes of the room API.

use vstd::prelude::*;

verus! {

/// An ICE server entry handed to joining clients.
pub struct IceServer {
    pub urls: Vec<String>,
    pub username: Option<String>,
    pub credential: Option<String>,
}

impl Clone for IceServer {
    fn clone(&self) -> (r: Self)
        ensures
            r.urls@ == self.urls@,
            r.username == self.username,
            r.credential == self.credential,
    {
        let mut urls: Vec<String> = Vec::new();
        let mut i: usize = 0;
        while i < self.urls.len()
            invariant
                i <= self.urls.len(),
                urls@ == self.urls@.subrange(0, i as int),
            decreases self.urls.len() - i,
        {
            urls.push(self.urls[i].clone());
            proof {
                assert(urls@ =~= self.urls@.subrange(0, (i + 1) as int));
            }
            i += 1;
        }
        proof {
            assert(urls@ =~= self.urls@);
        }
        IceServer {
            urls,
            username: match &self.username {
                Some(u) => Some(u.clone()),
                None => None,
            },
            credential: match &self.credential {
                Some(c) => Some(c.clone()),
                None => None,
            },
        }
    }
}

/// A participant of a room.
pub struct Participant {
    pub id: String,
    pub name: String,
    pub joined_at: i64,
    pub is_host: bool,
}

impl Clone for Participant {
    fn clone(&self) -> (r: Self)
        ensures
            r == *self,
    {
        Participant {
            id: self.id.clone(),
            name: self.name.clone(),
            joined_at: self.joined_at,
            is_host: self.is_host,
        }
    }
}

impl Participant {
    /// Creates a participant with a fresh random id, joined now.
    pub fn new(name: String, is_host: bool) -> (r: Participant)
        ensures
            r.id@.len() == 36,
            r.name == name,
            r.is_host == is_host,
    {
        Participant { id: new_uuid(), name, joined_at: crate::clock::now_millis(), is_host }
    }
}

/// A room of the registry. Participant ids are unique.
pub struct Room {
    pub id: String,
    pub name: String,
    pub created_at: i64,
    pub created_by: String,
    pub participants: Vec<Participant>,
    pub max_participants: usize,
    pub ice_servers: Vec<IceServer>,
}

/// No two participants share an id.
pub open spec fn participants_unique(ps: Seq<Participant>) -> bool {
    forall|i: int, j: int|
        0 <= i < ps.len() && 0 <= j < ps.len() && i != j ==> (#[trigger] ps[i]).id@ != (
        #[trigger] ps[j]).id@
}

/// Some participant of `ps` has this id.
pub open spec fn has_participant(ps: Seq<Participant>, id: Seq<char>) -> bool {
    exists|i: int| 0 <= i < ps.len() && (#[trigger] ps[i]).id@ == id
}

/// The index of the participant with this id; meaningful when
/// `has_participant`.
pub open spec fn participant_index(ps: Seq<Participant>, id: Seq<char>) -> int {
    choose|i: int| 0 <= i < ps.len() && (#[trigger] ps[i]).id@ == id
}

/// Two ICE server entries hold the same data.
pub open spec fn ice_eq(a: IceServer, b: IceServer) -> bool {
    &&& a.urls@ == b.urls@
    &&& a.username == b.username
    &&& a.credential == b.credential
}

/// Two rooms hold the same data.
pub open spec fn room_eq(a: Room, b: Room) -> bool {
    &&& a.id == b.id
    &&& a.name == b.name
    &&& a.created_at == b.created_at
    &&& a.created_by == b.created_by
    &&& a.participants@ == b.participants@
    &&& a.max_participants == b.max_participants
    &&& a.ice_servers@.len() == b.ice_servers@.len()
    &&& forall|k: int|
        0 <= k < a.ice_servers@.len() ==> ice_eq(
            #[trigger] a.ice_servers@[k],
            b.ice_servers@[k],
        )
}

/// Relies on uuid's `Uuid::new_v4` and its hyphenated text form: a fresh
/// random id, 36 characters long. Nothing more is promised of the value.
#[verifier::external_body]
pub(crate) fn new_uuid() -> (r: String)
    ensures
        r@.len() == 36,
{
    uuid::Uuid::new_v4().to_string()
}

impl Room {
    /// The two default STUN servers handed to every room.
    fn default_ice_servers() -> (r: Vec<IceServer>)
        ensures
            r@.len() == 2,
            r@[0].urls@.len() == 1 && r@[0].urls@[0]@ == "stun:stun.l.google.com:19302"@,
            r@[0].username is None && r@[0].credential is None,
            r@[1].urls@.len() == 1 && r@[1].urls@[0]@ == "stun:stun1.l.google.com:19302"@,
            r@[1].username is None && r@[1].credential is None,
    {
        let mut urls0: Vec<String> = Vec::new();
        urls0.push("stun:stun.l.google.com:19302".to_owned());
        let mut urls1: Vec<String> = Vec::new();
        urls1.push("stun:stun1.l.google.com:19302".to_owned());
        let mut servers: Vec<IceServer> = Vec::new();
        servers.push(IceServer { urls: urls0, username: None, credential: None });
        servers.push(IceServer { urls: urls1, username: None, credential: None });
        servers
    }

    /// Creates an empty room with a fresh random id, created now.
    pub fn new(name: String, created_by: String, max_participants: usize) -> (r: Room)
        ensures
            r.id@.len() == 36,
            r.name == name,
            r.created_by == created_by,
            r.participants@.len() == 0,
            participants_unique(r.participants@),
            r.max_participants == max_participants,
            r.ice_servers@.len() == 2,
            r.ice_servers@[0].urls@.len() == 1 && r.ice_servers@[0].urls@[0]@
                == "stun:stun.l.google.com:19302"@,
            r.ice_servers@[1].urls@.len() == 1 && r.ice_servers@[1].urls@[0]@
                == "stun:stun1.l.google.com:19302"@,
            r.ice_servers@[0].username is None && r.ice_servers@[0].credential is None,
            r.ice_servers@[1].username is None && r.ice_servers@[1].credential is None,
    {
        Room {
            id: new_uuid(),
            name,
            created_at: crate::clock::now_millis(),
            created_by,
            participants: Vec::new(),
            max_participants,
            ice_servers: Self::default_ice_servers(),
        }
    }

    /// Whether the room has space for one more participant.
    pub fn can_join(&self) -> (r: bool)
        ensures
            r == (self.participants@.len() < self.max_participants),
    {
        self.participants.len() < self.max_participants
    }

    /// The index of the participant with this id, if any.
    fn find_participant(&self, id: &str) -> (r: Option<usize>)
        ensures
            r matches Some(i) ==> i < self.participants@.len() && self.participants@[
                i as int
            ].id@ == id@,
            r is None ==> !has_participant(self.participants@, id@),
    {
        let mut i: usize = 0;
        while i < self.participants.len()
            invariant
                i <= self.participants@.len(),
                forall|j: int| 0 <= j < i ==> (#[trigger] self.participants@[j]).id@ != id@,
            decreases self.participants@.len() - i,
        {
            if crate::text::str_eq(self.participants[i].id.as_str(), id) {
                return Some(i);
            }
            i += 1;
        }
        None
    }

    /// Adds a participant when the room has space, keying by participant
    /// id: an existing entry with the same id is replaced, any other is
    /// appended. Returns whether the participant was admitted; a full room
    /// is left untouched.
    pub fn add_participant(&mut self, participant: Participant) -> (r: bool)
        requires
            participants_unique(old(self).participants@),
        ensures
            participants_unique(final(self).participants@),
            final(self).id == old(self).id && final(self).name == old(self).name,
            final(self).created_at == old(self).created_at,
            final(self).created_by == old(self).created_by,
            final(self).max_participants == old(self).max_participants,
            final(self).ice_servers@ == old(self).ice_servers@,
            old(self).participants@.len() >= old(self).max_participants ==> (r == false && *final(self) == *old(self)),
            old(self).participants@.len() < old(self).max_participants ==> (r == true && {
                let ps = old(self).participants@;
                if has_participant(ps, participant.id@) {
                    final(self).participants@ == ps.update(
                        participant_index(ps, participant.id@),
                        participant,
                    )
                } else {
                    final(self).participants@ == ps.push(participant)
                }
            }),
    {
        if !self.can_join() {
            return false;
        }
        let ghost ps = self.participants@;
        match self.find_participant(participant.id.as_str()) {
            Some(i) => {
                let ghost pid = participant.id@;
                self.participants.remove(i);
                self.participants.insert(i, participant);
                proof {
                    assert(self.participants@ =~= ps.update(i as int, self.participants@[i as int]));
                    let k = participant_index(ps, pid);
                    assert(0 <= k < ps.len() && ps[k].id@ == pid);
                    if k != i {
                        assert(ps[k].id@ != ps[i as int].id@);
                    }
                    assert(k == i);
                    assert forall|a: int, b: int|
                        0 <= a < self.participants@.len() && 0 <= b < self.participants@.len() && a
                            != b implies (#[trigger] self.participants@[a]).id@ != (
                    #[trigger] self.participants@[b]).id@ by {
                        assert(ps[a].id@ != ps[b].id@);
                        if a != i && b != i {
                            assert(self.participants@[a] == ps[a]);
                            assert(self.participants@[b] == ps[b]);
                        }
                    }
                }
                true
            },
            None => {
                self.participants.push(participant);
                proof {
                    assert forall|a: int, b: int|
                        0 <= a < self.participants@.len() && 0 <= b < self.participants@.len() && a
                            != b implies (#[trigger] self.participants@[a]).id@ != (
                    #[trigger] self.participants@[b]).id@ by {
                        if a < ps.len() && b < ps.len() {
                            assert(ps[a].id@ != ps[b].id@);
                        }
                    }
                }
                true
            },
        }
    }

    /// The public summary of the room.
    pub fn to_public_info(&self) -> (r: RoomInfo)
        ensures
            r.id == self.id,
            r.name == self.name,
            r.created_at == self.created_at,
            r.participant_count == self.participants@.len(),
            r.max_participants == self.max_participants,
    {
        RoomInfo {
            id: self.id.clone(),
            name: self.name.clone(),
            created_at: self.created_at,
            participant_count: self.participants.len(),
            max_participants: self.max_participants,
        }
    }
}

impl Clone for Room {
    fn clone(&self) -> (r: Self)
        ensures
            room_eq(r, *self),
    {
        let mut participants: Vec<Participant> = Vec::new();
        let mut i: usize = 0;
        while i < self.participants.len()
            invariant
                i <= self.participants.len(),
                participants@ == self.participants@.subrange(0, i as int),
            decreases self.participants.len() - i,
        {
            participants.push(self.participants[i].clone());
            proof {
                assert(participants@ =~= self.participants@.subrange(0, (i + 1) as int));
            }
            i += 1;
        }
        let mut ice_servers: Vec<IceServer> = Vec::new();
        let mut j: usize = 0;
        while j < self.ice_servers.len()
            invariant
                j <= self.ice_servers.len(),
                ice_servers@.len() == j,
                forall|k: int|
                    0 <= k < j ==> (#[trigger] ice_servers@[k]).urls@ == self.ice_servers@[k].urls@
                        && ice_servers@[k].username == self.ice_servers@[k].username
                        && ice_servers@[k].credential == self.ice_servers@[k].credential,
            decreases self.ice_servers.len() - j,
        {
            ice_servers.push(self.ice_servers[j].clone());
            j += 1;
        }
        proof {
            assert(participants@ =~= self.participants@);
        }
        Room {
            id: self.id.clone(),
            name: self.name.clone(),
            created_at: self.created_at,
            created_by: self.created_by.clone(),
            participants,
            max_participants: self.max_participants,
            ice_servers,
        }
    }
}

/// The public summary of a room.
pub struct RoomInfo {
    pub id: String,
    pub name: String,
    pub created_at: i64,
    pub participant_count: usize,
    pub max_participants: usize,
}

/// Request body for creating a room.
pub struct CreateRoomRequest {
    pub name: String,
    pub created_by: String,
    pub max_participants: usize,
}

/// The room capacity used when a request names none.
pub fn default_max_participants() -> (r: usize)
    ensures
        r == 10,
{
    10
}

/// Response body for creating a room.
pub struct CreateRoomResponse {
    pub room_id: String,
    pub created_at: i64,
}

/// Request body for joining a room.
pub struct JoinRoomRequest {
    pub participant_name: String,
}

/// Response body for joining a room.
pub struct JoinRoomResponse {
    pub token: String,
    pub participant_id: String,
    pub ice_servers: Vec<IceServer>,
}

} // verus!
