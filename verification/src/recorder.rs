//! The session manager: owns the session state machine, the set of active
//! track recorders, and the storage handle, and serializes all lifecycle
//! and membership mutations.
//!
//! Methods that read the wall clock delegate to a `*_at` variant taking the
//! timestamp as an argument; the `*_at` variants carry the exact contracts
//! and are verified for every timestamp value. The surrounding application
//! guards a manager with its lock and performs the file effects.

use crate::clock;
use crate::storage::{
    spec_audio_filename, spec_joined, spec_recording_id, spec_video_filename, StorageManager,
};
use crate::track::TrackRecorder;
use crate::types::{
    ParticipantMetadata, RecordingConfig, RecordingError, RecordingMetadata, RecordingResult,
    RecordingStatus,
};
use vstd::prelude::*;

verus! {

/// Orchestrates one multitrack recording session at a time.
pub struct RecordingManager {
    status: RecordingStatus,
    config: Option<RecordingConfig>,
    storage: Option<StorageManager>,
    tracks: Vec<TrackRecorder>,
    metadata: Option<RecordingMetadata>,
    recording_id: Option<String>,
}

/// One metadata entry and its track belong together: the ids agree and the
/// final fields are still unset while the session is active.
pub open spec fn entry_ok(t: TrackRecorder, p: ParticipantMetadata) -> bool {
    &&& t.wf()
    &&& p.id@ == t.spec_participant_id()
    &&& p.audio_file is None
    &&& p.video_file is None
    &&& p.left_at is None
}

impl RecordingManager {
    pub closed spec fn spec_status(&self) -> RecordingStatus {
        self.status
    }

    pub closed spec fn spec_config(&self) -> Option<RecordingConfig> {
        self.config
    }

    pub closed spec fn spec_meta(&self) -> Option<RecordingMetadata> {
        self.metadata
    }

    pub closed spec fn spec_tracks(&self) -> Seq<TrackRecorder> {
        self.tracks@
    }

    pub closed spec fn spec_recording_id(&self) -> Option<Seq<char>> {
        match self.recording_id {
            Some(s) => Some(s@),
            None => None,
        }
    }

    pub closed spec fn has_storage(&self) -> bool {
        self.storage is Some
    }

    pub closed spec fn spec_output_dir(&self) -> Seq<char> {
        self.storage->Some_0.spec_output_dir()
    }

    /// A session is active while it records or is paused.
    pub open spec fn is_active(&self) -> bool {
        self.spec_status() is Recording || self.spec_status() is Paused
    }

    /// The start timestamp of an active session.
    pub open spec fn active_started_at(&self) -> i64 {
        match self.spec_status() {
            RecordingStatus::Recording { started_at } => started_at,
            RecordingStatus::Paused { started_at, .. } => started_at,
            _ => 0,
        }
    }

    /// Some track belongs to this participant.
    pub open spec fn has_track(&self, pid: Seq<char>) -> bool {
        exists|i: int|
            0 <= i < self.spec_tracks().len() && (#[trigger] self.spec_tracks()[i]).spec_participant_id()
                == pid
    }

    /// The index of this participant's track; meaningful when `has_track`.
    pub open spec fn track_index(&self, pid: Seq<char>) -> int {
        choose|i: int|
            0 <= i < self.spec_tracks().len() && (#[trigger] self.spec_tracks()[i]).spec_participant_id()
                == pid
    }

    /// No two tracks belong to the same participant.
    pub open spec fn tracks_unique(&self) -> bool {
        forall|i: int, j: int|
            0 <= i < self.spec_tracks().len() && 0 <= j < self.spec_tracks().len() && i != j
                ==> (#[trigger] self.spec_tracks()[i]).spec_participant_id() != (
            #[trigger] self.spec_tracks()[j]).spec_participant_id()
    }

    pub closed spec fn active_wf(&self, started_at: i64) -> bool {
        &&& self.config is Some
        &&& self.storage is Some
        &&& self.recording_id matches Some(id)
        &&& self.metadata matches Some(m)
        &&& m.id@ == id@
        &&& self.storage->Some_0.spec_recording_id() == id@
        &&& m.room_id@ == self.config->Some_0.room_id@
        &&& m.output_directory@ == self.storage->Some_0.spec_output_dir()
        &&& m.started_at == started_at
        &&& m.stopped_at is None
        &&& m.duration_seconds == 0
        &&& m.participants@.len() == self.tracks@.len()
        &&& forall|i: int|
            0 <= i < self.tracks@.len() ==> entry_ok(
                #[trigger] self.tracks@[i],
                m.participants@[i],
            )
        &&& self.tracks_unique()
    }

    /// Well-formedness of the whole manager, maintained by every operation.
    pub closed spec fn wf(&self) -> bool {
        match self.status {
            RecordingStatus::Idle => {
                &&& self.config is None
                &&& self.storage is None
                &&& self.metadata is None
                &&& self.recording_id is None
                &&& self.tracks@.len() == 0
            },
            RecordingStatus::Stopped => {
                &&& self.config is None
                &&& self.storage is None
                &&& self.metadata is None
                &&& self.recording_id is Some
                &&& self.tracks@.len() == 0
            },
            RecordingStatus::Recording { started_at } => self.active_wf(started_at),
            RecordingStatus::Paused { started_at, .. } => self.active_wf(started_at),
        }
    }

    pub fn new() -> (r: RecordingManager)
        ensures
            r.wf(),
            r.spec_status() is Idle,
            r.spec_config() is None,
            r.spec_meta() is None,
            r.spec_recording_id() is None,
            !r.has_storage(),
            r.spec_tracks().len() == 0,
    {
        RecordingManager {
            status: RecordingStatus::Idle,
            config: None,
            storage: None,
            tracks: Vec::new(),
            metadata: None,
            recording_id: None,
        }
    }
}

/// Everything `start` establishes from `Idle`, for a given timestamp and
/// timestamp label.
pub open spec fn start_post(
    post: RecordingManager,
    config: RecordingConfig,
    r: RecordingResult<String>,
    now_ms: i64,
    stamp: Seq<char>,
) -> bool {
    let id = spec_recording_id(config.room_id@, stamp);
    let dir = spec_joined(config.output_dir@, id);
    &&& post.wf()
    &&& post.spec_status() == (RecordingStatus::Recording { started_at: now_ms })
    &&& r matches Ok(rid) && rid@ == id
    &&& post.spec_recording_id() == Some(id)
    &&& post.spec_config() matches Some(c) && c == config
    &&& post.has_storage()
    &&& post.spec_output_dir() == dir
    &&& post.spec_meta() matches Some(m) && {
        &&& m.id@ == id
        &&& m.room_id@ == config.room_id@
        &&& m.started_at == now_ms
        &&& m.stopped_at is None
        &&& m.duration_seconds == 0
        &&& m.participants@.len() == 0
        &&& m.output_directory@ == dir
    }
    &&& post.spec_tracks().len() == 0
}

/// Everything `addParticipant` establishes when it creates a new track.
pub open spec fn add_post(
    pre: RecordingManager,
    post: RecordingManager,
    pid: Seq<char>,
    name: Seq<char>,
    record_audio: bool,
    record_video: bool,
    now_ms: i64,
) -> bool {
    let dir = pre.spec_output_dir();
    let t = post.spec_tracks().last();
    &&& post.wf()
    &&& post.spec_status() == pre.spec_status()
    &&& post.spec_config() == pre.spec_config()
    &&& post.spec_recording_id() == pre.spec_recording_id()
    &&& post.has_storage() && post.spec_output_dir() == dir
    &&& post.spec_tracks().len() == pre.spec_tracks().len() + 1
    &&& post.spec_tracks().drop_last() == pre.spec_tracks()
    &&& t.wf()
    &&& t.spec_participant_id() == pid
    &&& t.has_audio() == record_audio
    &&& t.has_video() == record_video
    &&& record_audio ==> t.audio_path() == spec_joined(dir, spec_audio_filename(pid, name))
        && t.audio_log() == Seq::<Seq<u8>>::empty()
    &&& record_video ==> t.video_path() == spec_joined(dir, spec_video_filename(pid, name))
        && t.video_log() == Seq::<Seq<u8>>::empty()
    &&& t.spec_stats().audio_chunks_received == 0 && t.spec_stats().video_chunks_received == 0
    &&& t.spec_stats().audio_bytes_written == 0 && t.spec_stats().video_bytes_written == 0
    &&& post.spec_meta() matches Some(m) && pre.spec_meta() matches Some(pm) && {
        &&& m.participants@.len() == pm.participants@.len() + 1
        &&& m.participants@.drop_last() == pm.participants@
        &&& m.participants@.last().id@ == pid
        &&& m.participants@.last().name@ == name
        &&& m.participants@.last().audio_file is None
        &&& m.participants@.last().video_file is None
        &&& m.participants@.last().joined_at == now_ms
        &&& m.participants@.last().left_at is None
        &&& m.id == pm.id && m.room_id == pm.room_id && m.started_at == pm.started_at
        &&& m.stopped_at == pm.stopped_at && m.duration_seconds == pm.duration_seconds
        &&& m.output_directory == pm.output_directory
    }
}

/// Everything ingesting one chunk changes: only the addressed track, and
/// only its addressed pipeline.
pub open spec fn ingest_post(
    pre: RecordingManager,
    post: RecordingManager,
    pid: Seq<char>,
    chunk: Seq<u8>,
    audio: bool,
) -> bool {
    let i = pre.track_index(pid);
    let t0 = pre.spec_tracks()[i];
    let t1 = post.spec_tracks()[i];
    &&& post.wf()
    &&& post.spec_status() == pre.spec_status()
    &&& post.spec_config() == pre.spec_config()
    &&& post.spec_meta() == pre.spec_meta()
    &&& post.spec_recording_id() == pre.spec_recording_id()
    &&& post.has_storage() == pre.has_storage()
    &&& post.spec_tracks().len() == pre.spec_tracks().len()
    &&& forall|j: int|
        0 <= j < pre.spec_tracks().len() && j != i ==> post.spec_tracks()[j] == pre.spec_tracks()[j]
    &&& t1.spec_participant_id() == t0.spec_participant_id()
    &&& t1.has_audio() == t0.has_audio() && t1.has_video() == t0.has_video()
    &&& audio ==> {
        &&& !t0.has_audio() ==> t1 == t0
        &&& t0.has_audio() ==> {
            &&& t1.audio_log() == t0.audio_log().push(chunk)
            &&& t1.audio_data() == t0.audio_data() + chunk
            &&& t1.spec_stats().audio_chunks_received == t0.spec_stats().audio_chunks_received + 1
            &&& t1.spec_stats().audio_bytes_written == t0.spec_stats().audio_bytes_written
                + chunk.len()
            &&& t0.has_video() ==> t1.video_log() == t0.video_log()
        }
    }
    &&& !audio ==> {
        &&& !t0.has_video() ==> t1 == t0
        &&& t0.has_video() ==> {
            &&& t1.video_log() == t0.video_log().push(chunk)
            &&& t1.video_data() == t0.video_data() + chunk
            &&& t1.spec_stats().video_chunks_received == t0.spec_stats().video_chunks_received + 1
            &&& t1.spec_stats().video_bytes_written == t0.spec_stats().video_bytes_written
                + chunk.len()
            &&& t0.has_audio() ==> t1.audio_log() == t0.audio_log()
        }
    }
}

/// Whole-second duration of a session, floored at zero; paused time is not
/// subtracted.
pub open spec fn spec_duration(started_ms: i64, now_ms: i64) -> u64 {
    if now_ms <= started_ms {
        0
    } else {
        (((now_ms - started_ms) as int) / 1000) as u64
    }
}

/// How one participant's final metadata entry merges its track's outcome.
pub open spec fn merged_entry(
    p0: ParticipantMetadata,
    t: TrackRecorder,
    p1: ParticipantMetadata,
    now_ms: i64,
) -> bool {
    &&& p1.id@ == p0.id@
    &&& p1.name@ == p0.name@
    &&& p1.joined_at == p0.joined_at
    &&& p1.left_at == Some(now_ms)
    &&& t.has_audio() ==> (p1.audio_file matches Some(f) && f@ == t.audio_path())
    &&& !t.has_audio() ==> p1.audio_file is None
    &&& t.has_video() ==> (p1.video_file matches Some(f) && f@ == t.video_path())
    &&& !t.has_video() ==> p1.video_file is None
}

/// Everything `stop` establishes from an active session.
pub open spec fn stop_post(
    pre: RecordingManager,
    post: RecordingManager,
    m: RecordingMetadata,
    now_ms: i64,
) -> bool {
    let started = pre.active_started_at();
    &&& post.wf()
    &&& post.spec_status() is Stopped
    &&& post.spec_config() is None
    &&& !post.has_storage()
    &&& post.spec_meta() is None
    &&& post.spec_tracks().len() == 0
    &&& post.spec_recording_id() == pre.spec_recording_id()
    &&& pre.spec_recording_id() matches Some(id) && m.id@ == id
    &&& pre.spec_meta() matches Some(pm) && {
        &&& m.room_id@ == pm.room_id@
        &&& m.started_at == started
        &&& m.stopped_at == Some(now_ms)
        &&& m.duration_seconds == spec_duration(started, now_ms)
        &&& m.output_directory@ == pm.output_directory@
        &&& m.participants@.len() == pm.participants@.len()
        &&& forall|i: int|
            0 <= i < m.participants@.len() ==> merged_entry(
                pm.participants@[i],
                pre.spec_tracks()[i],
                #[trigger] m.participants@[i],
                now_ms,
            )
    }
}

impl RecordingManager {
    /// Starts a new session at the given timestamp with the given timestamp
    /// label. Succeeds only from `Idle`; any other status fails with
    /// `AlreadyRecording` and leaves the state untouched.
    pub fn start_at(&mut self, config: RecordingConfig, now_ms: i64, stamp: &str) -> (r:
        RecordingResult<String>)
        requires
            old(self).wf(),
        ensures
            final(self).wf(),
            !(old(self).spec_status() is Idle) ==> (r matches Err(RecordingError::AlreadyRecording)
                && *final(self) == *old(self)),
            old(self).spec_status() is Idle ==> start_post(*final(self), config, r, now_ms, stamp@),
    {
        if !(matches!(self.status, RecordingStatus::Idle)) {
            return Err(RecordingError::AlreadyRecording);
        }
        let storage = StorageManager::new_at(config.output_dir.as_str(), config.room_id.as_str(), stamp);
        let recording_id: String = storage.get_recording_id().to_owned();
        let metadata = RecordingMetadata {
            id: recording_id.clone(),
            room_id: config.room_id.clone(),
            started_at: now_ms,
            stopped_at: None,
            duration_seconds: 0,
            participants: Vec::new(),
            output_directory: storage.get_output_dir().to_owned(),
        };
        self.status = RecordingStatus::Recording { started_at: now_ms };
        self.config = Some(config);
        self.storage = Some(storage);
        self.metadata = Some(metadata);
        self.recording_id = Some(recording_id.clone());
        Ok(recording_id)
    }

    /// Starts a new session at the current wall clock. Succeeds only from
    /// `Idle`; any other status fails with `AlreadyRecording` and leaves
    /// the state untouched.
    pub fn start_recording(&mut self, config: RecordingConfig) -> (r: RecordingResult<String>)
        requires
            old(self).wf(),
        ensures
            final(self).wf(),
            !(old(self).spec_status() is Idle) ==> (r matches Err(RecordingError::AlreadyRecording)
                && *final(self) == *old(self)),
            old(self).spec_status() is Idle ==> exists|t: i64|
                start_post(*final(self), config, r, t, clock::time_label(t as int)),
    {
        let t = clock::now_millis();
        let stamp = clock::format_timestamp(t);
        let r = self.start_at(config, t, stamp.as_str());
        r
    }
}

/// The active-session invariant does not depend on the status field.
proof fn lemma_active_core_preserved(pre: RecordingManager, post: RecordingManager, started_at: i64)
    requires
        pre.active_wf(started_at),
        post.config == pre.config,
        post.storage == pre.storage,
        post.metadata == pre.metadata,
        post.recording_id == pre.recording_id,
        post.tracks@ == pre.tracks@,
    ensures
        post.active_wf(started_at),
{
    assert forall|i: int| 0 <= i < post.tracks@.len() implies entry_ok(
        #[trigger] post.tracks@[i],
        post.metadata->Some_0.participants@[i],
    ) by {
        assert(entry_ok(pre.tracks@[i], pre.metadata->Some_0.participants@[i]));
    }
    assert forall|i: int, j: int|
        0 <= i < post.spec_tracks().len() && 0 <= j < post.spec_tracks().len() && i != j implies (
    #[trigger] post.spec_tracks()[i]).spec_participant_id() != (#[trigger] post.spec_tracks()[j]).spec_participant_id() by {
        assert(pre.spec_tracks()[i].spec_participant_id() != pre.spec_tracks()[j].spec_participant_id());
    }
}

/// Nothing but the status changes.
pub open spec fn same_core(pre: RecordingManager, post: RecordingManager) -> bool {
    &&& post.spec_config() == pre.spec_config()
    &&& post.spec_meta() == pre.spec_meta()
    &&& post.spec_tracks() == pre.spec_tracks()
    &&& post.spec_recording_id() == pre.spec_recording_id()
    &&& post.has_storage() == pre.has_storage()
    &&& pre.has_storage() ==> post.spec_output_dir() == pre.spec_output_dir()
}

impl RecordingManager {
    /// The index of this participant's track, if any.
    fn find_track(&self, pid: &str) -> (r: Option<usize>)
        ensures
            r matches Some(i) ==> i < self.spec_tracks().len() && self.spec_tracks()[
                i as int
            ].spec_participant_id() == pid@,
            r is None ==> !self.has_track(pid@),
    {
        let mut i: usize = 0;
        while i < self.tracks.len()
            invariant
                i <= self.tracks@.len(),
                forall|j: int|
                    0 <= j < i ==> (#[trigger] self.tracks@[j]).spec_participant_id() != pid@,
            decreases self.tracks@.len() - i,
        {
            if crate::text::str_eq(self.tracks[i].participant_id(), pid) {
                return Some(i);
            }
            i += 1;
        }
        None
    }

    /// Adds a participant to the active session at the given join
    /// timestamp. Fails with `NoActiveRecording` unless the session is
    /// recording or paused. Re-adding an existing participant id succeeds
    /// without any side effect; otherwise the requested pipelines and their
    /// files are created and a metadata entry is recorded.
    pub fn add_participant_at(
        &mut self,
        participant_id: String,
        participant_name: String,
        record_audio: bool,
        record_video: bool,
        now_ms: i64,
    ) -> (r: RecordingResult<()>)
        requires
            old(self).wf(),
        ensures
            final(self).wf(),
            !old(self).is_active() ==> (r matches Err(RecordingError::NoActiveRecording) && *final(self) == *old(self)),
            old(self).is_active() && old(self).has_track(participant_id@) ==> (r is Ok && *final(self) == *old(self)),
            old(self).is_active() && !old(self).has_track(participant_id@) ==> (r is Ok && add_post(
                *old(self),
                *final(self),
                participant_id@,
                participant_name@,
                record_audio,
                record_video,
                now_ms,
            )),
    {
        if matches!(self.status, RecordingStatus::Idle | RecordingStatus::Stopped) {
            return Err(RecordingError::NoActiveRecording);
        }
        if self.find_track(participant_id.as_str()).is_some() {
            return Ok(());
        }
        let ghost pre = *self;
        let config = match &self.config {
            Some(c) => c,
            None => {
                return Err(RecordingError::NoActiveRecording);
            },
        };
        let storage = match &self.storage {
            Some(s) => s,
            None => {
                return Err(RecordingError::NoActiveRecording);
            },
        };
        let audio_writer = if record_audio {
            Some(
                storage.create_audio_file(
                    participant_id.as_str(),
                    participant_name.as_str(),
                    config,
                )?,
            )
        } else {
            None
        };
        let video_writer = if record_video {
            Some(storage.create_video_file(participant_id.as_str(), participant_name.as_str())?)
        } else {
            None
        };
        let track = TrackRecorder::new(
            participant_id.clone(),
            participant_name.clone(),
            config,
            audio_writer,
            video_writer,
        )?;
        let entry = ParticipantMetadata {
            id: participant_id.clone(),
            name: participant_name.clone(),
            audio_file: None,
            video_file: None,
            joined_at: now_ms,
            left_at: None,
        };
        match &mut self.metadata {
            Some(m) => {
                m.participants.push(entry);
            },
            None => {
            },
        }
        self.tracks.push(track);
        proof {
            assert(self.spec_tracks().drop_last() =~= pre.spec_tracks());
            assert(self.spec_meta()->Some_0.participants@.drop_last() =~= pre.spec_meta()
                ->Some_0.participants@);
            assert forall|i: int| 0 <= i < self.tracks@.len() implies entry_ok(
                #[trigger] self.tracks@[i],
                self.metadata->Some_0.participants@[i],
            ) by {
                if i < pre.spec_tracks().len() {
                    assert(self.tracks@[i] == pre.spec_tracks()[i]);
                    assert(self.metadata->Some_0.participants@[i] == pre.spec_meta()
                        ->Some_0.participants@[i]);
                }
            }
            assert(self.tracks_unique()) by {
                assert forall|i: int, j: int|
                    0 <= i < self.spec_tracks().len() && 0 <= j < self.spec_tracks().len() && i
                        != j implies (#[trigger] self.spec_tracks()[i]).spec_participant_id() != (
                    #[trigger] self.spec_tracks()[j]).spec_participant_id() by {
                    if i < pre.spec_tracks().len() && j < pre.spec_tracks().len() {
                        assert(pre.tracks_unique());
                    }
                }
            }
        }
        Ok(())
    }

    /// Adds a participant with the join timestamp taken from the wall
    /// clock. Fails with `NoActiveRecording` unless the session is
    /// recording or paused; re-adding an existing id is a successful no-op.
    pub fn add_participant(
        &mut self,
        participant_id: String,
        participant_name: String,
        record_audio: bool,
        record_video: bool,
    ) -> (r: RecordingResult<()>)
        requires
            old(self).wf(),
        ensures
            final(self).wf(),
            !old(self).is_active() ==> (r matches Err(RecordingError::NoActiveRecording) && *final(self) == *old(self)),
            old(self).is_active() && old(self).has_track(participant_id@) ==> (r is Ok && *final(self) == *old(self)),
            old(self).is_active() && !old(self).has_track(participant_id@) ==> (r is Ok && exists|
                t: i64,
            |
                add_post(
                    *old(self),
                    *final(self),
                    participant_id@,
                    participant_name@,
                    record_audio,
                    record_video,
                    t,
                )),
    {
        let t = clock::now_millis();
        self.add_participant_at(participant_id, participant_name, record_audio, record_video, t)
    }

    /// Pauses a recording session at the given timestamp. Succeeds only
    /// from `Recording`, keeping the original start time; otherwise fails
    /// with `NoActiveRecording` and leaves the state untouched.
    pub fn pause_at(&mut self, now_ms: i64) -> (r: RecordingResult<()>)
        requires
            old(self).wf(),
        ensures
            final(self).wf(),
            old(self).spec_status() matches RecordingStatus::Recording { started_at } ==> (r is Ok
                && final(self).spec_status() == (RecordingStatus::Paused {
                started_at,
                paused_at: now_ms,
            }) && same_core(*old(self), *final(self))),
            !(old(self).spec_status() is Recording) ==> (r matches Err(
                RecordingError::NoActiveRecording,
            ) && *final(self) == *old(self)),
    {
        match self.status {
            RecordingStatus::Recording { started_at } => {
                self.status = RecordingStatus::Paused { started_at, paused_at: now_ms };
                proof {
                    lemma_active_core_preserved(*old(self), *self, started_at);
                }
                Ok(())
            },
            _ => Err(RecordingError::NoActiveRecording),
        }
    }

    /// Pauses a recording session at the current wall clock. Succeeds only
    /// from `Recording`; otherwise fails with `NoActiveRecording`.
    pub fn pause_recording(&mut self) -> (r: RecordingResult<()>)
        requires
            old(self).wf(),
        ensures
            final(self).wf(),
            old(self).spec_status() matches RecordingStatus::Recording { started_at } ==> (r is Ok
                && (exists|t: i64|
                final(self).spec_status() == (RecordingStatus::Paused {
                    started_at,
                    paused_at: t,
                })) && same_core(*old(self), *final(self))),
            !(old(self).spec_status() is Recording) ==> (r matches Err(
                RecordingError::NoActiveRecording,
            ) && *final(self) == *old(self)),
    {
        let t = clock::now_millis();
        let r = self.pause_at(t);
        proof {
            if old(self).spec_status() is Recording {
                assert(self.spec_status() == (RecordingStatus::Paused {
                    started_at: old(self).spec_status()->Recording_started_at,
                    paused_at: t,
                }));
            }
        }
        r
    }

    /// Resumes a paused session, restoring `Recording` with the original
    /// start time. Succeeds only from `Paused`; otherwise fails with
    /// `NoActiveRecording` and leaves the state untouched.
    pub fn resume_recording(&mut self) -> (r: RecordingResult<()>)
        requires
            old(self).wf(),
        ensures
            final(self).wf(),
            old(self).spec_status() matches RecordingStatus::Paused { started_at, .. } ==> (r is Ok
                && final(self).spec_status() == (RecordingStatus::Recording { started_at })
                && same_core(*old(self), *final(self))),
            !(old(self).spec_status() is Paused) ==> (r matches Err(
                RecordingError::NoActiveRecording,
            ) && *final(self) == *old(self)),
    {
        match self.status {
            RecordingStatus::Paused { started_at, .. } => {
                self.status = RecordingStatus::Recording { started_at };
                proof {
                    lemma_active_core_preserved(*old(self), *self, started_at);
                }
                Ok(())
            },
            _ => Err(RecordingError::NoActiveRecording),
        }
    }
}


impl RecordingManager {
    /// Room for one more audio chunk of the given length in this
    /// participant's track without counter overflow; a machine limit,
    /// unreachable in practice.
    pub open spec fn audio_ingest_ok(&self, pid: Seq<char>, len: nat) -> bool {
        forall|i: int|
            0 <= i < self.spec_tracks().len() && (#[trigger] self.spec_tracks()[i]).spec_participant_id()
                == pid ==> self.spec_tracks()[i].audio_can_accept(len)
    }

    /// Room for one more video chunk of the given length in this
    /// participant's track without counter overflow; a machine limit,
    /// unreachable in practice.
    pub open spec fn video_ingest_ok(&self, pid: Seq<char>, len: nat) -> bool {
        forall|i: int|
            0 <= i < self.spec_tracks().len() && (#[trigger] self.spec_tracks()[i]).spec_participant_id()
                == pid ==> self.spec_tracks()[i].video_can_accept(len)
    }

    /// Ingests an audio chunk for a participant. Fails with
    /// `ParticipantNotFound` when no track exists for the id; a track
    /// without an audio pipeline drops the chunk silently and succeeds;
    /// otherwise the chunk is appended verbatim to the participant's audio
    /// file, in arrival order.
    pub fn add_audio_chunk(&mut self, participant_id: &str, chunk: Vec<u8>) -> (r: RecordingResult<
        (),
    >)
        requires
            old(self).wf(),
            old(self).audio_ingest_ok(participant_id@, chunk@.len()),
        ensures
            final(self).wf(),
            !old(self).has_track(participant_id@) ==> (r matches Err(
                RecordingError::ParticipantNotFound(p),
            ) && p@ == participant_id@ && *final(self) == *old(self)),
            old(self).has_track(participant_id@) ==> (r is Ok && ingest_post(
                *old(self),
                *final(self),
                participant_id@,
                chunk@,
                true,
            )),
    {
        let idx = match self.find_track(participant_id) {
            Some(i) => i,
            None => {
                return Err(RecordingError::ParticipantNotFound(participant_id.to_owned()));
            },
        };
        let ghost pre = *self;
        proof {
            assert(pre.has_track(participant_id@));
            if pre.spec_status() is Idle || pre.spec_status() is Stopped {
                assert(pre.spec_tracks().len() == 0);
            }
            assert(entry_ok(
                pre.spec_tracks()[idx as int],
                pre.spec_meta()->Some_0.participants@[idx as int],
            ));
            assert(pre.spec_tracks()[idx as int].audio_can_accept(chunk@.len()));
        }
        let mut t = self.tracks.remove(idx);
        let r = t.add_audio_chunk(chunk);
        self.tracks.insert(idx, t);
        proof {
            let i = idx as int;
            let t1 = self.tracks@[i];
            assert(self.tracks@ =~= pre.spec_tracks().update(i, t1));
            let k = pre.track_index(participant_id@);
            assert(0 <= k < pre.spec_tracks().len() && pre.spec_tracks()[k].spec_participant_id()
                == participant_id@);
            if k != i {
                assert(pre.spec_tracks()[k].spec_participant_id() != pre.spec_tracks()[
                    i
                ].spec_participant_id());
            }
            assert(k == i);
            assert forall|j: int| 0 <= j < self.tracks@.len() implies entry_ok(
                #[trigger] self.tracks@[j],
                self.metadata->Some_0.participants@[j],
            ) by {
                assert(entry_ok(pre.spec_tracks()[j], pre.spec_meta()->Some_0.participants@[j]));
            }
            assert forall|a: int, b: int|
                0 <= a < self.spec_tracks().len() && 0 <= b < self.spec_tracks().len() && a
                    != b implies (#[trigger] self.spec_tracks()[a]).spec_participant_id() != (
            #[trigger] self.spec_tracks()[b]).spec_participant_id() by {
                assert(pre.spec_tracks()[a].spec_participant_id() != pre.spec_tracks()[
                    b
                ].spec_participant_id());
            }
        }
        r
    }

    /// Ingests a video chunk for a participant. Fails with
    /// `ParticipantNotFound` when no track exists for the id; a track
    /// without a video pipeline drops the chunk silently and succeeds;
    /// otherwise the chunk is appended verbatim to the participant's video
    /// file, in arrival order.
    pub fn add_video_chunk(&mut self, participant_id: &str, chunk: Vec<u8>) -> (r: RecordingResult<
        (),
    >)
        requires
            old(self).wf(),
            old(self).video_ingest_ok(participant_id@, chunk@.len()),
        ensures
            final(self).wf(),
            !old(self).has_track(participant_id@) ==> (r matches Err(
                RecordingError::ParticipantNotFound(p),
            ) && p@ == participant_id@ && *final(self) == *old(self)),
            old(self).has_track(participant_id@) ==> (r is Ok && ingest_post(
                *old(self),
                *final(self),
                participant_id@,
                chunk@,
                false,
            )),
    {
        let idx = match self.find_track(participant_id) {
            Some(i) => i,
            None => {
                return Err(RecordingError::ParticipantNotFound(participant_id.to_owned()));
            },
        };
        let ghost pre = *self;
        proof {
            assert(pre.has_track(participant_id@));
            if pre.spec_status() is Idle || pre.spec_status() is Stopped {
                assert(pre.spec_tracks().len() == 0);
            }
            assert(entry_ok(
                pre.spec_tracks()[idx as int],
                pre.spec_meta()->Some_0.participants@[idx as int],
            ));
            assert(pre.spec_tracks()[idx as int].video_can_accept(chunk@.len()));
        }
        let mut t = self.tracks.remove(idx);
        let r = t.add_video_chunk(chunk);
        self.tracks.insert(idx, t);
        proof {
            let i = idx as int;
            let t1 = self.tracks@[i];
            assert(self.tracks@ =~= pre.spec_tracks().update(i, t1));
            let k = pre.track_index(participant_id@);
            assert(0 <= k < pre.spec_tracks().len() && pre.spec_tracks()[k].spec_participant_id()
                == participant_id@);
            if k != i {
                assert(pre.spec_tracks()[k].spec_participant_id() != pre.spec_tracks()[
                    i
                ].spec_participant_id());
            }
            assert(k == i);
            assert forall|j: int| 0 <= j < self.tracks@.len() implies entry_ok(
                #[trigger] self.tracks@[j],
                self.metadata->Some_0.participants@[j],
            ) by {
                assert(entry_ok(pre.spec_tracks()[j], pre.spec_meta()->Some_0.participants@[j]));
            }
            assert forall|a: int, b: int|
                0 <= a < self.spec_tracks().len() && 0 <= b < self.spec_tracks().len() && a
                    != b implies (#[trigger] self.spec_tracks()[a]).spec_participant_id() != (
            #[trigger] self.spec_tracks()[b]).spec_participant_id() by {
                assert(pre.spec_tracks()[a].spec_participant_id() != pre.spec_tracks()[
                    b
                ].spec_participant_id());
            }
        }
        r
    }
}


impl RecordingManager {
    /// Stops the session at the given timestamp: every track is taken out
    /// of the active set and stopped, the resolved file paths and leave
    /// timestamps are merged into the metadata, and the final metadata is
    /// returned while the configuration and storage handles are released.
    /// Fails with `NoActiveRecording` unless the session is recording or
    /// paused.
    pub fn stop_at(&mut self, now_ms: i64) -> (r: RecordingResult<RecordingMetadata>)
        requires
            old(self).wf(),
        ensures
            final(self).wf(),
            !old(self).is_active() ==> (r matches Err(RecordingError::NoActiveRecording) && *final(self) == *old(self)),
            old(self).is_active() ==> (r matches Ok(m) && stop_post(
                *old(self),
                *final(self),
                m,
                now_ms,
            )),
    {
        if matches!(self.status, RecordingStatus::Idle | RecordingStatus::Stopped) {
            return Err(RecordingError::NoActiveRecording);
        }
        let ghost pre = *self;
        let started_at = match self.status {
            RecordingStatus::Recording { started_at } => started_at,
            RecordingStatus::Paused { started_at, .. } => started_at,
            _ => now_ms,
        };
        let duration: u64 = if now_ms <= started_at {
            0
        } else {
            let diff: u128 = ((now_ms as i128) - (started_at as i128)) as u128;
            (diff / 1000) as u64
        };
        proof {
            assert(duration == spec_duration(started_at, now_ms));
        }
        let mut meta_opt: Option<RecordingMetadata> = None;
        core::mem::swap(&mut meta_opt, &mut self.metadata);
        let mut metadata = match meta_opt {
            Some(m) => m,
            None => {
                return Err(RecordingError::NoActiveRecording);
            },
        };
        let mut tracks: Vec<TrackRecorder> = Vec::new();
        core::mem::swap(&mut tracks, &mut self.tracks);
        metadata.stopped_at = Some(now_ms);
        metadata.duration_seconds = duration;
        let track_total = tracks.len();
        let ghost meta0 = metadata;
        let ghost parts0 = metadata.participants@;
        let ghost tracks0 = tracks@;
        proof {
            assert(tracks0.len() == track_total);
            assert(tracks0 == pre.spec_tracks());
            assert forall|j: int| 0 <= j < tracks0.len() implies (#[trigger] tracks0[j]).wf() by {
                assert(entry_ok(pre.spec_tracks()[j], pre.spec_meta()->Some_0.participants@[j]));
            }
        }
        let mut i: usize = 0;
        while tracks.len() > 0
            invariant
                i + tracks@.len() == tracks0.len(),
                tracks0.len() <= usize::MAX,
                tracks@ == tracks0.subrange(i as int, tracks0.len() as int),
                parts0.len() == tracks0.len(),
                metadata.participants@.len() == parts0.len(),
                forall|j: int|
                    0 <= j < i ==> merged_entry(
                        parts0[j],
                        tracks0[j],
                        #[trigger] metadata.participants@[j],
                        now_ms,
                    ),
                forall|j: int| i <= j < parts0.len() ==> metadata.participants@[j] == parts0[j],
                forall|j: int| 0 <= j < tracks0.len() ==> (#[trigger] tracks0[j]).wf(),
                metadata.id == meta0.id,
                metadata.room_id == meta0.room_id,
                metadata.started_at == meta0.started_at,
                metadata.stopped_at == meta0.stopped_at,
                metadata.duration_seconds == meta0.duration_seconds,
                metadata.output_directory == meta0.output_directory,
            decreases tracks@.len(),
        {
            let ghost parts_before = metadata.participants@;
            let track = tracks.remove(0);
            proof {
                assert(track == tracks0[i as int]);
                assert(tracks@ =~= tracks0.subrange((i + 1) as int, tracks0.len() as int));
            }
            let result = match track.stop() {
                Ok(res) => res,
                Err(e) => {
                    return Err(e);
                },
            };
            let mut entry = metadata.participants.remove(i);
            entry.audio_file = result.audio_file;
            entry.video_file = result.video_file;
            entry.left_at = Some(now_ms);
            metadata.participants.insert(i, entry);
            proof {
                assert(metadata.participants@ =~= parts_before.update(
                    i as int,
                    metadata.participants@[i as int],
                ));
                assert(merged_entry(
                    parts0[i as int],
                    tracks0[i as int],
                    metadata.participants@[i as int],
                    now_ms,
                ));
            }
            i += 1;
        }
        self.status = RecordingStatus::Stopped;
        self.config = None;
        self.storage = None;
        Ok(metadata)
    }

    /// Stops the session at the current wall clock. Fails with
    /// `NoActiveRecording` unless the session is recording or paused; on
    /// success the manager ends in `Stopped` with configuration and
    /// storage cleared.
    pub fn stop_recording(&mut self) -> (r: RecordingResult<RecordingMetadata>)
        requires
            old(self).wf(),
        ensures
            final(self).wf(),
            !old(self).is_active() ==> (r matches Err(RecordingError::NoActiveRecording) && *final(self) == *old(self)),
            old(self).is_active() ==> (r matches Ok(m) && exists|t: i64|
                stop_post(*old(self), *final(self), m, t)),
    {
        let t = clock::now_millis();
        self.stop_at(t)
    }

    /// A snapshot of the current status.
    pub fn get_status(&self) -> (r: RecordingStatus)
        ensures
            r == self.spec_status(),
    {
        self.status
    }

    /// A copy of the current recording id, if a session ever started.
    pub fn get_recording_id(&self) -> (r: Option<String>)
        ensures
            r is Some <==> self.spec_recording_id() is Some,
            r matches Some(s) ==> self.spec_recording_id() matches Some(id) && s@ == id,
    {
        match &self.recording_id {
            Some(s) => Some(s.clone()),
            None => None,
        }
    }

    /// A copy of the current session metadata, if a session is active.
    pub fn get_metadata(&self) -> (r: Option<RecordingMetadata>)
        ensures
            r is Some <==> self.spec_meta() is Some,
            r matches Some(m) ==> (self.spec_meta() matches Some(sm) && {
                &&& m.id == sm.id
                &&& m.room_id == sm.room_id
                &&& m.started_at == sm.started_at
                &&& m.stopped_at == sm.stopped_at
                &&& m.duration_seconds == sm.duration_seconds
                &&& m.participants@ == sm.participants@
                &&& m.output_directory == sm.output_directory
            }),
    {
        match &self.metadata {
            Some(m) => Some(m.clone()),
            None => None,
        }
    }
}

impl Default for RecordingManager {
    fn default() -> (r: Self)
        ensures
            r.wf(),
            r.spec_status() is Idle,
            r.spec_config() is None,
            r.spec_meta() is None,
            r.spec_recording_id() is None,
            !r.has_storage(),
            r.spec_tracks().len() == 0,
    {
        Self::new()
    }
}


} // verus!
