//! Shared data model of the recorder: configuration, session status,
//! metadata and the error type.
//!
//! All timestamps are milliseconds since the Unix epoch, UTC.

use vstd::prelude::*;

verus! {

/// Configuration of one recording session. Immutable once a session starts.
pub struct RecordingConfig {
    pub room_id: String,
    pub output_dir: String,
    pub audio_sample_rate: u32,
    pub audio_channels: u16,
    pub video_width: u32,
    pub video_height: u32,
    pub video_fps: u32,
}

impl Default for RecordingConfig {
    /// 48 kHz stereo audio and 1920x1080 at 30 fps, with empty room and
    /// output directory.
    fn default() -> (r: Self)
        ensures
            r.room_id@ == Seq::<char>::empty(),
            r.output_dir@ == Seq::<char>::empty(),
            r.audio_sample_rate == 48000u32,
            r.audio_channels == 2u16,
            r.video_width == 1920u32,
            r.video_height == 1080u32,
            r.video_fps == 30u32,
    {
        RecordingConfig {
            room_id: String::new(),
            output_dir: String::new(),
            audio_sample_rate: 48000,
            audio_channels: 2,
            video_width: 1920,
            video_height: 1080,
            video_fps: 30,
        }
    }
}

impl Clone for RecordingConfig {
    fn clone(&self) -> (r: Self)
        ensures
            r == *self,
    {
        RecordingConfig {
            room_id: self.room_id.clone(),
            output_dir: self.output_dir.clone(),
            audio_sample_rate: self.audio_sample_rate,
            audio_channels: self.audio_channels,
            video_width: self.video_width,
            video_height: self.video_height,
            video_fps: self.video_fps,
        }
    }
}

/// Lifecycle state of the session manager.
///
/// `started_at` is fixed at the `Idle` to `Recording` transition and is
/// preserved across pause and resume.
#[derive(Clone, Copy, Debug)]
pub enum RecordingStatus {
    Idle,
    Recording { started_at: i64 },
    Paused { started_at: i64, paused_at: i64 },
    Stopped,
}

/// Per-participant entry of the final session metadata. The file paths and
/// `left_at` are populated only when the session stops.
pub struct ParticipantMetadata {
    pub id: String,
    pub name: String,
    pub audio_file: Option<String>,
    pub video_file: Option<String>,
    pub joined_at: i64,
    pub left_at: Option<i64>,
}

impl Clone for ParticipantMetadata {
    fn clone(&self) -> (r: Self)
        ensures
            r == *self,
    {
        ParticipantMetadata {
            id: self.id.clone(),
            name: self.name.clone(),
            audio_file: match &self.audio_file {
                Some(p) => Some(p.clone()),
                None => None,
            },
            video_file: match &self.video_file {
                Some(p) => Some(p.clone()),
                None => None,
            },
            joined_at: self.joined_at,
            left_at: self.left_at,
        }
    }
}

/// Metadata of one session, persisted as `metadata.json` when it stops.
///
/// Participants are kept in join order; ids are unique.
pub struct RecordingMetadata {
    pub id: String,
    pub room_id: String,
    pub started_at: i64,
    pub stopped_at: Option<i64>,
    pub duration_seconds: u64,
    pub participants: Vec<ParticipantMetadata>,
    pub output_directory: String,
}

/// No two entries share a participant id.
pub open spec fn unique_participant_ids(ps: Seq<ParticipantMetadata>) -> bool {
    forall|i: int, j: int|
        0 <= i < ps.len() && 0 <= j < ps.len() && i != j ==> ps[i].id@ != ps[j].id@
}

impl Clone for RecordingMetadata {
    fn clone(&self) -> (r: Self)
        ensures
            r.id == self.id,
            r.room_id == self.room_id,
            r.started_at == self.started_at,
            r.stopped_at == self.stopped_at,
            r.duration_seconds == self.duration_seconds,
            r.participants@ == self.participants@,
            r.output_directory == self.output_directory,
    {
        let mut participants: Vec<ParticipantMetadata> = Vec::new();
        let mut i: usize = 0;
        while i < self.participants.len()
            invariant
                i <= self.participants.len(),
                participants@ == self.participants@.subrange(0, i as int),
            decreases self.participants.len() - i,
        {
            participants.push(self.participants[i].clone());
            proof {
                assert(participants@ =~= self.participants@.subrange(0, i + 1 as int));
            }
            i += 1;
        }
        proof {
            assert(participants@ =~= self.participants@);
        }
        RecordingMetadata {
            id: self.id.clone(),
            room_id: self.room_id.clone(),
            started_at: self.started_at,
            stopped_at: self.stopped_at,
            duration_seconds: self.duration_seconds,
            participants,
            output_directory: self.output_directory.clone(),
        }
    }
}

/// The error type of the recorder.
#[derive(Debug)]
pub enum RecordingError {
    AlreadyRecording,
    NoActiveRecording,
    ParticipantNotFound(String),
    IoError(String),
    TrackError(String),
    InvalidChunkData,
    InvalidConfig(String),
}

pub type RecordingResult<T> = Result<T, RecordingError>;

/// The human-readable description of an error.
pub open spec fn spec_error_message(e: &RecordingError) -> Seq<char> {
    match e {
        RecordingError::AlreadyRecording => "Recording already in progress"@,
        RecordingError::NoActiveRecording => "No active recording"@,
        RecordingError::ParticipantNotFound(id) => "Participant not found: "@ + id@,
        RecordingError::IoError(cause) => "IO error: "@ + cause@,
        RecordingError::TrackError(m) => "Track error: "@ + m@,
        RecordingError::InvalidChunkData => "Invalid chunk data"@,
        RecordingError::InvalidConfig(m) => "Invalid configuration: "@ + m@,
    }
}

/// The stable tag of an error kind, as consumed by the host boundary.
pub open spec fn spec_error_kind(e: &RecordingError) -> Seq<char> {
    match e {
        RecordingError::AlreadyRecording => "alreadyRecording"@,
        RecordingError::NoActiveRecording => "noActiveRecording"@,
        RecordingError::ParticipantNotFound(_) => "participantNotFound"@,
        RecordingError::IoError(_) => "ioError"@,
        RecordingError::TrackError(_) => "trackError"@,
        RecordingError::InvalidChunkData => "invalidChunkData"@,
        RecordingError::InvalidConfig(_) => "invalidConfig"@,
    }
}

impl RecordingError {
    /// The human-readable description of the error.
    pub fn message(&self) -> (r: String)
        ensures
            r@ == spec_error_message(self),
    {
        match self {
            RecordingError::AlreadyRecording => "Recording already in progress".to_owned(),
            RecordingError::NoActiveRecording => "No active recording".to_owned(),
            RecordingError::ParticipantNotFound(id) => {
                let mut s = "Participant not found: ".to_owned();
                s.append(id.as_str());
                s
            },
            RecordingError::IoError(cause) => {
                let mut s = "IO error: ".to_owned();
                s.append(cause.as_str());
                s
            },
            RecordingError::TrackError(m) => {
                let mut s = "Track error: ".to_owned();
                s.append(m.as_str());
                s
            },
            RecordingError::InvalidChunkData => "Invalid chunk data".to_owned(),
            RecordingError::InvalidConfig(m) => {
                let mut s = "Invalid configuration: ".to_owned();
                s.append(m.as_str());
                s
            },
        }
    }

    /// The stable `(kind, message)` tagged form of the error, used at the
    /// host boundary.
    pub fn tagged(&self) -> (r: (String, String))
        ensures
            r.0@ == spec_error_kind(self),
            r.1@ == spec_error_message(self),
    {
        let kind = match self {
            RecordingError::AlreadyRecording => "alreadyRecording".to_owned(),
            RecordingError::NoActiveRecording => "noActiveRecording".to_owned(),
            RecordingError::ParticipantNotFound(_) => "participantNotFound".to_owned(),
            RecordingError::IoError(_) => "ioError".to_owned(),
            RecordingError::TrackError(_) => "trackError".to_owned(),
            RecordingError::InvalidChunkData => "invalidChunkData".to_owned(),
            RecordingError::InvalidConfig(_) => "invalidConfig".to_owned(),
        };
        (kind, self.message())
    }
}

} // verus!
