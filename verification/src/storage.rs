//! Storage layout of one session: the session directory and recording id,
//! per-track file names, and byte-exact models of the per-track file
//! writers.
//!
//! The writers model the bytes a track file holds; the surrounding
//! application appends exactly the chunks handed out by the track layer to
//! the file on disk.

use crate::clock;
use crate::types::{RecordingConfig, RecordingResult};
use vstd::prelude::*;

verus! {

/// Characters that may appear in a sanitized file name component.
pub open spec fn is_safe_char(c: char) -> bool {
    ||| ('a' as u32) <= (c as u32) && (c as u32) <= ('z' as u32)
    ||| ('A' as u32) <= (c as u32) && (c as u32) <= ('Z' as u32)
    ||| ('0' as u32) <= (c as u32) && (c as u32) <= ('9' as u32)
    ||| c == '-'
    ||| c == '_'
}

pub open spec fn sanitize_char(c: char) -> char {
    if is_safe_char(c) {
        c
    } else {
        '_'
    }
}

/// Character-by-character sanitization of a name: every character outside
/// `[A-Za-z0-9_-]` becomes `'_'`.
pub open spec fn spec_sanitize(s: Seq<char>) -> Seq<char> {
    s.map_values(|c: char| sanitize_char(c))
}

/// Maps every character of `name` outside `[A-Za-z0-9_-]` to `'_'`. Total
/// and length-preserving.
pub fn sanitize_filename(name: &str) -> (r: String)
    ensures
        r@ == spec_sanitize(name@),
        r@.len() == name@.len(),
        forall|i: int| 0 <= i < r@.len() ==> is_safe_char(#[trigger] r@[i]),
{
    let n = name.unicode_len();
    let mut out = String::new();
    let mut i: usize = 0;
    while i < n
        invariant
            i <= n,
            n == name@.len(),
            out@ == spec_sanitize(name@.subrange(0, i as int)),
        decreases n - i,
    {
        let c = name.get_char(i);
        let u = c as u32;
        let safe = (('a' as u32) <= u && u <= ('z' as u32)) || (('A' as u32) <= u && u <= ('Z' as u32))
            || (('0' as u32) <= u && u <= ('9' as u32)) || c == '-' || c == '_';
        if safe {
            out.push(c);
        } else {
            out.push('_');
        }
        proof {
            assert(out@ =~= spec_sanitize(name@.subrange(0, (i + 1) as int)));
        }
        i += 1;
    }
    proof {
        assert(name@.subrange(0, n as int) =~= name@);
    }
    out
}

/// The id of a session: `recording-{room}-{stamp}`.
pub open spec fn spec_recording_id(room: Seq<char>, stamp: Seq<char>) -> Seq<char> {
    "recording-"@ + room + "-"@ + stamp
}

/// A path component appended below a directory.
pub open spec fn spec_joined(dir: Seq<char>, name: Seq<char>) -> Seq<char> {
    dir + "/"@ + name
}

/// The file name of a participant's audio track.
pub open spec fn spec_audio_filename(pid: Seq<char>, name: Seq<char>) -> Seq<char> {
    pid + "-"@ + spec_sanitize(name) + "-audio.webm"@
}

/// The file name of a participant's video track.
pub open spec fn spec_video_filename(pid: Seq<char>, name: Seq<char>) -> Seq<char> {
    pid + "-"@ + spec_sanitize(name) + "-video.webm"@
}

/// Total number of bytes over a sequence of chunks.
pub open spec fn sum_chunk_lens(cs: Seq<Seq<u8>>) -> int
    decreases cs.len(),
{
    if cs.len() == 0 {
        0
    } else {
        cs[0].len() + sum_chunk_lens(cs.drop_first())
    }
}

/// Concatenating chunks yields exactly the sum of their lengths: no gap and
/// no duplication.
pub proof fn lemma_flatten_len(cs: Seq<Seq<u8>>)
    ensures
        cs.flatten().len() == sum_chunk_lens(cs),
    decreases cs.len(),
{
    if cs.len() == 0 {
    } else {
        lemma_flatten_len(cs.drop_first());
    }
}

/// Owns the on-disk layout for one session: the session directory and the
/// recording id. Directory creation itself is performed by the surrounding
/// application before the session is used.
pub struct StorageManager {
    output_dir: String,
    recording_id: String,
}

impl StorageManager {
    pub closed spec fn spec_output_dir(&self) -> Seq<char> {
        self.output_dir@
    }

    pub closed spec fn spec_recording_id(&self) -> Seq<char> {
        self.recording_id@
    }

    /// Lays the session out under `base_dir` with the given timestamp label:
    /// the id is `recording-{room_id}-{stamp}` and the directory is
    /// `{base_dir}/{id}`.
    pub fn new_at(base_dir: &str, room_id: &str, stamp: &str) -> (r: StorageManager)
        ensures
            r.spec_recording_id() == spec_recording_id(room_id@, stamp@),
            r.spec_output_dir() == spec_joined(base_dir@, spec_recording_id(room_id@, stamp@)),
    {
        let mut recording_id = "recording-".to_owned();
        recording_id.append(room_id);
        recording_id.append("-");
        recording_id.append(stamp);
        let mut output_dir = base_dir.to_owned();
        output_dir.append("/");
        output_dir.append(recording_id.as_str());
        StorageManager { output_dir, recording_id }
    }

    /// Lays the session out with a timestamp label taken from the wall
    /// clock.
    pub fn new(base_dir: String, room_id: &str) -> (r: RecordingResult<StorageManager>)
        ensures
            r matches Ok(m) && (exists|t: i64|
                m.spec_recording_id() == spec_recording_id(room_id@, clock::time_label(t as int))
                    && m.spec_output_dir() == spec_joined(
                    base_dir@,
                    spec_recording_id(room_id@, clock::time_label(t as int)),
                )),
    {
        let t = clock::now_millis();
        let stamp = clock::format_timestamp(t);
        let m = StorageManager::new_at(base_dir.as_str(), room_id, stamp.as_str());
        proof {
            assert(m.spec_recording_id() == spec_recording_id(room_id@, clock::time_label(t as int)));
        }
        Ok(m)
    }

    pub fn get_output_dir(&self) -> (r: &str)
        ensures
            r@ == self.spec_output_dir(),
    {
        self.output_dir.as_str()
    }

    pub fn get_recording_id(&self) -> (r: &str)
        ensures
            r@ == self.spec_recording_id(),
    {
        self.recording_id.as_str()
    }

    /// Opens the model writer for a participant's audio track file
    /// `{participantId}-{sanitizedName}-audio.webm` below the session
    /// directory.
    pub fn create_audio_file(
        &self,
        participant_id: &str,
        participant_name: &str,
        _config: &RecordingConfig,
    ) -> (r: RecordingResult<AudioFileWriter>)
        ensures
            r matches Ok(w) && w.wf() && w.chunk_log() == Seq::<Seq<u8>>::empty() && w.spec_path()
                == spec_joined(
                self.spec_output_dir(),
                spec_audio_filename(participant_id@, participant_name@),
            ),
    {
        let mut filename = participant_id.to_owned();
        filename.append("-");
        filename.append(sanitize_filename(participant_name).as_str());
        filename.append("-audio.webm");
        let mut path = self.output_dir.clone();
        path.append("/");
        path.append(filename.as_str());
        Ok(AudioFileWriter { path, chunk_count: 0, chunks: Ghost(Seq::empty()) })
    }

    /// Opens the model writer for a participant's video track file
    /// `{participantId}-{sanitizedName}-video.webm` below the session
    /// directory.
    pub fn create_video_file(&self, participant_id: &str, participant_name: &str) -> (r:
        RecordingResult<VideoFileWriter>)
        ensures
            r matches Ok(w) && w.wf() && w.chunk_log() == Seq::<Seq<u8>>::empty() && w.spec_path()
                == spec_joined(
                self.spec_output_dir(),
                spec_video_filename(participant_id@, participant_name@),
            ),
    {
        let mut filename = participant_id.to_owned();
        filename.append("-");
        filename.append(sanitize_filename(participant_name).as_str());
        filename.append("-video.webm");
        let mut path = self.output_dir.clone();
        path.append("/");
        path.append(filename.as_str());
        Ok(VideoFileWriter { path, chunk_count: 0, chunks: Ghost(Seq::empty()) })
    }

    /// The path of the session's metadata document.
    pub fn metadata_path(&self) -> (r: String)
        ensures
            r@ == spec_joined(self.spec_output_dir(), "metadata.json"@),
    {
        let mut path = self.output_dir.clone();
        path.append("/");
        path.append("metadata.json");
        path
    }
}

/// Byte-exact model of a participant's audio track file: the path and the
/// chunks appended so far, in order.
pub struct AudioFileWriter {
    path: String,
    chunk_count: u64,
    chunks: Ghost<Seq<Seq<u8>>>,
}

impl AudioFileWriter {
    pub closed spec fn spec_path(&self) -> Seq<char> {
        self.path@
    }

    /// Every chunk appended so far, in arrival order.
    pub closed spec fn chunk_log(&self) -> Seq<Seq<u8>> {
        self.chunks@
    }

    /// The bytes of the file: the chunks concatenated verbatim.
    pub open spec fn data(&self) -> Seq<u8> {
        self.chunk_log().flatten()
    }

    pub closed spec fn wf(&self) -> bool {
        self.chunk_count == self.chunks@.len()
    }

    /// Appends the raw chunk verbatim at the end of the file.
    pub fn write_chunk(&mut self, chunk: &[u8]) -> (r: RecordingResult<()>)
        requires
            old(self).wf(),
            old(self).chunk_log().len() < u64::MAX,
        ensures
            final(self).wf(),
            r is Ok,
            final(self).spec_path() == old(self).spec_path(),
            final(self).chunk_log() == old(self).chunk_log().push(chunk@),
            final(self).data() == old(self).data() + chunk@,
    {
        proof {
            self.chunks@.lemma_flatten_push(chunk@);
        }
        self.chunks = Ghost(self.chunks@.push(chunk@));
        self.chunk_count = self.chunk_count + 1;
        Ok(())
    }

    /// Closes the file and returns its resolved path.
    pub fn finalize(self) -> (r: RecordingResult<String>)
        ensures
            r matches Ok(p) && p@ == self.spec_path(),
    {
        Ok(self.path)
    }
}

/// Byte-exact model of a participant's video track file: the path and the
/// chunks appended so far, in order.
pub struct VideoFileWriter {
    path: String,
    chunk_count: u64,
    chunks: Ghost<Seq<Seq<u8>>>,
}

impl VideoFileWriter {
    pub closed spec fn spec_path(&self) -> Seq<char> {
        self.path@
    }

    /// Every chunk appended so far, in arrival order.
    pub closed spec fn chunk_log(&self) -> Seq<Seq<u8>> {
        self.chunks@
    }

    /// The bytes of the file: the chunks concatenated verbatim.
    pub open spec fn data(&self) -> Seq<u8> {
        self.chunk_log().flatten()
    }

    pub closed spec fn wf(&self) -> bool {
        self.chunk_count == self.chunks@.len()
    }

    /// Appends the raw chunk verbatim at the end of the file.
    pub fn write_chunk(&mut self, chunk_data: &[u8]) -> (r: RecordingResult<()>)
        requires
            old(self).wf(),
            old(self).chunk_log().len() < u64::MAX,
        ensures
            final(self).wf(),
            r is Ok,
            final(self).spec_path() == old(self).spec_path(),
            final(self).chunk_log() == old(self).chunk_log().push(chunk_data@),
            final(self).data() == old(self).data() + chunk_data@,
    {
        proof {
            self.chunks@.lemma_flatten_push(chunk_data@);
        }
        self.chunks = Ghost(self.chunks@.push(chunk_data@));
        self.chunk_count = self.chunk_count + 1;
        Ok(())
    }

    /// Closes the file and returns its resolved path.
    pub fn finalize(self) -> (r: RecordingResult<String>)
        ensures
            r matches Ok(p) && p@ == self.spec_path(),
    {
        Ok(self.path)
    }
}

} // verus!
