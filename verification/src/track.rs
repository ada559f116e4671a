//! Per-participant track layer: up to two pipelines (audio, video), each
//! feeding one track file, plus the per-track statistics.
//!
//! Chunks are accounted here synchronously and byte-exactly. The bounded
//! queue and the dedicated worker thread that carry chunks to disk are
//! runtime plumbing of the surrounding application; the application sizes
//! its queues with [`CHANNEL_BUFFER_SIZE`] and appends to the file exactly
//! the chunks ingested here.

use crate::storage::{sum_chunk_lens, lemma_flatten_len, AudioFileWriter, VideoFileWriter};
use crate::types::{RecordingConfig, RecordingResult};
use vstd::prelude::*;

verus! {

/// Capacity of the queue between an ingesting caller and a track worker.
pub const CHANNEL_BUFFER_SIZE: usize = 1000;

/// Statistics of one participant's track. Received counts increment at
/// ingestion time; byte counts when a chunk reaches its file.
#[derive(Debug)]
pub struct TrackStats {
    pub audio_chunks_received: u64,
    pub video_chunks_received: u64,
    pub audio_bytes_written: u64,
    pub video_bytes_written: u64,
    pub errors: Vec<String>,
}

impl Default for TrackStats {
    fn default() -> (r: Self)
        ensures
            r.audio_chunks_received == 0,
            r.video_chunks_received == 0,
            r.audio_bytes_written == 0,
            r.video_bytes_written == 0,
            r.errors@ == Seq::<String>::empty(),
    {
        TrackStats {
            audio_chunks_received: 0,
            video_chunks_received: 0,
            audio_bytes_written: 0,
            video_bytes_written: 0,
            errors: Vec::new(),
        }
    }
}

impl Clone for TrackStats {
    fn clone(&self) -> (r: Self)
        ensures
            r.audio_chunks_received == self.audio_chunks_received,
            r.video_chunks_received == self.video_chunks_received,
            r.audio_bytes_written == self.audio_bytes_written,
            r.video_bytes_written == self.video_bytes_written,
            r.errors@ == self.errors@,
    {
        let mut errors: Vec<String> = Vec::new();
        let mut i: usize = 0;
        while i < self.errors.len()
            invariant
                i <= self.errors.len(),
                errors@ == self.errors@.subrange(0, i as int),
            decreases self.errors.len() - i,
        {
            errors.push(self.errors[i].clone());
            proof {
                assert(errors@ =~= self.errors@.subrange(0, (i + 1) as int));
            }
            i += 1;
        }
        proof {
            assert(errors@ =~= self.errors@);
        }
        TrackStats {
            audio_chunks_received: self.audio_chunks_received,
            video_chunks_received: self.video_chunks_received,
            audio_bytes_written: self.audio_bytes_written,
            video_bytes_written: self.video_bytes_written,
            errors,
        }
    }
}

/// Handles recording of a single participant: an optional audio pipeline,
/// an optional video pipeline, and the shared statistics.
pub struct TrackRecorder {
    participant_id: String,
    audio_writer: Option<AudioFileWriter>,
    video_writer: Option<VideoFileWriter>,
    stats: TrackStats,
}

/// Everything a stopped track hands back: the resolved file paths and a
/// final snapshot of the statistics, together with the byte-exact model of
/// each file.
pub struct TrackRecordingResult {
    pub participant_id: String,
    pub audio_file: Option<String>,
    pub video_file: Option<String>,
    pub stats: TrackStats,
    pub audio_data: Ghost<Seq<u8>>,
    pub video_data: Ghost<Seq<u8>>,
}

impl TrackRecorder {
    pub closed spec fn spec_participant_id(&self) -> Seq<char> {
        self.participant_id@
    }

    pub closed spec fn has_audio(&self) -> bool {
        self.audio_writer is Some
    }

    pub closed spec fn has_video(&self) -> bool {
        self.video_writer is Some
    }

    /// Every audio chunk ingested so far, in arrival order.
    pub closed spec fn audio_log(&self) -> Seq<Seq<u8>> {
        self.audio_writer->Some_0.chunk_log()
    }

    /// Every video chunk ingested so far, in arrival order.
    pub closed spec fn video_log(&self) -> Seq<Seq<u8>> {
        self.video_writer->Some_0.chunk_log()
    }

    /// The bytes of the audio track file.
    pub open spec fn audio_data(&self) -> Seq<u8> {
        self.audio_log().flatten()
    }

    /// The bytes of the video track file.
    pub open spec fn video_data(&self) -> Seq<u8> {
        self.video_log().flatten()
    }

    pub closed spec fn audio_path(&self) -> Seq<char> {
        self.audio_writer->Some_0.spec_path()
    }

    pub closed spec fn video_path(&self) -> Seq<char> {
        self.video_writer->Some_0.spec_path()
    }

    pub closed spec fn spec_stats(&self) -> TrackStats {
        self.stats
    }

    /// The statistics mirror the pipelines exactly: chunk counts equal the
    /// log lengths and byte counts equal the file sizes; a missing pipeline
    /// keeps its counters at zero.
    pub closed spec fn wf(&self) -> bool {
        &&& (self.audio_writer matches Some(w) ==> {
            &&& w.wf()
            &&& self.stats.audio_chunks_received == w.chunk_log().len()
            &&& self.stats.audio_bytes_written == w.data().len()
        })
        &&& (self.audio_writer is None ==> self.stats.audio_chunks_received == 0
            && self.stats.audio_bytes_written == 0)
        &&& (self.video_writer matches Some(w) ==> {
            &&& w.wf()
            &&& self.stats.video_chunks_received == w.chunk_log().len()
            &&& self.stats.video_bytes_written == w.data().len()
        })
        &&& (self.video_writer is None ==> self.stats.video_chunks_received == 0
            && self.stats.video_bytes_written == 0)
    }

    /// Room for one more audio chunk of the given length without counter
    /// overflow; a machine limit, unreachable in practice.
    pub open spec fn audio_can_accept(&self, len: nat) -> bool {
        self.has_audio() ==> self.spec_stats().audio_chunks_received < u64::MAX
            && self.spec_stats().audio_bytes_written + len <= u64::MAX
    }

    /// Room for one more video chunk of the given length without counter
    /// overflow; a machine limit, unreachable in practice.
    pub open spec fn video_can_accept(&self, len: nat) -> bool {
        self.has_video() ==> self.spec_stats().video_chunks_received < u64::MAX
            && self.spec_stats().video_bytes_written + len <= u64::MAX
    }

    /// The id of the participant this track belongs to.
    pub fn participant_id(&self) -> (r: &str)
        ensures
            r@ == self.spec_participant_id(),
    {
        self.participant_id.as_str()
    }

    /// Creates the track from the writers the storage manager opened, with
    /// zeroed statistics.
    pub fn new(
        participant_id: String,
        _participant_name: String,
        _config: &RecordingConfig,
        audio_writer: Option<AudioFileWriter>,
        video_writer: Option<VideoFileWriter>,
    ) -> (r: RecordingResult<TrackRecorder>)
        requires
            audio_writer matches Some(w) ==> w.wf() && w.chunk_log().len() == 0,
            video_writer matches Some(w) ==> w.wf() && w.chunk_log().len() == 0,
        ensures
            r matches Ok(t) && {
                &&& t.wf()
                &&& t.spec_participant_id() == participant_id@
                &&& t.has_audio() == (audio_writer is Some)
                &&& t.has_video() == (video_writer is Some)
                &&& t.has_audio() ==> t.audio_path() == audio_writer->Some_0.spec_path()
                    && t.audio_log() == Seq::<Seq<u8>>::empty()
                &&& t.has_video() ==> t.video_path() == video_writer->Some_0.spec_path()
                    && t.video_log() == Seq::<Seq<u8>>::empty()
                &&& t.spec_stats().audio_chunks_received == 0
                &&& t.spec_stats().video_chunks_received == 0
                &&& t.spec_stats().audio_bytes_written == 0
                &&& t.spec_stats().video_bytes_written == 0
                &&& t.spec_stats().errors@ == Seq::<String>::empty()
            },
    {
        Ok(
            TrackRecorder {
                participant_id,
                audio_writer,
                video_writer,
                stats: TrackStats::default(),
            },
        )
    }

    /// Ingests an audio chunk. With no audio pipeline this is a silent
    /// no-op; otherwise the received count increments and the chunk is
    /// appended verbatim to the audio file.
    pub fn add_audio_chunk(&mut self, chunk: Vec<u8>) -> (r: RecordingResult<()>)
        requires
            old(self).wf(),
            old(self).audio_can_accept(chunk@.len()),
        ensures
            r is Ok,
            final(self).wf(),
            !old(self).has_audio() ==> *final(self) == *old(self),
            old(self).has_audio() ==> {
                &&& final(self).audio_log() == old(self).audio_log().push(chunk@)
                &&& final(self).audio_data() == old(self).audio_data() + chunk@
                &&& final(self).spec_stats().audio_chunks_received == old(self).spec_stats().audio_chunks_received + 1
                &&& final(self).spec_stats().audio_bytes_written == old(self).spec_stats().audio_bytes_written + chunk@.len()
                &&& final(self).spec_stats().video_chunks_received == old(self).spec_stats().video_chunks_received
                &&& final(self).spec_stats().video_bytes_written == old(self).spec_stats().video_bytes_written
                &&& final(self).spec_stats().errors == old(self).spec_stats().errors
                &&& final(self).spec_participant_id() == old(self).spec_participant_id()
                &&& final(self).has_audio() && final(self).has_video() == old(self).has_video()
                &&& final(self).audio_path() == old(self).audio_path()
                &&& old(self).has_video() ==> final(self).video_log() == old(self).video_log()
                    && final(self).video_path() == old(self).video_path()
            },
    {
        match &mut self.audio_writer {
            Some(w) => {
                w.write_chunk(chunk.as_slice())?;
                self.stats.audio_chunks_received = self.stats.audio_chunks_received + 1;
                self.stats.audio_bytes_written = self.stats.audio_bytes_written + (chunk.len()
                    as u64);
                Ok(())
            },
            None => Ok(()),
        }
    }

    /// Ingests a video chunk. With no video pipeline this is a silent
    /// no-op; otherwise the received count increments and the chunk is
    /// appended verbatim to the video file.
    pub fn add_video_chunk(&mut self, chunk: Vec<u8>) -> (r: RecordingResult<()>)
        requires
            old(self).wf(),
            old(self).video_can_accept(chunk@.len()),
        ensures
            r is Ok,
            final(self).wf(),
            !old(self).has_video() ==> *final(self) == *old(self),
            old(self).has_video() ==> {
                &&& final(self).video_log() == old(self).video_log().push(chunk@)
                &&& final(self).video_data() == old(self).video_data() + chunk@
                &&& final(self).spec_stats().video_chunks_received == old(self).spec_stats().video_chunks_received + 1
                &&& final(self).spec_stats().video_bytes_written == old(self).spec_stats().video_bytes_written + chunk@.len()
                &&& final(self).spec_stats().audio_chunks_received == old(self).spec_stats().audio_chunks_received
                &&& final(self).spec_stats().audio_bytes_written == old(self).spec_stats().audio_bytes_written
                &&& final(self).spec_stats().errors == old(self).spec_stats().errors
                &&& final(self).spec_participant_id() == old(self).spec_participant_id()
                &&& final(self).has_video() && final(self).has_audio() == old(self).has_audio()
                &&& final(self).video_path() == old(self).video_path()
                &&& old(self).has_audio() ==> final(self).audio_log() == old(self).audio_log()
                    && final(self).audio_path() == old(self).audio_path()
            },
    {
        match &mut self.video_writer {
            Some(w) => {
                w.write_chunk(chunk.as_slice())?;
                self.stats.video_chunks_received = self.stats.video_chunks_received + 1;
                self.stats.video_bytes_written = self.stats.video_bytes_written + (chunk.len()
                    as u64);
                Ok(())
            },
            None => Ok(()),
        }
    }

    /// Logs a failed write. A write failure never stops ingestion; it is
    /// recorded here and the pipeline keeps running.
    pub fn record_write_error(&mut self, message: String) -> (r: ())
        requires
            old(self).wf(),
        ensures
            final(self).wf(),
            final(self).spec_stats().errors@ == old(self).spec_stats().errors@.push(message),
            final(self).spec_stats().audio_chunks_received == old(self).spec_stats().audio_chunks_received,
            final(self).spec_stats().video_chunks_received == old(self).spec_stats().video_chunks_received,
            final(self).spec_stats().audio_bytes_written == old(self).spec_stats().audio_bytes_written,
            final(self).spec_stats().video_bytes_written == old(self).spec_stats().video_bytes_written,
            final(self).spec_participant_id() == old(self).spec_participant_id(),
            final(self).has_audio() == old(self).has_audio(),
            final(self).has_video() == old(self).has_video(),
            old(self).has_audio() ==> final(self).audio_log() == old(self).audio_log() && final(self).audio_path() == old(self).audio_path(),
            old(self).has_video() ==> final(self).video_log() == old(self).video_log() && final(self).video_path() == old(self).video_path(),
    {
        self.stats.errors.push(message);
    }

    /// Stops the track: finalizes the open files and returns the resolved
    /// paths with a final snapshot of the statistics.
    pub fn stop(self) -> (r: RecordingResult<TrackRecordingResult>)
        requires
            self.wf(),
        ensures
            r matches Ok(res) && {
                &&& res.participant_id@ == self.spec_participant_id()
                &&& (res.audio_file is Some <==> self.has_audio())
                &&& (res.video_file is Some <==> self.has_video())
                &&& self.has_audio() ==> res.audio_file->Some_0@ == self.audio_path()
                    && res.audio_data@ == self.audio_data()
                &&& self.has_video() ==> res.video_file->Some_0@ == self.video_path()
                    && res.video_data@ == self.video_data()
                &&& res.stats == self.spec_stats()
            },
    {
        let ghost g_audio = if self.has_audio() {
            self.audio_data()
        } else {
            Seq::empty()
        };
        let ghost g_video = if self.has_video() {
            self.video_data()
        } else {
            Seq::empty()
        };
        let audio_file = match self.audio_writer {
            Some(w) => Some(w.finalize()?),
            None => None,
        };
        let video_file = match self.video_writer {
            Some(w) => Some(w.finalize()?),
            None => None,
        };
        Ok(
            TrackRecordingResult {
                participant_id: self.participant_id,
                audio_file,
                video_file,
                stats: self.stats,
                audio_data: Ghost(g_audio),
                video_data: Ghost(g_video),
            },
        )
    }
}

/// Law: after any sequence of audio ingestions, the audio file holds
/// exactly the ingested chunks, concatenated in arrival order; its byte
/// length is the sum of the chunk lengths, which is the recorded byte
/// counter; and the received count is the number of chunks.
pub proof fn lemma_audio_bytes_exact(t: &TrackRecorder)
    requires
        t.wf(),
        t.has_audio(),
    ensures
        t.audio_data() == t.audio_log().flatten(),
        t.spec_stats().audio_bytes_written == sum_chunk_lens(t.audio_log()),
        t.spec_stats().audio_chunks_received == t.audio_log().len(),
{
    lemma_flatten_len(t.audio_log());
}

/// Law: the video counterpart of `lemma_audio_bytes_exact`.
pub proof fn lemma_video_bytes_exact(t: &TrackRecorder)
    requires
        t.wf(),
        t.has_video(),
    ensures
        t.video_data() == t.video_log().flatten(),
        t.spec_stats().video_bytes_written == sum_chunk_lens(t.video_log()),
        t.spec_stats().video_chunks_received == t.video_log().len(),
{
    lemma_flatten_len(t.video_log());
}

} // verus!
