//! The records a job leaves on disk.
use crate::binary32::Binary32;
use crate::paths;
use crate::text;
use vstd::prelude::*;

verus! {

#[derive(Debug, Clone, Copy, PartialEq, Eq, Structural)]
pub enum JobStatus {
    Pending,
    Processing,
    Completed,
    Failed,
}

/// State of a job's summary. The text itself lives in `summary.txt`, see
/// `JobMetadata::summary_path`.
#[derive(Debug, Clone, Copy, PartialEq, Eq, Structural)]
pub enum SummaryStatus {
    NotStarted,
    Generating,
    Ready,
    Failed,
}

impl Default for SummaryStatus {
    fn default() -> (r: Self)
        ensures
            r == SummaryStatus::NotStarted,
    {
        SummaryStatus::NotStarted
    }
}

/// What `job.json` holds.
#[derive(Debug)]
pub struct JobMetadata {
    pub job_id: String,
    pub audio_path: String,
    pub transcript_path: String,
    pub checkpoint_path: String,
    pub status: JobStatus,
    /// Seconds since the epoch, in decimal; so are the other moments below.
    pub created_at: String,
    /// The transcript is complete, whether or not the embeddings are.
    pub transcript_ready: bool,
    pub processing_started_at: Option<String>,
    pub transcript_ready_at: Option<String>,
    pub completed_at: Option<String>,
    pub summary_status: SummaryStatus,
    /// The client's file name, to be shown and never to be part of a path.
    pub original_filename: Option<String>,
    /// Length of the audio, where it could be measured.
    pub duration_seconds: Option<Binary32>,
    /// The title the client chose, to be shown and never to be part of a path.
    pub title: Option<String>,
    pub callback_url: Option<String>,
}

/// `JobMetadata` with texts by their characters.
#[verifier::ext_equal]
pub struct JobMetadataView {
    pub job_id: Seq<char>,
    pub audio_path: Seq<char>,
    pub transcript_path: Seq<char>,
    pub checkpoint_path: Seq<char>,
    pub status: JobStatus,
    pub created_at: Seq<char>,
    pub transcript_ready: bool,
    pub processing_started_at: Option<Seq<char>>,
    pub transcript_ready_at: Option<Seq<char>>,
    pub completed_at: Option<Seq<char>>,
    pub summary_status: SummaryStatus,
    pub original_filename: Option<Seq<char>>,
    pub duration_seconds: Option<Binary32>,
    pub title: Option<Seq<char>>,
    pub callback_url: Option<Seq<char>>,
}

impl View for JobMetadata {
    type V = JobMetadataView;

    open spec fn view(&self) -> JobMetadataView {
        JobMetadataView {
            job_id: self.job_id@,
            audio_path: self.audio_path@,
            transcript_path: self.transcript_path@,
            checkpoint_path: self.checkpoint_path@,
            status: self.status,
            created_at: self.created_at@,
            transcript_ready: self.transcript_ready,
            processing_started_at: text::optional(self.processing_started_at),
            transcript_ready_at: text::optional(self.transcript_ready_at),
            completed_at: text::optional(self.completed_at),
            summary_status: self.summary_status,
            original_filename: text::optional(self.original_filename),
            duration_seconds: self.duration_seconds,
            title: text::optional(self.title),
            callback_url: text::optional(self.callback_url),
        }
    }
}

impl JobMetadata {
    /// `metrics.jsonl`, beside the transcript.
    pub fn metrics_path(&self) -> (r: String)
        ensures
            r@ == paths::with_name(self@.transcript_path, "metrics.jsonl"@),
    {
        paths::with_file_name(self.transcript_path.as_str(), "metrics.jsonl")
    }

    /// `summary.txt`, beside the transcript.
    pub fn summary_path(&self) -> (r: String)
        ensures
            r@ == paths::with_name(self@.transcript_path, "summary.txt"@),
    {
        paths::with_file_name(self.transcript_path.as_str(), "summary.txt")
    }
}

/// A stretch of audio: its number, where it lies, and its samples at 16 kHz mono.
#[derive(Debug)]
pub struct AudioChunk {
    pub index: usize,
    pub start_sec: Binary32,
    pub end_sec: Binary32,
    pub samples: Vec<Binary32>,
}

/// One line of `transcript.jsonl`.
#[derive(Debug)]
pub struct TranscriptEntry {
    pub chunk: usize,
    pub start: Binary32,
    pub end: Binary32,
    pub text: String,
    /// Mean log probability of the chunk's tokens.
    pub avg_logprob: Binary32,
}

/// `TranscriptEntry` with its text by its characters.
#[verifier::ext_equal]
pub struct TranscriptEntryView {
    pub chunk: usize,
    pub start: Binary32,
    pub end: Binary32,
    pub text: Seq<char>,
    pub avg_logprob: Binary32,
}

impl View for TranscriptEntry {
    type V = TranscriptEntryView;

    open spec fn view(&self) -> TranscriptEntryView {
        TranscriptEntryView {
            chunk: self.chunk,
            start: self.start,
            end: self.end,
            text: self.text@,
            avg_logprob: self.avg_logprob,
        }
    }
}

impl TranscriptEntry {
    pub fn copy(&self) -> (r: TranscriptEntry)
        ensures
            r@ == self@,
            r.chunk == self.chunk,
            r.start == self.start,
            r.end == self.end,
            r.text@ == self.text@,
            r.avg_logprob == self.avg_logprob,
    {
        TranscriptEntry {
            chunk: self.chunk,
            start: self.start,
            end: self.end,
            text: self.text.clone(),
            avg_logprob: self.avg_logprob,
        }
    }
}

/// One line of `metrics.jsonl`: the time each stage took, and how sure the model was.
#[derive(Debug, Clone, Copy, PartialEq, Eq, Structural)]
pub struct ChunkMetrics {
    pub chunk: usize,
    pub start: Binary32,
    pub end: Binary32,
    pub decode_ms: u64,
    pub whisper_ms: u64,
    pub persist_ms: u64,
    pub total_ms: u64,
    /// Characters the model wrote, before any suppression.
    pub text_len: usize,
    pub avg_logprob: Binary32,
    /// `exp(avg_logprob)`.
    pub score: Binary32,
    pub no_speech_prob: Binary32,
    pub entropy: Binary32,
    pub segment_count: usize,
    /// The text was blanked because it repeated the chunks before it.
    pub loop_suppressed: bool,
}

/// What `checkpoint.json` holds: the last finished chunk and where it ends.
#[derive(Debug, Clone, Copy, PartialEq, Eq, Structural)]
pub struct Checkpoint {
    pub last_chunk: usize,
    pub processed_seconds: Binary32,
}

impl Default for Checkpoint {
    fn default() -> (r: Self)
        ensures
            r.last_chunk == 0,
            r.processed_seconds == Binary32::zero_number(),
    {
        Checkpoint { last_chunk: 0, processed_seconds: Binary32::zero() }
    }
}

} // verus!
