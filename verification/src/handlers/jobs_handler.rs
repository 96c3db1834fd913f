//! What clients may read of a job.
use crate::audio_pipeline::job::JobError;
use crate::audio_pipeline::jsonl_writer;
use crate::audio_pipeline::models::{
    ChunkMetrics, Checkpoint, JobMetadata, JobMetadataView, JobStatus, SummaryStatus,
    TranscriptEntry, TranscriptEntryView,
};
use crate::binary32::Binary32;
use crate::config::Real;
use crate::handlers;
use crate::handlers::{refuse_no_such_job, refuse_server_error, Refusal, RefusalView, BAD_REQUEST};
use crate::paths;
use crate::text;
use vstd::prelude::*;
use vstd::string::*;

verus! {

/// What clients see of a job: no path on the server's disk.
#[derive(Debug)]
pub struct JobSummary {
    pub job_id: String,
    pub status: JobStatus,
    pub transcript_ready: bool,
    pub created_at: String,
    pub processing_started_at: Option<String>,
    pub transcript_ready_at: Option<String>,
    pub completed_at: Option<String>,
    pub summary_status: SummaryStatus,
    /// The summary itself, once it is ready.
    pub summary: Option<String>,
    pub original_filename: Option<String>,
    pub duration_seconds: Option<Binary32>,
    pub title: Option<String>,
}

/// `JobSummary` with texts by their characters.
#[verifier::ext_equal]
pub struct JobSummaryView {
    pub job_id: Seq<char>,
    pub status: JobStatus,
    pub transcript_ready: bool,
    pub created_at: Seq<char>,
    pub processing_started_at: Option<Seq<char>>,
    pub transcript_ready_at: Option<Seq<char>>,
    pub completed_at: Option<Seq<char>>,
    pub summary_status: SummaryStatus,
    pub summary: Option<Seq<char>>,
    pub original_filename: Option<Seq<char>>,
    pub duration_seconds: Option<Binary32>,
    pub title: Option<Seq<char>>,
}

impl View for JobSummary {
    type V = JobSummaryView;

    open spec fn view(&self) -> JobSummaryView {
        JobSummaryView {
            job_id: self.job_id@,
            status: self.status,
            transcript_ready: self.transcript_ready,
            created_at: self.created_at@,
            processing_started_at: text::optional(self.processing_started_at),
            transcript_ready_at: text::optional(self.transcript_ready_at),
            completed_at: text::optional(self.completed_at),
            summary_status: self.summary_status,
            summary: text::optional(self.summary),
            original_filename: text::optional(self.original_filename),
            duration_seconds: self.duration_seconds,
            title: text::optional(self.title),
        }
    }
}

/// What clients see of a job whose summary file holds `stored`, `None` where it cannot be read.
pub open spec fn summary_of(m: JobMetadataView, stored: Option<Seq<char>>) -> JobSummaryView {
    JobSummaryView {
        job_id: m.job_id,
        status: m.status,
        transcript_ready: m.transcript_ready,
        created_at: m.created_at,
        processing_started_at: m.processing_started_at,
        transcript_ready_at: m.transcript_ready_at,
        completed_at: m.completed_at,
        summary_status: m.summary_status,
        summary: if m.summary_status == SummaryStatus::Ready {
            stored
        } else {
            None
        },
        original_filename: m.original_filename,
        duration_seconds: m.duration_seconds,
        title: m.title,
    }
}

impl JobSummary {
    /// This shows the job as its metadata has it, field by field; and the text of its summary
    /// exactly if that is ready.
    pub open spec fn shows(self, m: JobMetadata, stored: Option<Seq<char>>) -> bool {
        &&& self.job_id@ == m.job_id@
        &&& self.status == m.status
        &&& self.transcript_ready == m.transcript_ready
        &&& self.created_at@ == m.created_at@
        &&& text::optional(self.processing_started_at) == text::optional(m.processing_started_at)
        &&& text::optional(self.transcript_ready_at) == text::optional(m.transcript_ready_at)
        &&& text::optional(self.completed_at) == text::optional(m.completed_at)
        &&& self.summary_status == m.summary_status
        &&& m.summary_status == SummaryStatus::Ready ==> text::optional(self.summary) == stored
        &&& m.summary_status != SummaryStatus::Ready ==> self.summary is None
        &&& text::optional(self.original_filename) == text::optional(m.original_filename)
        &&& self.duration_seconds == m.duration_seconds
        &&& text::optional(self.title) == text::optional(m.title)
    }

    /// The file with the summary, if there is one to read.
    pub fn file_of(metadata: &JobMetadata) -> (r: Option<String>)
        ensures
            text::optional(r) == (if metadata@.summary_status == SummaryStatus::Ready {
                Some(paths::with_name(metadata@.transcript_path, "summary.txt"@))
            } else {
                None
            }),
    {
        if metadata.summary_status == SummaryStatus::Ready {
            Some(metadata.summary_path())
        } else {
            None
        }
    }

    /// What clients see of a job.
    pub fn from(metadata: &JobMetadata, stored: Option<String>) -> (r: JobSummary)
        ensures
            r@ == summary_of(metadata@, text::optional(stored)),
            r.shows(*metadata, text::optional(stored)),
    {
        let summary = if metadata.summary_status == SummaryStatus::Ready {
            stored
        } else {
            None
        };
        JobSummary {
            job_id: metadata.job_id.clone(),
            status: metadata.status,
            transcript_ready: metadata.transcript_ready,
            created_at: metadata.created_at.clone(),
            processing_started_at: text::copy_optional(&metadata.processing_started_at),
            transcript_ready_at: text::copy_optional(&metadata.transcript_ready_at),
            completed_at: text::copy_optional(&metadata.completed_at),
            summary_status: metadata.summary_status,
            summary,
            original_filename: text::copy_optional(&metadata.original_filename),
            duration_seconds: metadata.duration_seconds,
            title: text::copy_optional(&metadata.title),
        }
    }
}

/// What clients see does not depend on where the server keeps its files, nor on the callback.
pub proof fn summaries_hide_paths(
    a: JobMetadataView,
    b: JobMetadataView,
    stored: Option<Seq<char>>,
)
    requires
        b == (JobMetadataView {
            audio_path: b.audio_path,
            transcript_path: b.transcript_path,
            checkpoint_path: b.checkpoint_path,
            callback_url: b.callback_url,
            ..a
        }),
    ensures
        summary_of(a, stored) == summary_of(b, stored),
{
}

/// A summary is shown exactly when it is ready and can be read.
pub proof fn summaries_are_shown_when_ready(m: JobMetadataView, stored: Option<Seq<char>>)
    ensures
        summary_of(m, stored).summary is Some <==> m.summary_status == SummaryStatus::Ready
            && stored is Some,
{
}

/// A job and the text of its summary file, `None` where there is none to read.
#[derive(Debug)]
pub struct ListedJob {
    pub metadata: JobMetadata,
    pub stored_summary: Option<String>,
}

/// What clients see of a listed job.
pub open spec fn listed_summary(j: ListedJob) -> JobSummaryView {
    summary_of(j.metadata@, text::optional(j.stored_summary))
}

pub open spec fn summaries_view(v: Seq<JobSummary>) -> Seq<JobSummaryView> {
    v.map_values(|s: JobSummary| s@)
}

/// All jobs, in the order they were listed; `None` stands for a directory that cannot be read.
pub fn listar_jobs_handler(jobs: Option<Vec<ListedJob>>) -> (r: Result<Vec<JobSummary>, Refusal>)
    ensures
        match jobs {
            Some(v) => r matches Ok(s) && summaries_view(s@) == v@.map_values(
                |j: ListedJob| listed_summary(j),
            ),
            None => r matches Err(e) && e@ == handlers::server_error(),
        },
        jobs matches Some(v) ==> {
            &&& r matches Ok(s)
            &&& s@.len() == v@.len()
            &&& forall|i: int|
                0 <= i < v@.len() ==> (#[trigger] s@[i]).shows(
                    v@[i].metadata,
                    text::optional(v@[i].stored_summary),
                )
        },
{
    let jobs = match jobs {
        Some(v) => v,
        None => return Err(refuse_server_error()),
    };
    let ghost wanted = jobs@.map_values(|j: ListedJob| listed_summary(j));
    let mut out: Vec<JobSummary> = Vec::new();
    let mut i: usize = 0;
    while i < jobs.len()
        invariant
            i <= jobs@.len(),
            wanted == jobs@.map_values(|j: ListedJob| listed_summary(j)),
            summaries_view(out@) == wanted.take(i as int),
            out@.len() == i,
            forall|k: int|
                0 <= k < i ==> (#[trigger] out@[k]).shows(
                    jobs@[k].metadata,
                    text::optional(jobs@[k].stored_summary),
                ),
        decreases jobs@.len() - i,
    {
        let ghost before = summaries_view(out@);
        let s = JobSummary::from(
            &jobs[i].metadata,
            text::copy_optional(&jobs[i].stored_summary),
        );
        assert(s@ == wanted[i as int]);
        out.push(s);
        assert(summaries_view(out@) =~= before.push(s@));
        assert(wanted.take(i + 1) =~= wanted.take(i as int).push(wanted[i as int]));
        i = i + 1;
    }
    assert(wanted.take(i as int) =~= wanted);
    Ok(out)
}

/// What clients see of one job: its summary and how far it has come.
#[derive(Debug)]
pub struct JobStatusResponse {
    pub summary: JobSummary,
    pub last_chunk: usize,
    pub processed_seconds: Binary32,
}

/// The state of one job. A checkpoint that cannot be read counts as none.
pub fn obtener_job_handler(
    loaded: Result<JobMetadata, JobError>,
    stored_summary: Option<String>,
    checkpoint: Result<Checkpoint, String>,
) -> (r: Result<JobStatusResponse, Refusal>)
    ensures
        match loaded {
            Err(_) => r matches Err(e) && e@ == handlers::no_such_job(),
            Ok(m) => r matches Ok(s) && {
                &&& s.summary@ == summary_of(m@, text::optional(stored_summary))
                &&& s.last_chunk == (match checkpoint {
                    Ok(c) => c.last_chunk,
                    Err(_) => 0,
                })
                &&& s.processed_seconds == (match checkpoint {
                    Ok(c) => c.processed_seconds,
                    Err(_) => Binary32::zero_number(),
                })
            },
        },
        loaded matches Ok(m) ==> (r matches Ok(s) && s.summary.shows(
            m,
            text::optional(stored_summary),
        )),
{
    let metadata = match loaded {
        Ok(m) => m,
        Err(_) => return Err(refuse_no_such_job()),
    };
    let reached = match checkpoint {
        Ok(c) => c,
        Err(_) => Checkpoint::default(),
    };
    Ok(
        JobStatusResponse {
            summary: JobSummary::from(&metadata, stored_summary),
            last_chunk: reached.last_chunk,
            processed_seconds: reached.processed_seconds,
        },
    )
}

/// An entry of a transcript, and whether it is doubtful.
#[derive(Debug)]
pub struct MarkedEntry {
    pub entry: TranscriptEntry,
    pub low_confidence: bool,
}

/// `MarkedEntry` with texts by their characters.
#[verifier::ext_equal]
pub struct MarkedEntryView {
    pub entry: TranscriptEntryView,
    pub low_confidence: bool,
}

impl View for MarkedEntry {
    type V = MarkedEntryView;

    open spec fn view(&self) -> MarkedEntryView {
        MarkedEntryView { entry: self.entry@, low_confidence: self.low_confidence }
    }
}

/// The entry, doubtful where its mean log probability lies under the threshold.
pub open spec fn marked(e: TranscriptEntryView, threshold: Binary32) -> MarkedEntryView {
    MarkedEntryView {
        entry: e,
        low_confidence: crate::rag::generation::doubtful(e.avg_logprob, threshold),
    }
}

pub open spec fn marked_view(v: Seq<MarkedEntry>) -> Seq<MarkedEntryView> {
    v.map_values(|e: MarkedEntry| e@)
}

/// What clients see of a transcript.
#[derive(Debug)]
pub struct TranscriptResponse {
    pub status: JobStatus,
    pub transcript_ready: bool,
    pub entries: Vec<MarkedEntry>,
}

/// What was found where the lines of a job should be.
#[derive(Debug)]
pub enum StoredEntries<T> {
    Missing,
    Unreadable,
    Present { entries: Vec<T> },
}

/// The marked entries are these entries, each as it is and in order, and a mark stands exactly at
/// those whose mean log probability is lower than the threshold.
pub open spec fn marks(
    shown: Seq<MarkedEntry>,
    entries: Seq<TranscriptEntry>,
    threshold: Binary32,
) -> bool {
    &&& shown.len() == entries.len()
    &&& forall|i: int|
        0 <= i < entries.len() ==> {
            &&& (#[trigger] shown[i]).entry == entries[i]
            &&& shown[i].low_confidence == (!entries[i].avg_logprob.nan() && !threshold.nan()
                && entries[i].avg_logprob.value_rank() < threshold.value_rank())
        }
}

fn mark_entries(entries: Vec<TranscriptEntry>, threshold: Binary32) -> (r: Vec<MarkedEntry>)
    ensures
        marked_view(r@) == entries@.map_values(|e: TranscriptEntry| marked(e@, threshold)),
        marks(r@, entries@, threshold),
{
    let ghost wanted = entries@.map_values(|e: TranscriptEntry| marked(e@, threshold));
    let mut entries = entries;
    let mut out: Vec<MarkedEntry> = Vec::new();
    let n: usize = entries.len();
    let ghost all = entries@;
    assert(marked_view(out@) =~= wanted.skip(n as int));
    while entries.len() > 0
        invariant
            n == all.len(),
            entries@.len() <= n,
            entries@ == all.take(entries@.len() as int),
            wanted == all.map_values(|e: TranscriptEntry| marked(e@, threshold)),
            marked_view(out@) == wanted.skip(entries@.len() as int),
            marks(out@, all.skip(entries@.len() as int), threshold),
        decreases entries@.len(),
    {
        let ghost k = entries@.len() as int;
        let ghost shown = out@;
        let ghost before = marked_view(out@);
        match entries.pop() {
            Some(entry) => {
                let low_confidence = entry.avg_logprob.is_below(threshold);
                let m = MarkedEntry { entry, low_confidence };
                assert(m@ == wanted[k - 1]);
                out.insert(0, m);
                assert(marks(out@, all.skip(k - 1), threshold)) by {
                    let rest = all.skip(k);
                    let more = all.skip(k - 1);
                    assert(out@ == seq![m] + shown);
                    assert forall|i: int| 0 <= i < more.len() implies {
                        &&& (#[trigger] out@[i]).entry == more[i]
                        &&& out@[i].low_confidence == (!more[i].avg_logprob.nan()
                            && !threshold.nan() && more[i].avg_logprob.value_rank()
                            < threshold.value_rank())
                    } by {
                        if i > 0 {
                            assert(out@[i] == shown[i - 1]);
                            assert(more[i] == rest[i - 1]);
                        }
                    }
                }
                assert(marked_view(out@) =~= seq![m@] + before);
                assert(wanted.skip(k - 1) =~= seq![wanted[k - 1]] + wanted.skip(k));
            },
            None => {},
        }
    }
    assert(wanted.skip(0) =~= wanted);
    assert(all.skip(0) == all);
    out
}

/// The transcript of a job as far as it is written. A transcript that is not there yet is empty,
/// not an error.
pub fn construir_transcript_response(
    metadata: &JobMetadata,
    stored: StoredEntries<TranscriptEntry>,
    threshold: Binary32,
) -> (r: Result<TranscriptResponse, Refusal>)
    ensures
        match stored {
            StoredEntries::Unreadable => r matches Err(e) && e@ == handlers::server_error(),
            StoredEntries::Missing => r matches Ok(t) && t.status == metadata.status
                && t.transcript_ready == metadata.transcript_ready && t.entries@.len() == 0,
            StoredEntries::Present { entries } => r matches Ok(t) && t.status == metadata.status
                && t.transcript_ready == metadata.transcript_ready && marked_view(t.entries@)
                == entries@.map_values(|e: TranscriptEntry| marked(e@, threshold)) && marks(
                t.entries@,
                entries@,
                threshold,
            ),
        },
{
    let entries = match stored {
        StoredEntries::Unreadable => return Err(refuse_server_error()),
        StoredEntries::Missing => Vec::new(),
        StoredEntries::Present { entries } => mark_entries(entries, threshold),
    };
    Ok(
        TranscriptResponse {
            status: metadata.status,
            transcript_ready: metadata.transcript_ready,
            entries,
        },
    )
}

/// The transcript of a job that may not exist.
pub fn obtener_transcript_handler(
    loaded: Result<JobMetadata, JobError>,
    stored: StoredEntries<TranscriptEntry>,
    threshold: Binary32,
) -> (r: Result<TranscriptResponse, Refusal>)
    ensures
        match (loaded, stored) {
            (Err(_), _) => r matches Err(e) && e@ == handlers::no_such_job(),
            (Ok(m), StoredEntries::Unreadable) => r matches Err(e) && e@
                == handlers::server_error(),
            (Ok(m), StoredEntries::Missing) => r matches Ok(t) && t.status == m.status
                && t.transcript_ready == m.transcript_ready && t.entries@.len() == 0,
            (Ok(m), StoredEntries::Present { entries }) => r matches Ok(t) && t.status == m.status
                && t.transcript_ready == m.transcript_ready && marked_view(t.entries@)
                == entries@.map_values(|e: TranscriptEntry| marked(e@, threshold)) && marks(
                t.entries@,
                entries@,
                threshold,
            ),
        },
{
    match loaded {
        Ok(metadata) => construir_transcript_response(&metadata, stored, threshold),
        Err(_) => Err(refuse_no_such_job()),
    }
}

/// What clients see of the metrics of a job.
#[derive(Debug)]
pub struct MetricsResponse {
    pub entries: Vec<ChunkMetrics>,
}

/// The metrics of a job that may not exist, as far as they are written.
pub fn obtener_metricas_handler(
    loaded: Result<JobMetadata, JobError>,
    stored: StoredEntries<ChunkMetrics>,
) -> (r: Result<MetricsResponse, Refusal>)
    ensures
        match (loaded, stored) {
            (Err(_), _) => r matches Err(e) && e@ == handlers::no_such_job(),
            (Ok(_), StoredEntries::Unreadable) => r matches Err(e) && e@
                == handlers::server_error(),
            (Ok(_), StoredEntries::Missing) => r matches Ok(m) && m.entries@.len() == 0,
            (Ok(_), StoredEntries::Present { entries }) => r matches Ok(m) && m.entries@
                == entries@,
        },
{
    match loaded {
        Err(_) => Err(refuse_no_such_job()),
        Ok(_) => match stored {
            StoredEntries::Unreadable => Err(refuse_server_error()),
            StoredEntries::Missing => Ok(MetricsResponse { entries: Vec::new() }),
            StoredEntries::Present { entries } => Ok(MetricsResponse { entries }),
        },
    }
}

/// The lines that hold a value: those that are not blank, in order.
pub open spec fn value_lines(lines: Seq<Seq<char>>) -> Seq<Seq<char>>
    decreases lines.len(),
{
    if lines.len() == 0 {
        Seq::empty()
    } else if text::is_blank(lines.last()) {
        value_lines(lines.drop_last())
    } else {
        value_lines(lines.drop_last()).push(lines.last())
    }
}

/// The lines of a file that hold a value.
pub fn leer_jsonl_entries(lines: &Vec<String>) -> (r: Vec<String>)
    ensures
        text::texts(r@) == value_lines(text::texts(lines@)),
{
    let ghost all = text::texts(lines@);
    let mut out: Vec<String> = Vec::new();
    let mut i: usize = 0;
    assert(text::texts(out@) =~= value_lines(all.take(0)));
    while i < lines.len()
        invariant
            i <= lines@.len(),
            all == text::texts(lines@),
            text::texts(out@) == value_lines(all.take(i as int)),
        decreases lines@.len() - i,
    {
        let ghost before = text::texts(out@);
        assert(all.take(i + 1).drop_last() =~= all.take(i as int));
        assert(all.take(i + 1).last() == lines@[i as int]@);
        if !text::blank(lines[i].as_str()) {
            out.push(lines[i].clone());
            assert(text::texts(out@) =~= before.push(lines@[i as int]@));
        }
        i = i + 1;
    }
    assert(all.take(i as int) =~= all);
    out
}

/// Every line of a file is UTF-8.
pub open spec fn readable(file: Seq<u8>) -> bool {
    forall|i: int|
        0 <= i < jsonl_writer::lines(file).len() ==> vstd::utf8::valid_utf8(
            #[trigger] jsonl_writer::lines(file)[i],
        )
}

/// The texts that these bytes stand for.
pub open spec fn decoded(lines: Seq<Seq<u8>>) -> Seq<Seq<char>> {
    lines.map_values(|l: Seq<u8>| vstd::utf8::decode_utf8(l))
}

/// The values in a file, in order: its lines, as far as they are not blank.
pub open spec fn values_in(file: Seq<u8>) -> Seq<Seq<char>> {
    value_lines(decoded(jsonl_writer::lines(file)))
}

/// Bytes that a line holds and that give back a value.
pub open spec fn is_value(json: Seq<u8>) -> bool {
    &&& jsonl_writer::fits_on_line(json)
    &&& vstd::utf8::valid_utf8(json)
    &&& !text::is_blank(vstd::utf8::decode_utf8(json))
}

/// Reading a file of whole lines to which values were appended gives the values that were there
/// before, and behind them the new ones, each once and in order; and a file that could be read
/// still can.
pub proof fn reading_gives_earlier_values_and_new_ones(file: Seq<u8>, values: Seq<Seq<u8>>)
    requires
        jsonl_writer::remainder(file).len() == 0,
        forall|i: int| 0 <= i < values.len() ==> is_value(#[trigger] values[i]),
    ensures
        values_in(file + jsonl_writer::appended(values)) == values_in(file) + decoded(values),
        readable(file) ==> readable(file + jsonl_writer::appended(values)),
{
    jsonl_writer::reading_goes_on_behind_earlier_lines(file, values);
    let before = jsonl_writer::lines(file);
    let after = jsonl_writer::lines(file + jsonl_writer::appended(values));
    assert(decoded(after) == decoded(before) + decoded(values));
    assert forall|i: int| 0 <= i < decoded(values).len() implies !text::is_blank(
        #[trigger] decoded(values)[i],
    ) by {
        assert(is_value(values[i]));
    }
    lemma_values_behind(decoded(before), decoded(values));
    if readable(file) {
        assert forall|i: int| 0 <= i < after.len() implies vstd::utf8::valid_utf8(
            #[trigger] after[i],
        ) by {
            if i < before.len() {
                assert(after[i] == before[i]);
            } else {
                assert(after[i] == values[i - before.len()]);
                assert(is_value(values[i - before.len()]));
            }
        }
    }
}

proof fn lemma_values_behind(earlier: Seq<Seq<char>>, new: Seq<Seq<char>>)
    requires
        forall|i: int| 0 <= i < new.len() ==> !text::is_blank(#[trigger] new[i]),
    ensures
        value_lines(earlier + new) == value_lines(earlier) + new,
    decreases new.len(),
{
    if new.len() == 0 {
        assert(earlier + new == earlier);
        assert(value_lines(earlier) + new == value_lines(earlier));
    } else {
        let head = new.drop_last();
        assert forall|i: int| 0 <= i < head.len() implies !text::is_blank(#[trigger] head[i]) by {
            assert(head[i] == new[i]);
        }
        lemma_values_behind(earlier, head);
        assert((earlier + new).drop_last() == earlier + head);
        assert((earlier + new).last() == new[new.len() - 1]);
        assert((value_lines(earlier) + head).push(new.last()) == value_lines(earlier) + new);
    }
}

/// A stretch of a recording that a client wants to hear, in seconds.
#[derive(Debug)]
pub struct AudioSegmentParams {
    pub start: Binary32,
    pub end: Binary32,
    /// `end - start`.
    pub duration: Binary32,
    /// How `start` and `end` are written.
    pub start_shown: String,
    pub end_shown: String,
}

/// The stretch begins within the recording, ends behind its beginning, and is no longer than
/// allowed. What is not a number passes none of these.
pub open spec fn good_segment(p: AudioSegmentParams, max: Binary32) -> bool {
    &&& Binary32::zero_number().at_most(p.start)
    &&& p.start.below(p.end)
    &&& p.duration.at_most(max)
}

/// What is said of a bad stretch.
pub open spec fn bad_segment_refusal(max: Seq<char>) -> RefusalView {
    handlers::refusal(
        BAD_REQUEST,
        "Rango inválido: start debe ser >= 0, end > start, y la duración no puede superar "@ + max
            + " segundos"@,
    )
}

/// The arguments with which `ffmpeg` cuts a stretch of the file at `audio_path` to MP3.
pub open spec fn segment_args(start: Seq<char>, end: Seq<char>, audio_path: Seq<char>) -> Seq<
    Seq<char>,
> {
    seq![
        "-v"@,
        "error"@,
        "-ss"@,
        start,
        "-to"@,
        end,
        "-i"@,
        audio_path,
        "-f"@,
        "mp3"@,
        "-"@,
    ]
}

/// How a stretch of a recording is cut: the arguments of `ffmpeg`, or why it is not. The job is
/// looked at before the stretch.
pub fn obtener_segmento_audio_handler(
    loaded: Result<JobMetadata, JobError>,
    params: AudioSegmentParams,
    max: &Real,
) -> (r: Result<Vec<String>, Refusal>)
    ensures
        match loaded {
            Err(_) => r matches Err(e) && e@ == handlers::no_such_job(),
            Ok(m) => if !good_segment(params, max.value) {
                r matches Err(e) && e@ == bad_segment_refusal(max@.shown)
            } else {
                r matches Ok(args) && text::texts(args@) == segment_args(
                    params.start_shown@,
                    params.end_shown@,
                    m@.audio_path,
                )
            },
        },
        loaded matches Ok(m) ==> (r is Ok <==> {
            &&& !params.start.nan() && params.start.value_rank() >= 0
            &&& !params.end.nan() && params.start.value_rank() < params.end.value_rank()
            &&& !params.duration.nan() && !max.value.nan() && params.duration.value_rank()
                <= max.value.value_rank()
        }),
        loaded matches Ok(m) ==> (r matches Ok(args) ==> {
            &&& args@.len() == 11
            &&& args@[2]@ == "-ss"@ && args@[3]@ == params.start_shown@
            &&& args@[4]@ == "-to"@ && args@[5]@ == params.end_shown@
            &&& args@[6]@ == "-i"@ && args@[7]@ == m.audio_path@
        }),
{
    let metadata = match loaded {
        Ok(m) => m,
        Err(_) => return Err(refuse_no_such_job()),
    };
    if !Binary32::zero().is_at_most(params.start) || !params.start.is_below(params.end)
        || !params.duration.is_at_most(max.value) {
        let mut message =
            "Rango inválido: start debe ser >= 0, end > start, y la duración no puede superar ".to_owned();
        message.push_str(max.shown.as_str());
        message.push_str(" segundos");
        return Err(Refusal { status: BAD_REQUEST, message });
    }
    let mut args: Vec<String> = Vec::new();
    args.push("-v".to_owned());
    args.push("error".to_owned());
    args.push("-ss".to_owned());
    args.push(params.start_shown);
    args.push("-to".to_owned());
    args.push(params.end_shown);
    args.push("-i".to_owned());
    args.push(metadata.audio_path);
    args.push("-f".to_owned());
    args.push("mp3".to_owned());
    args.push("-".to_owned());
    assert(text::texts(args@) =~= segment_args(
        params.start_shown@,
        params.end_shown@,
        metadata.audio_path@,
    ));
    Ok(args)
}

/// What a client sees of a job is what the metadata of the job has, field by field: its status
/// whatever else is true of it, how far it has come and when, and what it is called.
pub proof fn clients_see_the_job_as_it_is(m: JobMetadataView, stored: Option<Seq<char>>)
    ensures
        ({
            let shown = summary_of(m, stored);
            &&& shown.job_id == m.job_id
            &&& shown.status == m.status
            &&& shown.transcript_ready == m.transcript_ready
            &&& shown.created_at == m.created_at
            &&& shown.processing_started_at == m.processing_started_at
            &&& shown.transcript_ready_at == m.transcript_ready_at
            &&& shown.completed_at == m.completed_at
            &&& shown.summary_status == m.summary_status
            &&& shown.original_filename == m.original_filename
            &&& shown.duration_seconds == m.duration_seconds
            &&& shown.title == m.title
            &&& m.summary_status == SummaryStatus::Ready ==> shown.summary == stored
            &&& m.summary_status != SummaryStatus::Ready ==> shown.summary is None
        }),
{
}

/// Two jobs that differ in their status are shown as different; so are two that differ in
/// anything else a client sees.
pub proof fn different_jobs_are_shown_as_different(
    a: JobMetadataView,
    b: JobMetadataView,
    stored: Option<Seq<char>>,
)
    requires
        summary_of(a, stored) == summary_of(b, stored),
    ensures
        a.job_id == b.job_id,
        a.status == b.status,
        a.transcript_ready == b.transcript_ready,
        a.created_at == b.created_at,
        a.processing_started_at == b.processing_started_at,
        a.transcript_ready_at == b.transcript_ready_at,
        a.completed_at == b.completed_at,
        a.summary_status == b.summary_status,
        a.original_filename == b.original_filename,
        a.duration_seconds == b.duration_seconds,
        a.title == b.title,
{
}

/// An entry is shown as it is, and marked exactly if its mean log probability is lower than the
/// threshold; so a threshold that is not lower marks no fewer.
pub proof fn doubtful_entries_are_marked(
    e: TranscriptEntryView,
    threshold: Binary32,
    higher: Binary32,
)
    ensures
        marked(e, threshold).entry == e,
        marked(e, threshold).low_confidence <==> !e.avg_logprob.nan() && !threshold.nan()
            && e.avg_logprob.value_rank() < threshold.value_rank(),
        threshold.at_most(higher) && marked(e, threshold).low_confidence ==> marked(
            e,
            higher,
        ).low_confidence,
{
}

/// Which lines hold a value is decided line by line, and nothing but blank lines is passed over.
pub proof fn only_blank_lines_are_passed_over(a: Seq<Seq<char>>, b: Seq<Seq<char>>)
    ensures
        value_lines(a + b) == value_lines(a) + value_lines(b),
        forall|l: Seq<char>| #[trigger]
            value_lines(seq![l]) == (if text::is_blank(l) {
                Seq::<Seq<char>>::empty()
            } else {
                seq![l]
            }),
    decreases b.len(),
{
    assert forall|l: Seq<char>| #[trigger]
        value_lines(seq![l]) == (if text::is_blank(l) {
            Seq::<Seq<char>>::empty()
        } else {
            seq![l]
        }) by {
        assert(seq![l].drop_last() =~= Seq::<Seq<char>>::empty());
        assert(value_lines(seq![l].drop_last()).len() == 0);
        assert(seq![l].last() == l);
    }
    if b.len() == 0 {
        assert(a + b == a);
        assert(value_lines(a) + value_lines(b) == value_lines(a));
    } else {
        only_blank_lines_are_passed_over(a, b.drop_last());
        assert((a + b).drop_last() == a + b.drop_last());
        assert((a + b).last() == b.last());
    }
}

} // verus!
