//! Jobs: how one is created, found again and changed.
use crate::audio_pipeline::models::{JobMetadata, JobMetadataView, JobStatus, SummaryStatus};
use crate::audio_pipeline::util;
use crate::ids;
use crate::paths;
use crate::text;
use vstd::prelude::*;
use vstd::string::*;

verus! {

/// The directory of a job.
pub open spec fn dir_of(jobs_dir: Seq<char>, job_id: Seq<char>) -> Seq<char> {
    paths::joined(jobs_dir, job_id)
}

/// Where the metadata of a job lies.
pub open spec fn json_of(jobs_dir: Seq<char>, job_id: Seq<char>) -> Seq<char> {
    paths::joined(dir_of(jobs_dir, job_id), "job.json"@)
}

/// A job that nothing was done for yet.
pub open spec fn fresh_job(
    jobs_dir: Seq<char>,
    job_id: Seq<char>,
    extension: Seq<char>,
    created_at: Seq<char>,
    original_filename: Option<Seq<char>>,
) -> JobMetadataView {
    let dir = dir_of(jobs_dir, job_id);
    JobMetadataView {
        job_id,
        audio_path: paths::joined(dir, "audio."@ + extension),
        transcript_path: paths::joined(dir, "transcript.jsonl"@),
        checkpoint_path: paths::joined(dir, "checkpoint.json"@),
        status: JobStatus::Pending,
        created_at,
        transcript_ready: false,
        processing_started_at: None,
        transcript_ready_at: None,
        completed_at: None,
        summary_status: SummaryStatus::NotStarted,
        original_filename,
        duration_seconds: None,
        title: None,
        callback_url: None,
    }
}

/// The directory of a job.
pub fn job_dir(jobs_dir: &str, job_id: &str) -> (r: String)
    ensures
        r@ == dir_of(jobs_dir@, job_id@),
{
    paths::join(jobs_dir, job_id)
}

/// Where the metadata of a job lies.
pub fn ruta_job_json(jobs_dir: &str, job_id: &str) -> (r: String)
    ensures
        r@ == json_of(jobs_dir@, job_id@),
{
    paths::join(job_dir(jobs_dir, job_id).as_str(), "job.json")
}

/// The metadata of a new job with this identifier, created at this moment.
pub fn new_metadata(
    jobs_dir: &str,
    job_id: String,
    extension: &str,
    created_at: String,
    original_filename: Option<String>,
) -> (r: JobMetadata)
    ensures
        r@ == fresh_job(
            jobs_dir@,
            job_id@,
            extension@,
            created_at@,
            text::optional(original_filename),
        ),
        r.job_id@ == job_id@,
        r.created_at@ == created_at@,
        text::optional(r.original_filename) == text::optional(original_filename),
        r.audio_path@ == paths::joined(dir_of(jobs_dir@, job_id@), "audio."@ + extension@),
        r.transcript_path@ == paths::joined(dir_of(jobs_dir@, job_id@), "transcript.jsonl"@),
        r.checkpoint_path@ == paths::joined(dir_of(jobs_dir@, job_id@), "checkpoint.json"@),
        r.status == JobStatus::Pending,
        r.summary_status == SummaryStatus::NotStarted,
        !r.transcript_ready,
        r.processing_started_at is None,
        r.transcript_ready_at is None,
        r.completed_at is None,
        r.duration_seconds is None,
        r.title is None,
        r.callback_url is None,
{
    let dir = job_dir(jobs_dir, job_id.as_str());
    let mut audio = "audio.".to_owned();
    audio.push_str(extension);
    JobMetadata {
        job_id,
        audio_path: paths::join(dir.as_str(), audio.as_str()),
        transcript_path: paths::join(dir.as_str(), "transcript.jsonl"),
        checkpoint_path: paths::join(dir.as_str(), "checkpoint.json"),
        status: JobStatus::Pending,
        created_at,
        transcript_ready: false,
        processing_started_at: None,
        transcript_ready_at: None,
        completed_at: None,
        summary_status: SummaryStatus::default(),
        original_filename,
        duration_seconds: None,
        title: None,
        callback_url: None,
    }
}

/// A new job, with a random identifier (marked by its digit 4), created now. `extension` is one the library chose, never
/// one a client sent: it is part of a path. `original_filename` is not.
pub fn create_job(jobs_dir: &str, extension: &str, original_filename: Option<String>) -> (r:
    JobMetadata)
    ensures
        r@ == fresh_job(
            jobs_dir@,
            r@.job_id,
            extension@,
            r@.created_at,
            text::optional(original_filename),
        ),
        ids::is_canonical(r@.job_id),
        r@.job_id[14] == '4',
        util::is_moment(r@.created_at),
{
    let job_id = ids::random_uuid();
    new_metadata(jobs_dir, job_id, extension, util::now_epoch_string(), original_filename)
}

/// Why a job could not be loaded.
#[derive(Debug)]
pub enum JobError {
    InvalidId,
    NotFound { job_id: String },
    InvalidJson { job_id: String },
}

/// `JobError` with texts by their characters.
#[verifier::ext_equal]
pub enum JobErrorView {
    InvalidId,
    NotFound { job_id: Seq<char> },
    InvalidJson { job_id: Seq<char> },
}

impl View for JobError {
    type V = JobErrorView;

    open spec fn view(&self) -> JobErrorView {
        match *self {
            JobError::InvalidId => JobErrorView::InvalidId,
            JobError::NotFound { job_id } => JobErrorView::NotFound { job_id: job_id@ },
            JobError::InvalidJson { job_id } => JobErrorView::InvalidJson { job_id: job_id@ },
        }
    }
}

impl JobErrorView {
    pub open spec fn text(self) -> Seq<char> {
        match self {
            JobErrorView::InvalidId => "job_id no es un UUID válido"@,
            JobErrorView::NotFound { job_id } => "no se encontró el job '"@ + job_id + "'"@,
            JobErrorView::InvalidJson { job_id } => "job.json inválido para el job '"@ + job_id
                + "'"@,
        }
    }
}

impl JobError {
    pub fn message(&self) -> (r: String)
        ensures
            r@ == self@.text(),
    {
        let mut out = String::new();
        match self {
            JobError::InvalidId => {
                out.push_str("job_id no es un UUID válido");
            },
            JobError::NotFound { job_id } => {
                out.push_str("no se encontró el job '");
                out.push_str(job_id.as_str());
                out.push_str("'");
            },
            JobError::InvalidJson { job_id } => {
                out.push_str("job.json inválido para el job '");
                out.push_str(job_id.as_str());
                out.push_str("'");
            },
        }
        assert(out@ == self@.text());
        out
    }
}

/// What was found at the path of a job's metadata.
#[derive(Debug)]
pub enum StoredJob {
    Unreadable,
    Malformed,
    Present { metadata: JobMetadata },
}

/// Which file to read for this job. The identifier may come from anyone: unless it denotes a
/// UUID, no path is made of it.
pub fn load_job(jobs_dir: &str, job_id: &str) -> (r: Result<String, JobError>)
    ensures
        match r {
            Ok(path) => ids::is_uuid(job_id@) && path@ == json_of(jobs_dir@, job_id@),
            Err(e) => !ids::is_uuid(job_id@) && e@ == JobErrorView::InvalidId,
        },
{
    if !ids::parses_as_uuid(job_id) {
        return Err(JobError::InvalidId);
    }
    Ok(ruta_job_json(jobs_dir, job_id))
}

/// What became of reading it.
pub fn loaded_job(job_id: &str, stored: StoredJob) -> (r: Result<JobMetadata, JobError>)
    ensures
        match stored {
            StoredJob::Unreadable => r matches Err(e) && e@ == (JobErrorView::NotFound {
                job_id: job_id@,
            }),
            StoredJob::Malformed => r matches Err(e) && e@ == (JobErrorView::InvalidJson {
                job_id: job_id@,
            }),
            StoredJob::Present { metadata } => r matches Ok(m) && m == metadata,
        },
{
    match stored {
        StoredJob::Unreadable => Err(JobError::NotFound { job_id: job_id.to_owned() }),
        StoredJob::Malformed => Err(JobError::InvalidJson { job_id: job_id.to_owned() }),
        StoredJob::Present { metadata } => Ok(metadata),
    }
}

/// A directory up to the separator behind it.
pub open spec fn up_to_separator(dir: Seq<char>) -> Seq<char> {
    if dir.len() == 0 || dir.last() == '/' {
        dir
    } else {
        dir.push('/')
    }
}

/// A loaded job lies in a directory of its own directly below the jobs directory, wherever that
/// is: the path is that directory, the identifier as one component, and the file.
pub proof fn loaded_path_stays_in_jobs_dir(jobs_dir: Seq<char>, job_id: Seq<char>)
    requires
        ids::is_uuid(job_id),
    ensures
        dir_of(jobs_dir, job_id) == up_to_separator(jobs_dir) + job_id,
        json_of(jobs_dir, job_id) == (up_to_separator(jobs_dir) + job_id).push('/') + "job.json"@,
        !job_id.contains('/'),
        !job_id.contains('\\'),
        job_id != seq!['.'],
        job_id != seq!['.', '.'],
{
    ids::uuid_is_a_plain_component(job_id);
    assert(job_id.contains(job_id[0]));
    assert(job_id.contains(job_id.last()));
    assert(dir_of(jobs_dir, job_id).last() == job_id.last());
    reveal_strlit("job.json");
}

/// The metrics and the summary of a job lie in its directory, beside the transcript, wherever the
/// jobs directory is.
pub proof fn sidecars_lie_in_the_job_directory(
    jobs_dir: Seq<char>,
    job_id: Seq<char>,
    extension: Seq<char>,
    created_at: Seq<char>,
    original_filename: Option<Seq<char>>,
    sidecar: Seq<char>,
)
    requires
        ids::is_uuid(job_id),
    ensures
        paths::with_name(
            fresh_job(jobs_dir, job_id, extension, created_at, original_filename).transcript_path,
            sidecar,
        ) == paths::joined(dir_of(jobs_dir, job_id), sidecar),
{
    ids::uuid_is_a_plain_component(job_id);
    let dir = dir_of(jobs_dir, job_id);
    assert(job_id.contains(job_id[0]));
    assert(job_id.contains(job_id.last()));
    assert(dir.last() == job_id.last());
    assert(paths::without_tail(dir) == dir);
    reveal_strlit("transcript.jsonl");
    let file = "transcript.jsonl"@;
    assert forall|i: int| 0 <= i < file.len() implies #[trigger] file[i] != '/' by {}
    assert(!file.contains('/'));
    assert(file.len() == 16);
    paths::with_name_keeps_directory(dir, file, sidecar);
}

/// One change of a job's metadata.
#[derive(Debug)]
pub enum JobChange {
    Processing { at: String },
    TranscriptReady { at: String },
    Completed { at: String },
    Failed,
    Summary { status: SummaryStatus },
    /// What the client sent along with the file, and how long the audio is.
    Upload {
        title: Option<String>,
        callback_url: Option<String>,
        duration_seconds: Option<crate::binary32::Binary32>,
    },
}

/// `JobChange` with texts by their characters.
#[verifier::ext_equal]
pub enum JobChangeView {
    Processing { at: Seq<char> },
    TranscriptReady { at: Seq<char> },
    Completed { at: Seq<char> },
    Failed,
    Summary { status: SummaryStatus },
    Upload {
        title: Option<Seq<char>>,
        callback_url: Option<Seq<char>>,
        duration_seconds: Option<crate::binary32::Binary32>,
    },
}

impl View for JobChange {
    type V = JobChangeView;

    open spec fn view(&self) -> JobChangeView {
        match *self {
            JobChange::Processing { at } => JobChangeView::Processing { at: at@ },
            JobChange::TranscriptReady { at } => JobChangeView::TranscriptReady { at: at@ },
            JobChange::Completed { at } => JobChangeView::Completed { at: at@ },
            JobChange::Failed => JobChangeView::Failed,
            JobChange::Summary { status } => JobChangeView::Summary { status },
            JobChange::Upload { title, callback_url, duration_seconds } => JobChangeView::Upload {
                title: text::optional(title),
                callback_url: text::optional(callback_url),
                duration_seconds,
            },
        }
    }
}

impl JobChangeView {
    /// The metadata after the change.
    pub open spec fn applied(self, m: JobMetadataView) -> JobMetadataView {
        match self {
            JobChangeView::Processing { at } => JobMetadataView {
                status: JobStatus::Processing,
                processing_started_at: Some(at),
                ..m
            },
            JobChangeView::TranscriptReady { at } => JobMetadataView {
                transcript_ready: true,
                transcript_ready_at: Some(at),
                ..m
            },
            JobChangeView::Completed { at } => JobMetadataView {
                status: JobStatus::Completed,
                completed_at: Some(at),
                ..m
            },
            JobChangeView::Failed => JobMetadataView { status: JobStatus::Failed, ..m },
            JobChangeView::Summary { status } => JobMetadataView { summary_status: status, ..m },
            JobChangeView::Upload { title, callback_url, duration_seconds } => JobMetadataView {
                title,
                callback_url,
                duration_seconds,
                ..m
            },
        }
    }
}

/// Applies one change, and nothing else.
pub fn update_job_metadata(metadata: &mut JobMetadata, change: JobChange)
    ensures
        final(metadata)@ == change@.applied(old(metadata)@),
        match change {
            JobChange::Processing { at } => final(metadata).status == JobStatus::Processing
                && text::optional(final(metadata).processing_started_at) == Some(at@),
            JobChange::TranscriptReady { at } => final(metadata).transcript_ready && text::optional(
                final(metadata).transcript_ready_at,
            ) == Some(at@),
            JobChange::Completed { at } => final(metadata).status == JobStatus::Completed
                && text::optional(final(metadata).completed_at) == Some(at@),
            JobChange::Failed => final(metadata).status == JobStatus::Failed,
            JobChange::Summary { status } => final(metadata).summary_status == status,
            JobChange::Upload { title, callback_url, duration_seconds } => {
                &&& text::optional(final(metadata).title) == text::optional(title)
                &&& text::optional(final(metadata).callback_url) == text::optional(callback_url)
                &&& final(metadata).duration_seconds == duration_seconds
            },
        },
        final(metadata).job_id == old(metadata).job_id,
        final(metadata).transcript_path == old(metadata).transcript_path,
{
    match change {
        JobChange::Processing { at } => {
            metadata.status = JobStatus::Processing;
            metadata.processing_started_at = Some(at);
        },
        JobChange::TranscriptReady { at } => {
            metadata.transcript_ready = true;
            metadata.transcript_ready_at = Some(at);
        },
        JobChange::Completed { at } => {
            metadata.status = JobStatus::Completed;
            metadata.completed_at = Some(at);
        },
        JobChange::Failed => {
            metadata.status = JobStatus::Failed;
        },
        JobChange::Summary { status } => {
            metadata.summary_status = status;
        },
        JobChange::Upload { title, callback_url, duration_seconds } => {
            metadata.title = title;
            metadata.callback_url = callback_url;
            metadata.duration_seconds = duration_seconds;
        },
    }
}

/// The new metadata of a job: what was stored of it with one change, and nothing else, or why it
/// could not be loaded. A job that does not load is not changed.
pub fn updated_job(job_id: &str, stored: StoredJob, change: JobChange) -> (r: Result<
    JobMetadata,
    JobError,
>)
    ensures
        match stored {
            StoredJob::Unreadable => r matches Err(e) && e@ == (JobErrorView::NotFound {
                job_id: job_id@,
            }),
            StoredJob::Malformed => r matches Err(e) && e@ == (JobErrorView::InvalidJson {
                job_id: job_id@,
            }),
            StoredJob::Present { metadata } => r matches Ok(m) && m@ == change@.applied(metadata@),
        },
{
    match loaded_job(job_id, stored) {
        Ok(mut metadata) => {
            update_job_metadata(&mut metadata, change);
            Ok(metadata)
        },
        Err(e) => Err(e),
    }
}

/// No change ever touches what a job is known by, where its files lie or when it was created; and
/// none takes back that its transcript is ready.
pub proof fn changes_keep_identity(change: JobChangeView, m: JobMetadataView)
    ensures
        ({
            let after = change.applied(m);
            &&& after.job_id == m.job_id
            &&& after.audio_path == m.audio_path
            &&& after.transcript_path == m.transcript_path
            &&& after.checkpoint_path == m.checkpoint_path
            &&& after.created_at == m.created_at
            &&& after.original_filename == m.original_filename
            &&& m.transcript_ready ==> after.transcript_ready
        }),
{
}

/// Which part of a job a change is about. Changes of different parts touch different fields.
pub open spec fn part_of(change: JobChangeView) -> int {
    match change {
        JobChangeView::Processing { at } => 0,
        JobChangeView::Completed { at } => 0,
        JobChangeView::Failed => 0,
        JobChangeView::TranscriptReady { at } => 1,
        JobChangeView::Summary { status } => 2,
        JobChangeView::Upload { title, callback_url, duration_seconds } => 3,
    }
}

/// Changes of different parts of a job that are made one behind the other leave the same job,
/// whichever comes first: none is lost to the other.
pub proof fn changes_of_different_parts_commute(
    a: JobChangeView,
    b: JobChangeView,
    m: JobMetadataView,
)
    requires
        part_of(a) != part_of(b),
    ensures
        a.applied(b.applied(m)) == b.applied(a.applied(m)),
{
}

/// One entry of the jobs directory: whether it is a directory, and what loading the job of its
/// name gave.
#[derive(Debug)]
pub struct JobsDirEntry {
    pub is_dir: bool,
    pub loaded: Result<JobMetadata, JobError>,
}

/// The jobs among the entries: directories whose metadata can be loaded, in order.
pub open spec fn jobs_among(entries: Seq<JobsDirEntry>) -> Seq<JobMetadata>
    decreases entries.len(),
{
    if entries.len() == 0 {
        Seq::empty()
    } else {
        let rest = jobs_among(entries.drop_first());
        match entries[0].loaded {
            Ok(m) => if entries[0].is_dir {
                seq![m] + rest
            } else {
                rest
            },
            Err(_) => rest,
        }
    }
}

/// The jobs of the jobs directory. One that cannot be read is left out, and spoils no other.
pub fn list_jobs(entries: Vec<JobsDirEntry>) -> (r: Vec<JobMetadata>)
    ensures
        r@ == jobs_among(entries@),
{
    let ghost all = entries@;
    let mut pending = entries;
    let mut reversed: Vec<JobMetadata> = Vec::new();
    assert(all.skip(all.len() as int).len() == 0);
    while pending.len() > 0
        invariant
            pending@.len() <= all.len(),
            pending@ == all.take(pending@.len() as int),
            reversed@.reverse() == jobs_among(all.skip(pending@.len() as int)),
        decreases pending@.len(),
    {
        let ghost n = pending@.len() as int;
        let ghost rest = all.skip(n);
        let ghost before = reversed@;
        match pending.pop() {
            Some(entry) => {
                assert(all.skip(n - 1)[0] == entry);
                assert(all.skip(n - 1).drop_first() == rest);
                match entry.loaded {
                    Ok(m) => {
                        if entry.is_dir {
                            reversed.push(m);
                            assert(reversed@.reverse() =~= seq![m] + before.reverse());
                        }
                    },
                    Err(_) => {},
                }
            },
            None => {},
        }
    }
    assert(all.skip(0) == all);
    let mut out: Vec<JobMetadata> = Vec::new();
    let ghost back = reversed@;
    while reversed.len() > 0
        invariant
            reversed@.len() <= back.len(),
            reversed@ == back.take(reversed@.len() as int),
            out@ == back.skip(reversed@.len() as int).reverse(),
        decreases reversed@.len(),
    {
        let ghost n = reversed@.len() as int;
        let ghost before = out@;
        match reversed.pop() {
            Some(m) => {
                out.push(m);
                assert(back.skip(n - 1).reverse() =~= before.push(m));
            },
            None => {},
        }
    }
    assert(back.skip(0) == back);
    out
}

/// What each change sets, and that it leaves everything else: the status and its moment, the
/// transcript, the summary, or what came along with the file.
pub proof fn changes_set_their_own_fields(change: JobChangeView, m: JobMetadataView)
    ensures
        ({
            let after = change.applied(m);
            &&& after.status == (match change {
                JobChangeView::Processing { at } => JobStatus::Processing,
                JobChangeView::Completed { at } => JobStatus::Completed,
                JobChangeView::Failed => JobStatus::Failed,
                _ => m.status,
            })
            &&& after.processing_started_at == (match change {
                JobChangeView::Processing { at } => Some(at),
                _ => m.processing_started_at,
            })
            &&& after.completed_at == (match change {
                JobChangeView::Completed { at } => Some(at),
                _ => m.completed_at,
            })
            &&& after.transcript_ready == (change is TranscriptReady || m.transcript_ready)
            &&& after.transcript_ready_at == (match change {
                JobChangeView::TranscriptReady { at } => Some(at),
                _ => m.transcript_ready_at,
            })
            &&& after.summary_status == (match change {
                JobChangeView::Summary { status } => status,
                _ => m.summary_status,
            })
            &&& change matches JobChangeView::Upload { title, callback_url, duration_seconds }
                ==> after.title == title && after.callback_url == callback_url
                && after.duration_seconds == duration_seconds
            &&& !(change is Upload) ==> after.title == m.title && after.callback_url
                == m.callback_url && after.duration_seconds == m.duration_seconds
        }),
{
}

/// A new job waits, with nothing done and nothing known of it but its file name and the moment it
/// was made; its files lie in a directory of its own, each under its own name.
pub proof fn new_job_waits_in_its_own_directory(
    jobs_dir: Seq<char>,
    job_id: Seq<char>,
    extension: Seq<char>,
    created_at: Seq<char>,
    original_filename: Option<Seq<char>>,
)
    requires
        ids::is_uuid(job_id),
    ensures
        ({
            let m = fresh_job(jobs_dir, job_id, extension, created_at, original_filename);
            let dir = (up_to_separator(jobs_dir) + job_id).push('/');
            &&& m.job_id == job_id
            &&& m.audio_path == dir + ("audio."@ + extension)
            &&& m.transcript_path == dir + "transcript.jsonl"@
            &&& m.checkpoint_path == dir + "checkpoint.json"@
            &&& m.created_at == created_at
            &&& m.original_filename == original_filename
            &&& m.status is Pending
            &&& m.summary_status is NotStarted
            &&& !m.transcript_ready
            &&& m.processing_started_at is None
            &&& m.transcript_ready_at is None
            &&& m.completed_at is None
            &&& m.duration_seconds is None
            &&& m.title is None
            &&& m.callback_url is None
        }),
{
    loaded_path_stays_in_jobs_dir(jobs_dir, job_id);
    ids::uuid_is_a_plain_component(job_id);
    assert(job_id.contains(job_id.last()));
    assert(dir_of(jobs_dir, job_id).last() == job_id.last());
    reveal_strlit("audio.");
    reveal_strlit("transcript.jsonl");
    reveal_strlit("checkpoint.json");
    assert(("audio."@ + extension)[0] == 'a');
}

/// The listing goes entry by entry, in order: a directory whose metadata loads is listed as it is,
/// and nothing else is.
pub proof fn listing_goes_entry_by_entry(
    a: Seq<JobsDirEntry>,
    b: Seq<JobsDirEntry>,
    entry: JobsDirEntry,
)
    ensures
        jobs_among(a + b) == jobs_among(a) + jobs_among(b),
        entry.is_dir && entry.loaded is Ok ==> jobs_among(seq![entry]) == seq![entry.loaded->Ok_0],
        !entry.is_dir || entry.loaded is Err ==> jobs_among(seq![entry]).len() == 0,
    decreases a.len(),
{
    let one = seq![entry];
    assert(one.drop_first().len() == 0);
    assert(jobs_among(one.drop_first()) =~= Seq::<JobMetadata>::empty());
    assert(one[0] == entry);
    if a.len() == 0 {
        assert(a + b == b);
        assert(jobs_among(a) + jobs_among(b) == jobs_among(b));
    } else {
        listing_goes_entry_by_entry(a.drop_first(), b, entry);
        assert((a + b).drop_first() == a.drop_first() + b);
        assert((a + b)[0] == a[0]);
    }
}

/// An error tells which job it is about, and what became of it.
pub proof fn errors_name_their_job(job_id: Seq<char>)
    ensures
        (JobErrorView::NotFound { job_id }).text() == "no se encontró el job '"@ + job_id + "'"@,
        (JobErrorView::InvalidJson { job_id }).text() == "job.json inválido para el job '"@ + job_id
            + "'"@,
        JobErrorView::InvalidId.text() == "job_id no es un UUID válido"@,
{
}

} // verus!
