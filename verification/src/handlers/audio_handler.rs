//! Uploads, and what is done with an upload in the background.
use crate::audio_pipeline::job;
use crate::audio_pipeline::job::{JobChange, JobChangeView};
use crate::audio_pipeline::models::{JobMetadataView, JobStatus, SummaryStatus};
use crate::audio_pipeline::util;
use crate::binary32::Binary32;
use crate::handlers;
use crate::handlers::{refuse, refuse_no_such_job, refuse_server_error, Refusal, RefusalView};
use crate::handlers::{BAD_REQUEST, INTERNAL_SERVER_ERROR};
use crate::router::UPLOAD_BODY_LIMIT_BYTES;
use crate::text;
use vstd::prelude::*;
use vstd::slice::*;
use vstd::string::*;

verus! {

/// The bytes of an upload hold `word` at `at`.
pub open spec fn has_at(bytes: Seq<u8>, at: int, word: Seq<u8>) -> bool {
    &&& at + word.len() <= bytes.len()
    &&& forall|i: int| 0 <= i < word.len() ==> bytes[at + i] == #[trigger] word[i]
}

/// The container that the first bytes of a file belong to: MP3 by its tag or a frame header, MP4
/// (and M4A) by its `ftyp` box, WAV by its `RIFF` header. The name of the file plays no part.
pub open spec fn container_of(bytes: Seq<u8>) -> Option<Seq<char>> {
    if has_at(bytes, 0, seq![0x49u8, 0x44u8, 0x33u8]) {
        Some("mp3"@)
    } else if bytes.len() >= 2 && bytes[0] == 0xff && bytes[1] >= 0xe0 {
        Some("mp3"@)
    } else if has_at(bytes, 4, seq![0x66u8, 0x74u8, 0x79u8, 0x70u8]) {
        Some("mp4"@)
    } else if has_at(bytes, 0, seq![0x52u8, 0x49u8, 0x46u8, 0x46u8]) && has_at(
        bytes,
        8,
        seq![0x57u8, 0x41u8, 0x56u8, 0x45u8],
    ) {
        Some("wav"@)
    } else {
        None
    }
}

pub open spec fn static_text(o: Option<&'static str>) -> Option<Seq<char>> {
    match o {
        Some(s) => Some(s@),
        None => None,
    }
}

/// The extension for a file that begins with these bytes, `None` if it is no audio the server
/// takes.
pub fn sniff_audio_extension(bytes: &[u8]) -> (r: Option<&'static str>)
    ensures
        static_text(r) == container_of(bytes@),
        r is None || r->0@ == "mp3"@ || r->0@ == "mp4"@ || r->0@ == "wav"@,
        bytes@.len() < 2 ==> r is None,
{
    let n: usize = bytes.len();
    proof {
        let w = seq![0x49u8, 0x44u8, 0x33u8];
        assert(has_at(bytes@, 0, w) <==> n >= 3 && bytes@[0] == 0x49 && bytes@[1] == 0x44
            && bytes@[2] == 0x33) by {
            if has_at(bytes@, 0, w) {
                assert(bytes@[0] == w[0] && bytes@[1] == w[1] && bytes@[2] == w[2]);
            }
        }
        let w = seq![0x66u8, 0x74u8, 0x79u8, 0x70u8];
        assert(has_at(bytes@, 4, w) <==> n >= 8 && bytes@[4] == 0x66 && bytes@[5] == 0x74
            && bytes@[6] == 0x79 && bytes@[7] == 0x70) by {
            if has_at(bytes@, 4, w) {
                assert(bytes@[4] == w[0] && bytes@[5] == w[1] && bytes@[6] == w[2]
                    && bytes@[7] == w[3]);
            }
        }
        let w = seq![0x52u8, 0x49u8, 0x46u8, 0x46u8];
        assert(has_at(bytes@, 0, w) <==> n >= 4 && bytes@[0] == 0x52 && bytes@[1] == 0x49
            && bytes@[2] == 0x46 && bytes@[3] == 0x46) by {
            if has_at(bytes@, 0, w) {
                assert(bytes@[0] == w[0] && bytes@[1] == w[1] && bytes@[2] == w[2]
                    && bytes@[3] == w[3]);
            }
        }
        let w = seq![0x57u8, 0x41u8, 0x56u8, 0x45u8];
        assert(has_at(bytes@, 8, w) <==> n >= 12 && bytes@[8] == 0x57 && bytes@[9] == 0x41
            && bytes@[10] == 0x56 && bytes@[11] == 0x45) by {
            if has_at(bytes@, 8, w) {
                assert(bytes@[8] == w[0] && bytes@[9] == w[1] && bytes@[10] == w[2]
                    && bytes@[11] == w[3]);
            }
        }
    }
    if n >= 3 && bytes[0] == 0x49 && bytes[1] == 0x44 && bytes[2] == 0x33 {
        return Some("mp3");
    }
    if n >= 2 && bytes[0] == 0xff && bytes[1] >= 0xe0 {
        return Some("mp3");
    }
    if n >= 8 && bytes[4] == 0x66 && bytes[5] == 0x74 && bytes[6] == 0x79 && bytes[7] == 0x70 {
        return Some("mp4");
    }
    if n >= 12 && bytes[0] == 0x52 && bytes[1] == 0x49 && bytes[2] == 0x46 && bytes[3] == 0x46
        && bytes[8] == 0x57 && bytes[9] == 0x41 && bytes[10] == 0x56 && bytes[11] == 0x45 {
        return Some("wav");
    }
    None
}

/// What an upload is answered.
#[derive(Debug)]
pub enum UploadAnswer {
    /// The file is stored and its processing was started.
    Accepted { job_id: String },
    Refused { refusal: Refusal },
}

/// `UploadAnswer` with texts by their characters.
#[verifier::ext_equal]
pub enum UploadAnswerView {
    Accepted { job_id: Seq<char> },
    Refused { refusal: RefusalView },
}

impl View for UploadAnswer {
    type V = UploadAnswerView;

    open spec fn view(&self) -> UploadAnswerView {
        match *self {
            UploadAnswer::Accepted { job_id } => UploadAnswerView::Accepted { job_id: job_id@ },
            UploadAnswer::Refused { refusal } => UploadAnswerView::Refused { refusal: refusal@ },
        }
    }
}

/// The form could not be read, or holds no file.
pub open spec fn unreadable_form() -> RefusalView {
    handlers::refusal(BAD_REQUEST, "Error al leer el archivo multipart"@)
}

/// The file holds nothing.
pub open spec fn empty_file() -> RefusalView {
    handlers::refusal(BAD_REQUEST, "Archivo vacío o inválido"@)
}

/// The file is no audio the server takes.
pub open spec fn unknown_format() -> RefusalView {
    handlers::refusal(
        BAD_REQUEST,
        "Formato no soportado: solo se aceptan mp3, mp4/m4a y wav"@,
    )
}

/// The file ended before its time.
pub open spec fn interrupted() -> RefusalView {
    handlers::refusal(
        BAD_REQUEST,
        "Error leyendo el archivo subido (¿se cortó la conexión, o el archivo supera el límite de "@
            + text::decimal((UPLOAD_BODY_LIMIT_BYTES / 1024 / 1024) as nat) + " MiB?)"@,
    )
}

/// The file could not be written.
pub open spec fn unsaved() -> RefusalView {
    handlers::refusal(INTERNAL_SERVER_ERROR, "Error al guardar el archivo"@)
}

/// The file ended before its time.
fn refuse_interrupted() -> (r: Refusal)
    ensures
        r@ == interrupted(),
{
    let mut message =
        "Error leyendo el archivo subido (¿se cortó la conexión, o el archivo supera el límite de ".to_owned();
    message.push_str(
        text::decimal_text((UPLOAD_BODY_LIMIT_BYTES / 1024 / 1024) as u64).as_str(),
    );
    message.push_str(" MiB?)");
    Refusal { status: BAD_REQUEST, message }
}

/// The job an upload was given.
#[derive(Debug)]
pub struct UploadJob {
    pub job_id: String,
    pub audio_path: String,
}

/// `UploadJob` with texts by their characters.
#[verifier::ext_equal]
pub struct UploadJobView {
    pub job_id: Seq<char>,
    pub audio_path: Seq<char>,
}

impl View for UploadJob {
    type V = UploadJobView;

    open spec fn view(&self) -> UploadJobView {
        UploadJobView { job_id: self.job_id@, audio_path: self.audio_path@ }
    }
}

pub open spec fn upload_job_view(o: Option<UploadJob>) -> Option<UploadJobView> {
    match o {
        Some(j) => Some(j@),
        None => None,
    }
}

/// How far an upload has come. Each state but the last waits for one action.
#[derive(Debug)]
pub enum UploadStep {
    NextField,
    ReadTitle,
    ReadCallback,
    FirstChunk { filename: Option<String> },
    CreateJob { extension: String, filename: Option<String> },
    CreateFile,
    WriteChunk,
    NextChunk,
    Remove { refusal: Refusal },
    Measure,
    Persist { duration_seconds: Option<Binary32> },
    Launch,
    Answered { answer: UploadAnswer },
}

/// `UploadStep` with texts by their characters.
#[verifier::ext_equal]
pub enum UploadStepView {
    NextField,
    ReadTitle,
    ReadCallback,
    FirstChunk { filename: Option<Seq<char>> },
    CreateJob { extension: Seq<char>, filename: Option<Seq<char>> },
    CreateFile,
    WriteChunk,
    NextChunk,
    Remove { refusal: RefusalView },
    Measure,
    Persist { duration_seconds: Option<Binary32> },
    Launch,
    Answered { answer: UploadAnswerView },
}

impl View for UploadStep {
    type V = UploadStepView;

    open spec fn view(&self) -> UploadStepView {
        match *self {
            UploadStep::NextField => UploadStepView::NextField,
            UploadStep::ReadTitle => UploadStepView::ReadTitle,
            UploadStep::ReadCallback => UploadStepView::ReadCallback,
            UploadStep::FirstChunk { filename } => UploadStepView::FirstChunk {
                filename: text::optional(filename),
            },
            UploadStep::CreateJob { extension, filename } => UploadStepView::CreateJob {
                extension: extension@,
                filename: text::optional(filename),
            },
            UploadStep::CreateFile => UploadStepView::CreateFile,
            UploadStep::WriteChunk => UploadStepView::WriteChunk,
            UploadStep::NextChunk => UploadStepView::NextChunk,
            UploadStep::Remove { refusal } => UploadStepView::Remove { refusal: refusal@ },
            UploadStep::Measure => UploadStepView::Measure,
            UploadStep::Persist { duration_seconds } => UploadStepView::Persist {
                duration_seconds,
            },
            UploadStep::Launch => UploadStepView::Launch,
            UploadStep::Answered { answer } => UploadStepView::Answered { answer: answer@ },
        }
    }
}

/// What is to be done next for an upload.
#[derive(Debug)]
pub enum UploadAction {
    NextField,
    ReadText,
    FirstChunk,
    /// Create a job and its directory, and write its metadata.
    CreateJob { extension: String, original_filename: Option<String> },
    CreateFile { path: String },
    /// Write the chunk read last.
    WriteChunk,
    NextChunk,
    RemoveDir { path: String },
    Measure { path: String },
    /// Change the metadata of the job on disk.
    Persist { job_id: String, change: JobChange },
    /// Start the processing of the job.
    Launch { job_id: String },
    Answer { answer: UploadAnswer },
}

/// `UploadAction` with texts by their characters.
#[verifier::ext_equal]
pub enum UploadActionView {
    NextField,
    ReadText,
    FirstChunk,
    CreateJob { extension: Seq<char>, original_filename: Option<Seq<char>> },
    CreateFile { path: Seq<char> },
    WriteChunk,
    NextChunk,
    RemoveDir { path: Seq<char> },
    Measure { path: Seq<char> },
    Persist { job_id: Seq<char>, change: JobChangeView },
    Launch { job_id: Seq<char> },
    Answer { answer: UploadAnswerView },
}

impl View for UploadAction {
    type V = UploadActionView;

    open spec fn view(&self) -> UploadActionView {
        match *self {
            UploadAction::NextField => UploadActionView::NextField,
            UploadAction::ReadText => UploadActionView::ReadText,
            UploadAction::FirstChunk => UploadActionView::FirstChunk,
            UploadAction::CreateJob { extension, original_filename } => UploadActionView::CreateJob {
                extension: extension@,
                original_filename: text::optional(original_filename),
            },
            UploadAction::CreateFile { path } => UploadActionView::CreateFile { path: path@ },
            UploadAction::WriteChunk => UploadActionView::WriteChunk,
            UploadAction::NextChunk => UploadActionView::NextChunk,
            UploadAction::RemoveDir { path } => UploadActionView::RemoveDir { path: path@ },
            UploadAction::Measure { path } => UploadActionView::Measure { path: path@ },
            UploadAction::Persist { job_id, change } => UploadActionView::Persist {
                job_id: job_id@,
                change: change@,
            },
            UploadAction::Launch { job_id } => UploadActionView::Launch { job_id: job_id@ },
            UploadAction::Answer { answer } => UploadActionView::Answer { answer: answer@ },
        }
    }
}

/// What came of an action.
#[derive(Debug)]
pub enum UploadEvent {
    /// The next field of the form: its name and, for a file, the client's name for it.
    Field { name: Option<String>, filename: Option<String> },
    NoMoreFields,
    Text { text: String },
    /// A stretch of the file.
    Chunk { bytes: Vec<u8> },
    EndOfField,
    JobCreated { job: UploadJob },
    Measured { duration_seconds: Option<Binary32> },
    Done,
    Failed,
}

/// `UploadEvent` with texts by their characters.
#[verifier::ext_equal]
pub enum UploadEventView {
    Field { name: Option<Seq<char>>, filename: Option<Seq<char>> },
    NoMoreFields,
    Text { text: Seq<char> },
    Chunk { bytes: Seq<u8> },
    EndOfField,
    JobCreated { job: UploadJobView },
    Measured { duration_seconds: Option<Binary32> },
    Done,
    Failed,
}

impl View for UploadEvent {
    type V = UploadEventView;

    open spec fn view(&self) -> UploadEventView {
        match *self {
            UploadEvent::Field { name, filename } => UploadEventView::Field {
                name: text::optional(name),
                filename: text::optional(filename),
            },
            UploadEvent::NoMoreFields => UploadEventView::NoMoreFields,
            UploadEvent::Text { text } => UploadEventView::Text { text: text@ },
            UploadEvent::Chunk { bytes } => UploadEventView::Chunk { bytes: bytes@ },
            UploadEvent::EndOfField => UploadEventView::EndOfField,
            UploadEvent::JobCreated { job } => UploadEventView::JobCreated { job: job@ },
            UploadEvent::Measured { duration_seconds } => UploadEventView::Measured {
                duration_seconds,
            },
            UploadEvent::Done => UploadEventView::Done,
            UploadEvent::Failed => UploadEventView::Failed,
        }
    }
}

/// One upload.
#[derive(Debug)]
pub struct Upload {
    pub jobs_dir: String,
    pub title: Option<String>,
    pub callback_url: Option<String>,
    pub job: Option<UploadJob>,
    pub step: UploadStep,
}

/// `Upload` with texts by their characters.
#[verifier::ext_equal]
pub struct UploadView {
    pub jobs_dir: Seq<char>,
    pub title: Option<Seq<char>>,
    pub callback_url: Option<Seq<char>>,
    pub job: Option<UploadJobView>,
    pub step: UploadStepView,
}

impl View for Upload {
    type V = UploadView;

    open spec fn view(&self) -> UploadView {
        UploadView {
            jobs_dir: self.jobs_dir@,
            title: text::optional(self.title),
            callback_url: text::optional(self.callback_url),
            job: upload_job_view(self.job),
            step: self.step@,
        }
    }
}

/// What a text field says: trimmed, and nothing where it is blank.
pub open spec fn field_text(s: Seq<char>) -> Option<Seq<char>> {
    if text::trimmed(s).len() == 0 {
        None
    } else {
        Some(text::trimmed(s))
    }
}

fn read_field(s: &str) -> (r: Option<String>)
    ensures
        text::optional(r) == field_text(s@),
{
    let t = text::trim(s);
    if t.is_empty() {
        None
    } else {
        Some(t.to_owned())
    }
}

impl UploadView {
    pub open spec fn at(self, step: UploadStepView) -> UploadView {
        UploadView { step, ..self }
    }

    /// The states in which the upload has a job.
    pub open spec fn wf(self) -> bool {
        &&& self.step is CreateFile || self.step is WriteChunk || self.step is NextChunk
            || self.step is Remove || self.step is Measure || self.step is Persist || self.step
            is Launch ==> self.job is Some
        &&& self.step is FirstChunk || self.step is CreateJob ==> self.job is None
    }

    /// The directory of the job.
    pub open spec fn dir(self) -> Seq<char> {
        job::dir_of(self.jobs_dir, self.job->0.job_id)
    }

    /// What is to be done in this state.
    pub open spec fn action(self) -> UploadActionView {
        match self.step {
            UploadStepView::NextField => UploadActionView::NextField,
            UploadStepView::ReadTitle => UploadActionView::ReadText,
            UploadStepView::ReadCallback => UploadActionView::ReadText,
            UploadStepView::FirstChunk { filename } => UploadActionView::FirstChunk,
            UploadStepView::CreateJob { extension, filename } => UploadActionView::CreateJob {
                extension,
                original_filename: filename,
            },
            UploadStepView::CreateFile => UploadActionView::CreateFile {
                path: self.job->0.audio_path,
            },
            UploadStepView::WriteChunk => UploadActionView::WriteChunk,
            UploadStepView::NextChunk => UploadActionView::NextChunk,
            UploadStepView::Remove { refusal } => UploadActionView::RemoveDir { path: self.dir() },
            UploadStepView::Measure => UploadActionView::Measure { path: self.job->0.audio_path },
            UploadStepView::Persist { duration_seconds } => UploadActionView::Persist {
                job_id: self.job->0.job_id,
                change: JobChangeView::Upload {
                    title: self.title,
                    callback_url: self.callback_url,
                    duration_seconds,
                },
            },
            UploadStepView::Launch => UploadActionView::Launch { job_id: self.job->0.job_id },
            UploadStepView::Answered { answer } => UploadActionView::Answer { answer },
        }
    }

    /// The upload is refused; what it left on disk goes first.
    pub open spec fn refused(self, refusal: RefusalView) -> UploadView {
        if self.job is Some {
            self.at(UploadStepView::Remove { refusal })
        } else {
            self.at(UploadStepView::Answered { answer: UploadAnswerView::Refused { refusal } })
        }
    }

    /// The upload is refused with whatever it left on disk.
    pub open spec fn answered(self, refusal: RefusalView) -> UploadView {
        self.at(UploadStepView::Answered { answer: UploadAnswerView::Refused { refusal } })
    }

    /// The state for a field: a text by the name of title or callback, or else the file, whatever
    /// its name. The first file counts; another is passed over.
    pub open spec fn for_field(self, name: Option<Seq<char>>, filename: Option<Seq<char>>) -> UploadView {
        if filename is None && name == Some("title"@) {
            self.at(UploadStepView::ReadTitle)
        } else if filename is None && name == Some("callback_url"@) {
            self.at(UploadStepView::ReadCallback)
        } else if self.job is Some {
            self
        } else {
            self.at(UploadStepView::FirstChunk { filename })
        }
    }

    /// The state after the event. An event that answers nothing changes nothing.
    pub open spec fn after(self, event: UploadEventView) -> UploadView {
        match (self.step, event) {
            (UploadStepView::NextField, UploadEventView::Field { name, filename }) => self.for_field(
                name,
                filename,
            ),
            (UploadStepView::NextField, UploadEventView::NoMoreFields) => if self.job is Some {
                self.at(UploadStepView::Measure)
            } else {
                self.answered(unreadable_form())
            },
            (UploadStepView::NextField, UploadEventView::Failed) => self.refused(unreadable_form()),
            (UploadStepView::ReadTitle, UploadEventView::Text { text }) => UploadView {
                title: field_text(text),
                step: UploadStepView::NextField,
                ..self
            },
            (UploadStepView::ReadTitle, UploadEventView::Failed) => self.refused(unreadable_form()),
            (UploadStepView::ReadCallback, UploadEventView::Text { text }) => UploadView {
                callback_url: field_text(text),
                step: UploadStepView::NextField,
                ..self
            },
            (UploadStepView::ReadCallback, UploadEventView::Failed) => self.refused(
                unreadable_form(),
            ),
            (UploadStepView::FirstChunk { filename }, UploadEventView::Chunk { bytes }) =>
                match container_of(bytes) {
                    Some(extension) => self.at(UploadStepView::CreateJob { extension, filename }),
                    None => self.answered(unknown_format()),
                },
            (UploadStepView::FirstChunk { filename }, UploadEventView::EndOfField) => self.answered(
                empty_file(),
            ),
            (UploadStepView::FirstChunk { filename }, UploadEventView::Failed) => self.answered(
                empty_file(),
            ),
            (
                UploadStepView::CreateJob { extension, filename },
                UploadEventView::JobCreated { job },
            ) => UploadView { job: Some(job), step: UploadStepView::CreateFile, ..self },
            (UploadStepView::CreateJob { extension, filename }, UploadEventView::Failed) =>
                self.answered(handlers::server_error()),
            (UploadStepView::CreateFile, UploadEventView::Done) => self.at(
                UploadStepView::WriteChunk,
            ),
            (UploadStepView::CreateFile, UploadEventView::Failed) => self.answered(
                handlers::server_error(),
            ),
            (UploadStepView::WriteChunk, UploadEventView::Done) => self.at(
                UploadStepView::NextChunk,
            ),
            (UploadStepView::WriteChunk, UploadEventView::Failed) => self.refused(unsaved()),
            (UploadStepView::NextChunk, UploadEventView::Chunk { bytes }) => self.at(
                UploadStepView::WriteChunk,
            ),
            (UploadStepView::NextChunk, UploadEventView::EndOfField) => self.at(
                UploadStepView::NextField,
            ),
            (UploadStepView::NextChunk, UploadEventView::Failed) => self.refused(interrupted()),
            (UploadStepView::Remove { refusal }, UploadEventView::Done) => self.answered(refusal),
            (UploadStepView::Remove { refusal }, UploadEventView::Failed) => self.answered(refusal),
            (UploadStepView::Measure, UploadEventView::Measured { duration_seconds }) => self.at(
                UploadStepView::Persist { duration_seconds },
            ),
            (UploadStepView::Persist { duration_seconds }, UploadEventView::Done) => self.at(
                UploadStepView::Launch,
            ),
            (UploadStepView::Persist { duration_seconds }, UploadEventView::Failed) => self.at(
                UploadStepView::Launch,
            ),
            (UploadStepView::Launch, UploadEventView::Done) => self.at(
                UploadStepView::Answered {
                    answer: UploadAnswerView::Accepted { job_id: self.job->0.job_id },
                },
            ),
            _ => self,
        }
    }

    /// The state after all these events.
    pub open spec fn after_all(self, events: Seq<UploadEventView>) -> UploadView
        decreases events.len(),
    {
        if events.len() == 0 {
            self
        } else {
            self.after_all(events.drop_last()).after(events.last())
        }
    }

    /// The upload was accepted.
    pub open spec fn accepted(self) -> bool {
        match self.step {
            UploadStepView::Answered { answer } => answer is Accepted,
            _ => false,
        }
    }

    /// The upload was refused.
    pub open spec fn refused_at_last(self) -> bool {
        match self.step {
            UploadStepView::Answered { answer } => answer is Refused,
            _ => false,
        }
    }

    /// An upload at its start.
    pub open spec fn start(jobs_dir: Seq<char>) -> UploadView {
        UploadView {
            jobs_dir,
            title: None,
            callback_url: None,
            job: None,
            step: UploadStepView::NextField,
        }
    }
}

/// Starts an upload.
pub fn recibir_y_procesar_audio(jobs_dir: &str) -> (r: Upload)
    ensures
        r@ == UploadView::start(jobs_dir@),
        r@.wf(),
{
    Upload {
        jobs_dir: jobs_dir.to_owned(),
        title: None,
        callback_url: None,
        job: None,
        step: UploadStep::NextField,
    }
}

fn is_named(name: &Option<String>, wanted: &str) -> (r: bool)
    ensures
        r == (text::optional(*name) == Some(wanted@)),
{
    match name {
        Some(n) => text::same(n.as_str(), wanted),
        None => false,
    }
}

impl Upload {
    fn job_id(&self) -> (r: String)
        requires
            self.job is Some,
        ensures
            r@ == self@.job->0.job_id,
    {
        match &self.job {
            Some(j) => j.job_id.clone(),
            None => String::new(),
        }
    }

    fn audio_path(&self) -> (r: String)
        requires
            self.job is Some,
        ensures
            r@ == self@.job->0.audio_path,
    {
        match &self.job {
            Some(j) => j.audio_path.clone(),
            None => String::new(),
        }
    }

    /// What is to be done next.
    pub fn action(&self) -> (r: UploadAction)
        requires
            self@.wf(),
        ensures
            r@ == self@.action(),
            r matches UploadAction::CreateFile { path } ==> self.job matches Some(j) && path@
                == j.audio_path@,
            r matches UploadAction::Measure { path } ==> self.job matches Some(j) && path@
                == j.audio_path@,
            r matches UploadAction::RemoveDir { path } ==> self.job matches Some(j) && path@
                == job::dir_of(self.jobs_dir@, j.job_id@),
            r matches UploadAction::Launch { job_id } ==> self.job matches Some(j) && job_id@
                == j.job_id@,
            r matches UploadAction::Persist { job_id, change } ==> {
                &&& self.job matches Some(j) && job_id@ == j.job_id@
                &&& change matches JobChange::Upload { title, callback_url, duration_seconds }
                &&& text::optional(title) == text::optional(self.title)
                &&& text::optional(callback_url) == text::optional(self.callback_url)
                &&& self.step == (UploadStep::Persist { duration_seconds })
            },
            r matches UploadAction::CreateJob { extension, original_filename } ==> {
                &&& self.step matches UploadStep::CreateJob { extension: kept, filename }
                &&& extension@ == kept@
                &&& text::optional(original_filename) == text::optional(filename)
            },
    {
        match &self.step {
            UploadStep::NextField => UploadAction::NextField,
            UploadStep::ReadTitle => UploadAction::ReadText,
            UploadStep::ReadCallback => UploadAction::ReadText,
            UploadStep::FirstChunk { filename: _ } => UploadAction::FirstChunk,
            UploadStep::CreateJob { extension, filename } => UploadAction::CreateJob {
                extension: extension.clone(),
                original_filename: text::copy_optional(filename),
            },
            UploadStep::CreateFile => UploadAction::CreateFile { path: self.audio_path() },
            UploadStep::WriteChunk => UploadAction::WriteChunk,
            UploadStep::NextChunk => UploadAction::NextChunk,
            UploadStep::Remove { refusal: _ } => UploadAction::RemoveDir {
                path: job::job_dir(self.jobs_dir.as_str(), self.job_id().as_str()),
            },
            UploadStep::Measure => UploadAction::Measure { path: self.audio_path() },
            UploadStep::Persist { duration_seconds } => UploadAction::Persist {
                job_id: self.job_id(),
                change: JobChange::Upload {
                    title: text::copy_optional(&self.title),
                    callback_url: text::copy_optional(&self.callback_url),
                    duration_seconds: *duration_seconds,
                },
            },
            UploadStep::Launch => UploadAction::Launch { job_id: self.job_id() },
            UploadStep::Answered { answer } => UploadAction::Answer {
                answer: match answer {
                    UploadAnswer::Accepted { job_id } => UploadAnswer::Accepted {
                        job_id: job_id.clone(),
                    },
                    UploadAnswer::Refused { refusal } => UploadAnswer::Refused {
                        refusal: refuse(refusal.status, refusal.message.as_str()),
                    },
                },
            },
        }
    }

    fn refused(&self, refusal: Refusal) -> (r: UploadStep)
        ensures
            r@ == self@.refused(refusal@).step,
    {
        if self.job.is_some() {
            UploadStep::Remove { refusal }
        } else {
            UploadStep::Answered { answer: UploadAnswer::Refused { refusal } }
        }
    }

    fn for_field(&self, name: &Option<String>, filename: Option<String>) -> (r: UploadStep)
        ensures
            self@.step is NextField ==> r@ == self@.for_field(
                text::optional(*name),
                text::optional(filename),
            ).step,
    {
        if filename.is_none() && is_named(name, "title") {
            UploadStep::ReadTitle
        } else if filename.is_none() && is_named(name, "callback_url") {
            UploadStep::ReadCallback
        } else if self.job.is_some() {
            UploadStep::NextField
        } else {
            UploadStep::FirstChunk { filename }
        }
    }

    /// Takes in what came of the action.
    pub fn advance(&mut self, event: UploadEvent)
        requires
            old(self)@.wf(),
        ensures
            final(self)@ == old(self)@.after(event@),
            final(self)@.wf(),
    {
        let ghost start = self@;
        let mut step = UploadStep::NextField;
        std::mem::swap(&mut step, &mut self.step);
        let next = match (step, event) {
            (UploadStep::NextField, UploadEvent::Field { name, filename }) => self.for_field(
                &name,
                filename,
            ),
            (UploadStep::NextField, UploadEvent::NoMoreFields) => {
                if self.job.is_some() {
                    UploadStep::Measure
                } else {
                    let refusal = refuse(BAD_REQUEST, "Error al leer el archivo multipart");
                    UploadStep::Answered { answer: UploadAnswer::Refused { refusal } }
                }
            },
            (UploadStep::NextField, UploadEvent::Failed) => self.refused(
                refuse(BAD_REQUEST, "Error al leer el archivo multipart"),
            ),
            (UploadStep::ReadTitle, UploadEvent::Text { text }) => {
                self.title = read_field(text.as_str());
                UploadStep::NextField
            },
            (UploadStep::ReadTitle, UploadEvent::Failed) => self.refused(
                refuse(BAD_REQUEST, "Error al leer el archivo multipart"),
            ),
            (UploadStep::ReadCallback, UploadEvent::Text { text }) => {
                self.callback_url = read_field(text.as_str());
                UploadStep::NextField
            },
            (UploadStep::ReadCallback, UploadEvent::Failed) => self.refused(
                refuse(BAD_REQUEST, "Error al leer el archivo multipart"),
            ),
            (UploadStep::FirstChunk { filename }, UploadEvent::Chunk { bytes }) => {
                match sniff_audio_extension(bytes.as_slice()) {
                    Some(extension) => UploadStep::CreateJob {
                        extension: extension.to_owned(),
                        filename,
                    },
                    None => {
                        let refusal = refuse(
                            BAD_REQUEST,
                            "Formato no soportado: solo se aceptan mp3, mp4/m4a y wav",
                        );
                        UploadStep::Answered { answer: UploadAnswer::Refused { refusal } }
                    },
                }
            },
            (UploadStep::FirstChunk { filename: _ }, UploadEvent::EndOfField) => {
                let refusal = refuse(BAD_REQUEST, "Archivo vacío o inválido");
                UploadStep::Answered { answer: UploadAnswer::Refused { refusal } }
            },
            (UploadStep::FirstChunk { filename: _ }, UploadEvent::Failed) => {
                let refusal = refuse(BAD_REQUEST, "Archivo vacío o inválido");
                UploadStep::Answered { answer: UploadAnswer::Refused { refusal } }
            },
            (
                UploadStep::CreateJob { extension: _, filename: _ },
                UploadEvent::JobCreated { job },
            ) => {
                self.job = Some(job);
                UploadStep::CreateFile
            },
            (UploadStep::CreateJob { extension: _, filename: _ }, UploadEvent::Failed) => {
                UploadStep::Answered {
                    answer: UploadAnswer::Refused { refusal: refuse_server_error() },
                }
            },
            (UploadStep::CreateFile, UploadEvent::Done) => UploadStep::WriteChunk,
            (UploadStep::CreateFile, UploadEvent::Failed) => {
                UploadStep::Answered {
                    answer: UploadAnswer::Refused { refusal: refuse_server_error() },
                }
            },
            (UploadStep::WriteChunk, UploadEvent::Done) => UploadStep::NextChunk,
            (UploadStep::WriteChunk, UploadEvent::Failed) => self.refused(
                refuse(INTERNAL_SERVER_ERROR, "Error al guardar el archivo"),
            ),
            (UploadStep::NextChunk, UploadEvent::Chunk { bytes: _ }) => UploadStep::WriteChunk,
            (UploadStep::NextChunk, UploadEvent::EndOfField) => UploadStep::NextField,
            (UploadStep::NextChunk, UploadEvent::Failed) => self.refused(refuse_interrupted()),
            (UploadStep::Remove { refusal }, UploadEvent::Done) => UploadStep::Answered {
                answer: UploadAnswer::Refused { refusal },
            },
            (UploadStep::Remove { refusal }, UploadEvent::Failed) => UploadStep::Answered {
                answer: UploadAnswer::Refused { refusal },
            },
            (UploadStep::Measure, UploadEvent::Measured { duration_seconds }) =>
                UploadStep::Persist { duration_seconds },
            (UploadStep::Persist { duration_seconds: _ }, UploadEvent::Done) => UploadStep::Launch,
            (UploadStep::Persist { duration_seconds: _ }, UploadEvent::Failed) =>
                UploadStep::Launch,
            (UploadStep::Launch, UploadEvent::Done) => UploadStep::Answered {
                answer: UploadAnswer::Accepted { job_id: self.job_id() },
            },
            (step, _) => step,
        };
        self.step = next;
        assert(self@ == start.after(event@));
    }
}

/// The action changes something on disk.
pub open spec fn touches_disk(action: UploadActionView) -> bool {
    action is CreateJob || action is CreateFile || action is WriteChunk || action is RemoveDir
        || action is Persist || action is Launch
}

/// Nothing that was sent is audio the server takes.
pub open spec fn no_audio(events: Seq<UploadEventView>) -> bool {
    forall|i: int|
        0 <= i < events.len() ==> ((#[trigger] events[i]) matches UploadEventView::Chunk { bytes }
            ==> container_of(bytes) is None)
}

/// An upload without audio leaves no trace: whatever is sent, as long as none of it is audio the
/// server takes, nothing on disk is created, changed or removed, and nothing is accepted.
pub proof fn upload_without_audio_leaves_no_trace(
    jobs_dir: Seq<char>,
    events: Seq<UploadEventView>,
)
    requires
        no_audio(events),
    ensures
        ({
            let now = UploadView::start(jobs_dir).after_all(events);
            &&& now.job is None
            &&& !touches_disk(now.action())
            &&& !now.accepted()
        }),
{
    lemma_no_trace(jobs_dir, events);
}

proof fn lemma_no_trace(jobs_dir: Seq<char>, events: Seq<UploadEventView>)
    requires
        no_audio(events),
    ensures
        ({
            let now = UploadView::start(jobs_dir).after_all(events);
            &&& now.job is None
            &&& now.step is NextField || now.step is ReadTitle || now.step is ReadCallback
                || now.step is FirstChunk || now.refused_at_last()
        }),
    decreases events.len(),
{
    if events.len() > 0 {
        let head = events.drop_last();
        assert(no_audio(head)) by {
            assert forall|i: int| 0 <= i < head.len() implies ((#[trigger] head[i]) matches
                UploadEventView::Chunk { bytes } ==> container_of(bytes) is None) by {
                assert(head[i] == events[i]);
            }
        }
        lemma_no_trace(jobs_dir, head);
        assert(events[events.len() - 1] == events.last());
    }
}

impl UploadView {
    /// The bytes of the file that were taken from the form, in order.
    pub open spec fn taken(self, events: Seq<UploadEventView>) -> Seq<u8>
        decreases events.len(),
    {
        if events.len() == 0 {
            Seq::empty()
        } else {
            let earlier = self.taken(events.drop_last());
            match (self.after_all(events.drop_last()).step, events.last()) {
                (UploadStepView::FirstChunk { filename }, UploadEventView::Chunk { bytes }) =>
                    earlier + bytes,
                (UploadStepView::NextChunk, UploadEventView::Chunk { bytes }) => earlier + bytes,
                _ => earlier,
            }
        }
    }

    /// The chunk that was taken last.
    pub open spec fn in_hand(self, events: Seq<UploadEventView>) -> Seq<u8>
        decreases events.len(),
    {
        if events.len() == 0 {
            Seq::empty()
        } else {
            match (self.after_all(events.drop_last()).step, events.last()) {
                (UploadStepView::FirstChunk { filename }, UploadEventView::Chunk { bytes }) => bytes,
                (UploadStepView::NextChunk, UploadEventView::Chunk { bytes }) => bytes,
                _ => self.in_hand(events.drop_last()),
            }
        }
    }

    /// What the file on disk holds: every chunk that was written, in order.
    pub open spec fn on_disk(self, events: Seq<UploadEventView>) -> Seq<u8>
        decreases events.len(),
    {
        if events.len() == 0 {
            Seq::empty()
        } else {
            let earlier = self.on_disk(events.drop_last());
            match (self.after_all(events.drop_last()).step, events.last()) {
                (UploadStepView::WriteChunk, UploadEventView::Done) => earlier + self.in_hand(
                    events.drop_last(),
                ),
                _ => earlier,
            }
        }
    }
}

/// The end of the file was reached while it was read.
pub open spec fn reached_the_end(jobs_dir: Seq<char>, events: Seq<UploadEventView>) -> bool {
    exists|k: int|
        0 <= k < events.len() && #[trigger] events[k] == UploadEventView::EndOfField
            && UploadView::start(jobs_dir).after_all(events.take(k)).step is NextChunk
}

/// An upload is accepted only once its whole file is stored: the end of the file was reached, and
/// the file on disk holds what was sent, byte for byte. A file that was cut short is never taken
/// for a short file.
pub proof fn accepted_uploads_are_stored_whole(jobs_dir: Seq<char>, events: Seq<UploadEventView>)
    ensures
        ({
            let upload = UploadView::start(jobs_dir);
            upload.after_all(events).accepted() ==> {
                &&& reached_the_end(jobs_dir, events)
                &&& upload.on_disk(events) == upload.taken(events)
            }
        }),
{
    lemma_stored(jobs_dir, events);
}

/// The upload has a job whose file is complete.
spec fn complete(upload: UploadView) -> bool {
    ||| upload.accepted()
    ||| upload.job is Some && (upload.step is NextField || upload.step is ReadTitle || upload.step
        is ReadCallback || upload.step is Measure || upload.step is Persist || upload.step
        is Launch)
}

/// The upload has no file yet.
spec fn fileless(upload: UploadView) -> bool {
    upload.job is None && (upload.step is NextField || upload.step is ReadTitle || upload.step
        is ReadCallback || upload.step is FirstChunk)
}

proof fn lemma_stored(jobs_dir: Seq<char>, events: Seq<UploadEventView>)
    ensures
        ({
            let upload = UploadView::start(jobs_dir);
            let now = upload.after_all(events);
            let taken = upload.taken(events);
            let stored = upload.on_disk(events);
            &&& now.wf()
            &&& complete(now) ==> reached_the_end(jobs_dir, events) && stored == taken
            &&& now.step is NextChunk ==> stored == taken
            &&& now.step is CreateJob || now.step is CreateFile || now.step is WriteChunk ==> taken
                == stored + upload.in_hand(events)
            &&& fileless(now) ==> taken.len() == 0 && stored.len() == 0
        }),
    decreases events.len(),
{
    if events.len() > 0 {
        let head = events.drop_last();
        lemma_stored(jobs_dir, head);
        let s0 = UploadView::start(jobs_dir);
        let before = s0.after_all(head);
        let n = events.len() - 1;
        assert(events.take(n) == head);
        if reached_the_end(jobs_dir, head) {
            let k = choose|k: int|
                0 <= k < head.len() && #[trigger] head[k] == UploadEventView::EndOfField
                    && s0.after_all(head.take(k)).step is NextChunk;
            assert(events[k] == head[k]);
            assert(events.take(k) == head.take(k));
            assert(reached_the_end(jobs_dir, events));
        }
        if before.step is NextChunk && events.last() is EndOfField {
            assert(events[n] == UploadEventView::EndOfField);
            assert(reached_the_end(jobs_dir, events));
        }
        if let UploadEventView::Chunk { bytes } = events.last() {
            if before.step is FirstChunk {
                assert(s0.on_disk(head) + bytes == bytes);
                assert(s0.taken(head) + bytes == bytes);
            }
        }
    }
}

/// Once a job exists, a failure while the form is read or the file written removes the directory
/// of that job, and only then is the upload refused.
pub proof fn failures_clean_up(upload: UploadView)
    requires
        upload.wf(),
        upload.job is Some,
        upload.step is NextField || upload.step is ReadTitle || upload.step is ReadCallback
            || upload.step is WriteChunk || upload.step is NextChunk,
    ensures
        ({
            let failed = upload.after(UploadEventView::Failed);
            &&& failed.action() == (UploadActionView::RemoveDir { path: upload.dir() })
            &&& forall|e: UploadEventView|
                e is Done || e is Failed ==> (#[trigger] failed.after(e)).refused_at_last()
        }),
{
}

/// A title may come before the file or behind it: it is trimmed, nothing else changes, and a
/// blank one counts as none. So it is with a callback.
pub proof fn text_fields_change_only_themselves(upload: UploadView, said: Seq<char>)
    requires
        upload.step is NextField,
    ensures
        upload.after(
            UploadEventView::Field { name: Some("title"@), filename: None },
        ).after(UploadEventView::Text { text: said }) == (UploadView {
            title: field_text(said),
            ..upload
        }),
        upload.after(
            UploadEventView::Field { name: Some("callback_url"@), filename: None },
        ).after(UploadEventView::Text { text: said }) == (UploadView {
            callback_url: field_text(said),
            ..upload
        }),
        text::is_blank(said) ==> field_text(said) is None,
{
    text::trimmed_is_empty_iff_blank(said);
    reveal_strlit("title");
    reveal_strlit("callback_url");
    assert("title"@.len() != "callback_url"@.len());
}

/// The first field that carries a file name is the audio, whatever the field is called.
pub proof fn file_counts_whatever_its_field_is_called(
    upload: UploadView,
    name: Option<Seq<char>>,
    filename: Seq<char>,
)
    requires
        upload.step is NextField,
        upload.job is None,
    ensures
        upload.after(UploadEventView::Field { name, filename: Some(filename) }) == upload.at(
            UploadStepView::FirstChunk { filename: Some(filename) },
        ),
{
}

/// How the start of the background work is announced.
pub fn start_message(es_resume: bool) -> (r: &'static str)
    ensures
        r@ == (if es_resume {
            "Resumiendo la transcripción del job"@
        } else {
            "Transcribiendo el job"@
        }),
{
    if es_resume {
        "Resumiendo la transcripción del job"
    } else {
        "Transcribiendo el job"
    }
}

/// A point that is noted in the metadata of a job.
#[derive(Debug, Clone, Copy, PartialEq, Eq, Structural)]
pub enum Milestone {
    Processing,
    TranscriptReady,
    Completed,
    Failed,
}

/// The change that notes a point, at a moment.
pub open spec fn noted(m: Milestone, at: Seq<char>) -> JobChangeView {
    match m {
        Milestone::Processing => JobChangeView::Processing { at },
        Milestone::TranscriptReady => JobChangeView::TranscriptReady { at },
        Milestone::Completed => JobChangeView::Completed { at },
        Milestone::Failed => JobChangeView::Failed,
    }
}

/// The change that notes a point at this moment.
pub fn change_at(m: Milestone, at: String) -> (r: JobChange)
    ensures
        r@ == noted(m, at@),
        m is Processing ==> (r matches JobChange::Processing { at: t } && t@ == at@),
        m is TranscriptReady ==> (r matches JobChange::TranscriptReady { at: t } && t@ == at@),
        m is Completed ==> (r matches JobChange::Completed { at: t } && t@ == at@),
        m is Failed ==> r is Failed,
{
    match m {
        Milestone::Processing => JobChange::Processing { at },
        Milestone::TranscriptReady => JobChange::TranscriptReady { at },
        Milestone::Completed => JobChange::Completed { at },
        Milestone::Failed => JobChange::Failed,
    }
}

/// The change that notes a point now.
pub fn change_now(m: Milestone) -> (r: JobChange)
    ensures
        exists|at: Seq<char>| util::is_moment(at) && r@ == #[trigger] noted(m, at),
{
    let at = util::now_epoch_string();
    let ghost moment = at@;
    let r = change_at(m, at);
    assert(r@ == noted(m, moment));
    r
}

/// How far the background work of a job has come.
#[derive(Debug, Clone, Copy, PartialEq, Eq, Structural)]
pub enum JobStep {
    AcquirePermit,
    MarkProcessing,
    RunPipeline,
    MarkTranscriptReady,
    RunEmbeddings,
    MarkCompleted,
    LaunchSummary,
    MarkFailed,
    Ended,
}

/// What is to be done next for a job.
#[derive(Debug, Clone, Copy, PartialEq, Eq, Structural)]
pub enum JobAction {
    AcquirePermit,
    Update { milestone: Milestone },
    RunPipeline,
    RunEmbeddings,
    LaunchSummary,
    End,
}

/// Whether the action succeeded.
#[derive(Debug, Clone, Copy, PartialEq, Eq, Structural)]
pub enum JobOutcome {
    Done,
    Failed,
}

/// The background work of one job.
#[derive(Debug, Clone, Copy, PartialEq, Eq, Structural)]
pub struct JobRun {
    pub step: JobStep,
}

impl JobRun {
    /// What is to be done in this state.
    pub open spec fn pending(self) -> JobAction {
        match self.step {
            JobStep::AcquirePermit => JobAction::AcquirePermit,
            JobStep::MarkProcessing => JobAction::Update { milestone: Milestone::Processing },
            JobStep::RunPipeline => JobAction::RunPipeline,
            JobStep::MarkTranscriptReady => JobAction::Update {
                milestone: Milestone::TranscriptReady,
            },
            JobStep::RunEmbeddings => JobAction::RunEmbeddings,
            JobStep::MarkCompleted => JobAction::Update { milestone: Milestone::Completed },
            JobStep::LaunchSummary => JobAction::LaunchSummary,
            JobStep::MarkFailed => JobAction::Update { milestone: Milestone::Failed },
            JobStep::Ended => JobAction::End,
        }
    }

    /// The state after the action. Only the transcription and the embeddings decide: a failure
    /// to note something stops nothing.
    pub open spec fn after(self, outcome: JobOutcome) -> JobRun {
        JobRun {
            step: match (self.step, outcome) {
                (JobStep::AcquirePermit, _) => JobStep::MarkProcessing,
                (JobStep::MarkProcessing, _) => JobStep::RunPipeline,
                (JobStep::RunPipeline, JobOutcome::Done) => JobStep::MarkTranscriptReady,
                (JobStep::RunPipeline, JobOutcome::Failed) => JobStep::MarkFailed,
                (JobStep::MarkTranscriptReady, _) => JobStep::RunEmbeddings,
                (JobStep::RunEmbeddings, JobOutcome::Done) => JobStep::MarkCompleted,
                (JobStep::RunEmbeddings, JobOutcome::Failed) => JobStep::MarkFailed,
                (JobStep::MarkCompleted, _) => JobStep::LaunchSummary,
                (JobStep::LaunchSummary, _) => JobStep::Ended,
                (JobStep::MarkFailed, _) => JobStep::Ended,
                (JobStep::Ended, _) => JobStep::Ended,
            },
        }
    }

    /// The state after all these outcomes.
    pub open spec fn after_all(self, outcomes: Seq<JobOutcome>) -> JobRun
        decreases outcomes.len(),
    {
        if outcomes.len() == 0 {
            self
        } else {
            self.after_all(outcomes.drop_last()).after(outcomes.last())
        }
    }

    /// The metadata of a job after these outcomes, where every change that succeeds is noted at
    /// `at`.
    pub open spec fn metadata_after(
        self,
        m: JobMetadataView,
        outcomes: Seq<JobOutcome>,
        at: Seq<char>,
    ) -> JobMetadataView
        decreases outcomes.len(),
    {
        if outcomes.len() == 0 {
            m
        } else {
            let before = self.metadata_after(m, outcomes.drop_last(), at);
            match self.after_all(outcomes.drop_last()).pending() {
                JobAction::Update { milestone } => if outcomes.last() is Done {
                    noted(milestone, at).applied(before)
                } else {
                    before
                },
                _ => before,
            }
        }
    }

    /// What is to be done next.
    pub fn action(&self) -> (r: JobAction)
        ensures
            r == self.pending(),
    {
        match self.step {
            JobStep::AcquirePermit => JobAction::AcquirePermit,
            JobStep::MarkProcessing => JobAction::Update { milestone: Milestone::Processing },
            JobStep::RunPipeline => JobAction::RunPipeline,
            JobStep::MarkTranscriptReady => JobAction::Update {
                milestone: Milestone::TranscriptReady,
            },
            JobStep::RunEmbeddings => JobAction::RunEmbeddings,
            JobStep::MarkCompleted => JobAction::Update { milestone: Milestone::Completed },
            JobStep::LaunchSummary => JobAction::LaunchSummary,
            JobStep::MarkFailed => JobAction::Update { milestone: Milestone::Failed },
            JobStep::Ended => JobAction::End,
        }
    }

    /// Takes in whether the action succeeded.
    pub fn advance(&mut self, outcome: JobOutcome)
        ensures
            *final(self) == old(self).after(outcome),
    {
        self.step =
        match (self.step, outcome) {
            (JobStep::AcquirePermit, _) => JobStep::MarkProcessing,
            (JobStep::MarkProcessing, _) => JobStep::RunPipeline,
            (JobStep::RunPipeline, JobOutcome::Done) => JobStep::MarkTranscriptReady,
            (JobStep::RunPipeline, JobOutcome::Failed) => JobStep::MarkFailed,
            (JobStep::MarkTranscriptReady, _) => JobStep::RunEmbeddings,
            (JobStep::RunEmbeddings, JobOutcome::Done) => JobStep::MarkCompleted,
            (JobStep::RunEmbeddings, JobOutcome::Failed) => JobStep::MarkFailed,
            (JobStep::MarkCompleted, _) => JobStep::LaunchSummary,
            (JobStep::LaunchSummary, _) => JobStep::Ended,
            (JobStep::MarkFailed, _) => JobStep::Ended,
            (JobStep::Ended, _) => JobStep::Ended,
        };
    }
}

/// Starts the background work of a job, new or resumed.
pub fn lanzar_procesamiento_job() -> (r: JobRun)
    ensures
        r.step == JobStep::AcquirePermit,
{
    JobRun { step: JobStep::AcquirePermit }
}

/// A failure to note something never changes what is done next.
pub proof fn bookkeeping_stops_nothing(run: JobRun)
    requires
        run.pending() is Update,
    ensures
        run.after(JobOutcome::Done) == run.after(JobOutcome::Failed),
{
}

/// The outcomes of a job, in the order of its work, with `noting` for whatever only notes.
pub open spec fn outcomes_of(transcribed: JobOutcome, embedded: JobOutcome, noting: JobOutcome) -> Seq<
    JobOutcome,
> {
    if transcribed is Failed {
        seq![noting, noting, transcribed, noting]
    } else {
        seq![noting, noting, transcribed, noting, embedded, noting, noting]
    }
}

/// The life of a job: it is processing from the moment it has its permit; its transcript is ready
/// exactly if it was transcribed, whatever becomes of the embeddings; it ends as completed exactly
/// if both succeeded, and as failed otherwise.
pub proof fn life_of_a_job(
    m: JobMetadataView,
    transcribed: JobOutcome,
    embedded: JobOutcome,
    at: Seq<char>,
)
    ensures
        ({
            let run = JobRun { step: JobStep::AcquirePermit };
            let outcomes = outcomes_of(transcribed, embedded, JobOutcome::Done);
            let end = run.metadata_after(m, outcomes, at);
            &&& run.after_all(outcomes).step is Ended
            &&& run.metadata_after(m, outcomes.take(2), at).status
                == JobStatus::Processing
            &&& end.processing_started_at == Some(at)
            &&& end.transcript_ready == (transcribed is Done || m.transcript_ready)
            &&& end.status == (if transcribed is Done && embedded is Done {
                JobStatus::Completed
            } else {
                JobStatus::Failed
            })
            &&& end.job_id == m.job_id && end.audio_path == m.audio_path && end.transcript_path
                == m.transcript_path && end.created_at == m.created_at
        }),
{
    reveal_with_fuel(JobRun::after_all, 8);
    reveal_with_fuel(JobRun::metadata_after, 8);
    let outcomes = outcomes_of(transcribed, embedded, JobOutcome::Done);
    let two = outcomes.take(2);
    assert(two =~= seq![JobOutcome::Done, JobOutcome::Done]);
    assert(two.drop_last() =~= seq![JobOutcome::Done]);
    assert(two.drop_last().drop_last() =~= Seq::<JobOutcome>::empty());
    let a = seq![JobOutcome::Done];
    let b = seq![JobOutcome::Done, JobOutcome::Done];
    let c = b.push(transcribed);
    let d = c.push(JobOutcome::Done);
    let e = d.push(embedded);
    let f = e.push(JobOutcome::Done);
    let g = f.push(JobOutcome::Done);
    assert(a.drop_last() =~= Seq::<JobOutcome>::empty());
    assert(b.drop_last() =~= a);
    assert(c.drop_last() =~= b);
    assert(d.drop_last() =~= c);
    assert(e.drop_last() =~= d);
    assert(f.drop_last() =~= e);
    assert(g.drop_last() =~= f);
    if transcribed is Failed {
        assert(outcomes =~= d);
    } else if embedded is Done {
        assert(outcomes =~= g);
    } else {
        assert(outcomes =~= g);
    }
}

/// The summary is started only behind embeddings that succeeded.
pub proof fn summary_follows_embeddings(run: JobRun, outcome: JobOutcome)
    ensures
        run.after(outcome).step is LaunchSummary ==> run.step is MarkCompleted,
        run.after(outcome).step is MarkCompleted ==> run.step is RunEmbeddings && outcome is Done,
        run.after(outcome).step is RunEmbeddings ==> run.step is MarkTranscriptReady,
        run.after(outcome).step is MarkTranscriptReady ==> run.step is RunPipeline && outcome
            is Done,
{
}

/// How far the summary of a job has come.
#[derive(Debug)]
pub enum SummaryTaskStep {
    Load,
    AcquirePermit,
    MarkGenerating,
    Generate,
    Store { text: String },
    Mark { status: SummaryStatus },
    Ended,
}

/// `SummaryTaskStep` with texts by their characters.
#[verifier::ext_equal]
pub enum SummaryTaskStepView {
    Load,
    AcquirePermit,
    MarkGenerating,
    Generate,
    Store { text: Seq<char> },
    Mark { status: SummaryStatus },
    Ended,
}

impl View for SummaryTaskStep {
    type V = SummaryTaskStepView;

    open spec fn view(&self) -> SummaryTaskStepView {
        match *self {
            SummaryTaskStep::Load => SummaryTaskStepView::Load,
            SummaryTaskStep::AcquirePermit => SummaryTaskStepView::AcquirePermit,
            SummaryTaskStep::MarkGenerating => SummaryTaskStepView::MarkGenerating,
            SummaryTaskStep::Generate => SummaryTaskStepView::Generate,
            SummaryTaskStep::Store { text } => SummaryTaskStepView::Store { text: text@ },
            SummaryTaskStep::Mark { status } => SummaryTaskStepView::Mark { status },
            SummaryTaskStep::Ended => SummaryTaskStepView::Ended,
        }
    }
}

/// What is to be done next for a summary.
#[derive(Debug)]
pub enum SummaryTaskAction {
    Load,
    AcquirePermit,
    Update { status: SummaryStatus },
    Generate,
    /// Replace the summary file by this text.
    Store { text: String },
    End,
}

/// `SummaryTaskAction` with texts by their characters.
#[verifier::ext_equal]
pub enum SummaryTaskActionView {
    Load,
    AcquirePermit,
    Update { status: SummaryStatus },
    Generate,
    Store { text: Seq<char> },
    End,
}

impl View for SummaryTaskAction {
    type V = SummaryTaskActionView;

    open spec fn view(&self) -> SummaryTaskActionView {
        match *self {
            SummaryTaskAction::Load => SummaryTaskActionView::Load,
            SummaryTaskAction::AcquirePermit => SummaryTaskActionView::AcquirePermit,
            SummaryTaskAction::Update { status } => SummaryTaskActionView::Update { status },
            SummaryTaskAction::Generate => SummaryTaskActionView::Generate,
            SummaryTaskAction::Store { text } => SummaryTaskActionView::Store { text: text@ },
            SummaryTaskAction::End => SummaryTaskActionView::End,
        }
    }
}

/// What came of an action.
#[derive(Debug)]
pub enum SummaryTaskEvent {
    Loaded { status: SummaryStatus },
    Generated { text: String },
    Done,
    Failed,
}

/// `SummaryTaskEvent` with texts by their characters.
#[verifier::ext_equal]
pub enum SummaryTaskEventView {
    Loaded { status: SummaryStatus },
    Generated { text: Seq<char> },
    Done,
    Failed,
}

impl View for SummaryTaskEvent {
    type V = SummaryTaskEventView;

    open spec fn view(&self) -> SummaryTaskEventView {
        match *self {
            SummaryTaskEvent::Loaded { status } => SummaryTaskEventView::Loaded { status },
            SummaryTaskEvent::Generated { text } => SummaryTaskEventView::Generated { text: text@ },
            SummaryTaskEvent::Done => SummaryTaskEventView::Done,
            SummaryTaskEvent::Failed => SummaryTaskEventView::Failed,
        }
    }
}

impl SummaryTaskStepView {
    /// What is to be done in this state.
    pub open spec fn action(self) -> SummaryTaskActionView {
        match self {
            SummaryTaskStepView::Load => SummaryTaskActionView::Load,
            SummaryTaskStepView::AcquirePermit => SummaryTaskActionView::AcquirePermit,
            SummaryTaskStepView::MarkGenerating => SummaryTaskActionView::Update {
                status: SummaryStatus::Generating,
            },
            SummaryTaskStepView::Generate => SummaryTaskActionView::Generate,
            SummaryTaskStepView::Store { text } => SummaryTaskActionView::Store { text },
            SummaryTaskStepView::Mark { status } => SummaryTaskActionView::Update { status },
            SummaryTaskStepView::Ended => SummaryTaskActionView::End,
        }
    }

    /// The state after the event. An event that answers nothing changes nothing.
    pub open spec fn after(self, event: SummaryTaskEventView) -> SummaryTaskStepView {
        match (self, event) {
            (SummaryTaskStepView::Load, SummaryTaskEventView::Loaded { status }) => if status
                == SummaryStatus::Ready {
                SummaryTaskStepView::Ended
            } else {
                SummaryTaskStepView::AcquirePermit
            },
            (SummaryTaskStepView::Load, SummaryTaskEventView::Failed) => SummaryTaskStepView::Ended,
            (SummaryTaskStepView::AcquirePermit, SummaryTaskEventView::Done) =>
                SummaryTaskStepView::MarkGenerating,
            (SummaryTaskStepView::MarkGenerating, SummaryTaskEventView::Done) =>
                SummaryTaskStepView::Generate,
            (SummaryTaskStepView::MarkGenerating, SummaryTaskEventView::Failed) =>
                SummaryTaskStepView::Generate,
            (SummaryTaskStepView::Generate, SummaryTaskEventView::Generated { text }) =>
                SummaryTaskStepView::Store { text },
            (SummaryTaskStepView::Generate, SummaryTaskEventView::Failed) =>
                SummaryTaskStepView::Mark { status: SummaryStatus::Failed },
            (SummaryTaskStepView::Store { text }, SummaryTaskEventView::Done) =>
                SummaryTaskStepView::Mark { status: SummaryStatus::Ready },
            (SummaryTaskStepView::Store { text }, SummaryTaskEventView::Failed) =>
                SummaryTaskStepView::Mark { status: SummaryStatus::Failed },
            (SummaryTaskStepView::Mark { status }, SummaryTaskEventView::Done) =>
                SummaryTaskStepView::Ended,
            (SummaryTaskStepView::Mark { status }, SummaryTaskEventView::Failed) =>
                SummaryTaskStepView::Ended,
            _ => self,
        }
    }
}

/// The summary of one job, made in the background.
#[derive(Debug)]
pub struct SummaryTask {
    pub step: SummaryTaskStep,
}

/// Starts the summary of a job. It looks at the job as it is then, not as it was.
pub fn lanzar_generacion_resumen() -> (r: SummaryTask)
    ensures
        r.step@ == SummaryTaskStepView::Load,
{
    SummaryTask { step: SummaryTaskStep::Load }
}

impl SummaryTask {
    /// What is to be done next.
    pub fn action(&self) -> (r: SummaryTaskAction)
        ensures
            r@ == self.step@.action(),
            r matches SummaryTaskAction::Store { text } ==> self.step matches
                SummaryTaskStep::Store { text: made } && text@ == made@,
            r matches SummaryTaskAction::Update { status } ==> status is Generating || self.step
                == (SummaryTaskStep::Mark { status }),
    {
        match &self.step {
            SummaryTaskStep::Load => SummaryTaskAction::Load,
            SummaryTaskStep::AcquirePermit => SummaryTaskAction::AcquirePermit,
            SummaryTaskStep::MarkGenerating => SummaryTaskAction::Update {
                status: SummaryStatus::Generating,
            },
            SummaryTaskStep::Generate => SummaryTaskAction::Generate,
            SummaryTaskStep::Store { text } => SummaryTaskAction::Store { text: text.clone() },
            SummaryTaskStep::Mark { status } => SummaryTaskAction::Update { status: *status },
            SummaryTaskStep::Ended => SummaryTaskAction::End,
        }
    }

    /// Takes in what came of the action.
    pub fn advance(&mut self, event: SummaryTaskEvent)
        ensures
            final(self).step@ == old(self).step@.after(event@),
    {
        let ghost start = self.step@;
        let mut step = SummaryTaskStep::Ended;
        std::mem::swap(&mut step, &mut self.step);
        let next = match (step, event) {
            (SummaryTaskStep::Load, SummaryTaskEvent::Loaded { status }) => {
                if status == SummaryStatus::Ready {
                    SummaryTaskStep::Ended
                } else {
                    SummaryTaskStep::AcquirePermit
                }
            },
            (SummaryTaskStep::Load, SummaryTaskEvent::Failed) => SummaryTaskStep::Ended,
            (SummaryTaskStep::AcquirePermit, SummaryTaskEvent::Done) =>
                SummaryTaskStep::MarkGenerating,
            (SummaryTaskStep::MarkGenerating, SummaryTaskEvent::Done) => SummaryTaskStep::Generate,
            (SummaryTaskStep::MarkGenerating, SummaryTaskEvent::Failed) =>
                SummaryTaskStep::Generate,
            (SummaryTaskStep::Generate, SummaryTaskEvent::Generated { text }) =>
                SummaryTaskStep::Store { text },
            (SummaryTaskStep::Generate, SummaryTaskEvent::Failed) => SummaryTaskStep::Mark {
                status: SummaryStatus::Failed,
            },
            (SummaryTaskStep::Store { text: _ }, SummaryTaskEvent::Done) => SummaryTaskStep::Mark {
                status: SummaryStatus::Ready,
            },
            (SummaryTaskStep::Store { text: _ }, SummaryTaskEvent::Failed) => SummaryTaskStep::Mark {
                status: SummaryStatus::Failed,
            },
            (SummaryTaskStep::Mark { status: _ }, SummaryTaskEvent::Done) => SummaryTaskStep::Ended,
            (SummaryTaskStep::Mark { status: _ }, SummaryTaskEvent::Failed) =>
                SummaryTaskStep::Ended,
            (step, _) => step,
        };
        self.step = next;
        assert(self.step@ == start.after(event@));
    }
}

/// A summary is marked as ready only directly behind the file that holds it, and one that is
/// ready is never made again.
pub proof fn ready_summaries_are_stored(step: SummaryTaskStepView, event: SummaryTaskEventView)
    ensures
        step.after(event) == (SummaryTaskStepView::Mark { status: SummaryStatus::Ready }) ==> step
            == (SummaryTaskStepView::Mark { status: SummaryStatus::Ready }) || (step is Store
            && event is Done),
        SummaryTaskStepView::Load.after(
            SummaryTaskEventView::Loaded { status: SummaryStatus::Ready },
        ) == SummaryTaskStepView::Ended,
        SummaryTaskStepView::Ended.after(event) == SummaryTaskStepView::Ended,
{
}

/// What a request to resume a job is answered, given whether the job could be loaded: a job that
/// exists is started again and accepted; anything else does not exist.
pub fn reanudar_job(job_id: &str, loaded: bool) -> (r: UploadAnswer)
    ensures
        r@ == (if loaded {
            UploadAnswerView::Accepted { job_id: job_id@ }
        } else {
            UploadAnswerView::Refused { refusal: handlers::no_such_job() }
        }),
        loaded ==> (r matches UploadAnswer::Accepted { job_id: id } && id@ == job_id@),
        !loaded ==> (r matches UploadAnswer::Refused { refusal } && refusal.status == 404),
{
    if loaded {
        UploadAnswer::Accepted { job_id: job_id.to_owned() }
    } else {
        UploadAnswer::Refused { refusal: refuse_no_such_job() }
    }
}

/// A file is what its first bytes make it: MP3 with the letters `ID3` or the eleven set bits of a
/// frame, MP4 with `ftyp` behind four bytes, WAV with `RIFF` and, behind four more bytes, `WAVE`;
/// the first of these that fits counts, and nothing else is taken.
pub proof fn files_are_told_by_their_first_bytes(b: Seq<u8>)
    ensures
        ({
            let tag = b.len() >= 3 && b[0] == 0x49 && b[1] == 0x44 && b[2] == 0x33;
            let frame = b.len() >= 2 && b[0] == 0xff && b[1] >= 0xe0;
            let ftyp = b.len() >= 8 && b[4] == 0x66 && b[5] == 0x74 && b[6] == 0x79 && b[7] == 0x70;
            let riff = b.len() >= 12 && b[0] == 0x52 && b[1] == 0x49 && b[2] == 0x46 && b[3] == 0x46
                && b[8] == 0x57 && b[9] == 0x41 && b[10] == 0x56 && b[11] == 0x45;
            &&& tag || frame ==> container_of(b) == Some("mp3"@)
            &&& !tag && !frame && ftyp ==> container_of(b) == Some("mp4"@)
            &&& !tag && !frame && !ftyp && riff ==> container_of(b) == Some("wav"@)
            &&& !tag && !frame && !ftyp && !riff ==> container_of(b) is None
        }),
{
    let w = seq![0x49u8, 0x44u8, 0x33u8];
    if has_at(b, 0, w) {
        assert(b[0] == w[0] && b[1] == w[1] && b[2] == w[2]);
    }
    let w = seq![0x66u8, 0x74u8, 0x79u8, 0x70u8];
    if has_at(b, 4, w) {
        assert(b[4] == w[0] && b[5] == w[1] && b[6] == w[2] && b[7] == w[3]);
    }
    let w = seq![0x52u8, 0x49u8, 0x46u8, 0x46u8];
    if has_at(b, 0, w) {
        assert(b[0] == w[0] && b[1] == w[1] && b[2] == w[2] && b[3] == w[3]);
    }
    let w = seq![0x57u8, 0x41u8, 0x56u8, 0x45u8];
    if has_at(b, 8, w) {
        assert(b[8] == w[0] && b[9] == w[1] && b[10] == w[2] && b[11] == w[3]);
    }
}

/// Whatever an upload does to a job, it does to its own: the file it writes and measures, the
/// directory it removes, the metadata it changes and the work it starts are those of the job it
/// was given; and to the metadata go the title, the callback and the length it learned.
pub proof fn upload_works_on_its_own_job(upload: UploadView)
    requires
        upload.wf(),
    ensures
        match upload.action() {
            UploadActionView::CreateFile { path } => upload.job matches Some(j) && path
                == j.audio_path,
            UploadActionView::Measure { path } => upload.job matches Some(j) && path
                == j.audio_path,
            UploadActionView::RemoveDir { path } => upload.job matches Some(j) && path
                == job::dir_of(upload.jobs_dir, j.job_id),
            UploadActionView::Launch { job_id } => upload.job matches Some(j) && job_id
                == j.job_id,
            UploadActionView::Persist { job_id, change } => {
                &&& upload.job matches Some(j)
                &&& job_id == j.job_id
                &&& change matches JobChangeView::Upload { title, callback_url, duration_seconds }
                &&& title == upload.title
                &&& callback_url == upload.callback_url
                &&& upload.step == (UploadStepView::Persist { duration_seconds })
            },
            _ => true,
        },
{
}

/// What an upload knows changes only by what tells it: its job by the job that was made for it,
/// its title and its callback each by its own field, and the jobs directory never.
pub proof fn upload_learns_only_what_it_is_told(upload: UploadView, event: UploadEventView)
    ensures
        ({
            let after = upload.after(event);
            &&& after.jobs_dir == upload.jobs_dir
            &&& after.job == upload.job || (upload.action() is CreateJob && event == (
            UploadEventView::JobCreated { job: after.job->0 }) && after.job is Some)
            &&& after.title == upload.title || (upload.step is ReadTitle && event is Text)
            &&& after.callback_url == upload.callback_url || (upload.step is ReadCallback && event
                is Text)
        }),
{
}

/// A text field says what stands in it without the white space around it, and nothing where there
/// is nothing but white space.
pub proof fn text_fields_say_what_stands_in_them(said: Seq<char>)
    ensures
        text::is_blank(said) ==> field_text(said) is None,
        !text::is_blank(said) ==> field_text(said) == Some(text::trimmed(said)),
{
    text::trimmed_is_empty_iff_blank(said);
}

/// How a good upload goes: its first bytes tell what it is; a job is made with that extension and
/// the client's file name; the file is made and every chunk written before the next is read; at
/// the end of the form the file is measured, what was learned of it is noted, noted or not the
/// work starts, and the client is told the job.
pub proof fn uploads_go_step_by_step(
    upload: UploadView,
    filename: Option<Seq<char>>,
    bytes: Seq<u8>,
    extension: Seq<char>,
    job: UploadJobView,
    length: Option<Binary32>,
)
    requires
        upload.wf(),
    ensures
        upload.step == (UploadStepView::FirstChunk { filename }) && container_of(bytes) == Some(
            extension,
        ) ==> upload.after(UploadEventView::Chunk { bytes }).action() == (
        UploadActionView::CreateJob { extension, original_filename: filename }),
        upload.action() is CreateJob ==> upload.after(
            UploadEventView::JobCreated { job },
        ).action() == (UploadActionView::CreateFile { path: job.audio_path }),
        upload.action() is CreateFile ==> upload.after(UploadEventView::Done).action()
            is WriteChunk,
        upload.action() is WriteChunk ==> upload.after(UploadEventView::Done).action() is NextChunk,
        upload.action() is NextChunk ==> upload.after(UploadEventView::Chunk { bytes }).action()
            is WriteChunk,
        upload.action() is NextChunk ==> upload.after(UploadEventView::EndOfField).action()
            is NextField,
        upload.action() is NextField && upload.job is Some ==> upload.after(
            UploadEventView::NoMoreFields,
        ).action() == (UploadActionView::Measure { path: upload.job->0.audio_path }),
        upload.action() is NextField && upload.job is Some ==> upload.after(
            UploadEventView::Field { name: None, filename },
        ).action() is NextField,
        upload.action() is Measure ==> upload.after(
            UploadEventView::Measured { duration_seconds: length },
        ).action() == (UploadActionView::Persist {
            job_id: upload.job->0.job_id,
            change: JobChangeView::Upload {
                title: upload.title,
                callback_url: upload.callback_url,
                duration_seconds: length,
            },
        }),
        upload.action() is Persist ==> upload.after(UploadEventView::Done).action() == (
        UploadActionView::Launch { job_id: upload.job->0.job_id }),
        upload.action() is Persist ==> upload.after(UploadEventView::Failed).action() == (
        UploadActionView::Launch { job_id: upload.job->0.job_id }),
        upload.action() is Launch ==> upload.after(UploadEventView::Done).action() == (
        UploadActionView::Answer {
            answer: UploadAnswerView::Accepted { job_id: upload.job->0.job_id },
        }),
{
}

/// The upload is refused now, with this status and message.
pub open spec fn refused_with(upload: UploadView, status: u16, message: Seq<char>) -> bool {
    upload.action() == (UploadActionView::Answer {
        answer: UploadAnswerView::Refused { refusal: RefusalView { status, message } },
    })
}

/// A refusal tells whose fault it is. What the client sent is the client's: a form that cannot be
/// read or holds no file, an empty file, a file that is no audio. What the server could not do is
/// the server's: make the job or its file.
pub proof fn refusals_tell_whose_fault_it_is(upload: UploadView, bytes: Seq<u8>)
    requires
        upload.wf(),
    ensures
        upload.action() is NextField && upload.job is None ==> refused_with(
            upload.after(UploadEventView::NoMoreFields),
            400,
            "Error al leer el archivo multipart"@,
        ) && refused_with(
            upload.after(UploadEventView::Failed),
            400,
            "Error al leer el archivo multipart"@,
        ),
        upload.action() is ReadText && upload.job is None ==> refused_with(
            upload.after(UploadEventView::Failed),
            400,
            "Error al leer el archivo multipart"@,
        ),
        upload.action() is FirstChunk ==> refused_with(
            upload.after(UploadEventView::EndOfField),
            400,
            "Archivo vacío o inválido"@,
        ) && refused_with(
            upload.after(UploadEventView::Failed),
            400,
            "Archivo vacío o inválido"@,
        ),
        upload.action() is FirstChunk && container_of(bytes) is None ==> refused_with(
            upload.after(UploadEventView::Chunk { bytes }),
            400,
            "Formato no soportado: solo se aceptan mp3, mp4/m4a y wav"@,
        ),
        upload.action() is CreateJob || upload.action() is CreateFile ==> refused_with(
            upload.after(UploadEventView::Failed),
            500,
            "Error interno del servidor"@,
        ),
{
}

/// A refusal behind a removal too: a file that could not be written is the server's fault, one
/// that was cut short and a form that breaks off the client's; whether the directory could be
/// removed changes nothing.
pub proof fn removals_end_in_the_refusal(upload: UploadView, e: UploadEventView)
    requires
        upload.wf(),
        e is Done || e is Failed,
    ensures
        upload.action() is WriteChunk ==> refused_with(
            upload.after(UploadEventView::Failed).after(e),
            500,
            "Error al guardar el archivo"@,
        ),
        upload.action() is NextChunk ==> refused_with(
            upload.after(UploadEventView::Failed).after(e),
            400,
            "Error leyendo el archivo subido (¿se cortó la conexión, o el archivo supera el límite de "@
                + text::decimal(1024) + " MiB?)"@,
        ),
        (upload.action() is NextField || upload.action() is ReadText) && upload.job is Some
            ==> refused_with(
            upload.after(UploadEventView::Failed).after(e),
            400,
            "Error al leer el archivo multipart"@,
        ),
{
}

/// The work of a job goes in its order: nothing before the permit; then it is noted that it is
/// processed, it is transcribed, it is noted that the transcript is ready, it is embedded, it is
/// noted that it is complete, and its summary is started. A failure of the two steps that work is
/// noted, and ends it.
pub proof fn work_goes_in_its_order(run: JobRun, outcome: JobOutcome)
    ensures
        run.pending() is AcquirePermit ==> run.after(outcome).pending() == (JobAction::Update {
            milestone: Milestone::Processing,
        }),
        run.pending() == (JobAction::Update { milestone: Milestone::Processing }) ==> run.after(
            outcome,
        ).pending() is RunPipeline,
        run.pending() is RunPipeline && outcome is Done ==> run.after(outcome).pending() == (
        JobAction::Update { milestone: Milestone::TranscriptReady }),
        run.pending() == (JobAction::Update { milestone: Milestone::TranscriptReady })
            ==> run.after(outcome).pending() is RunEmbeddings,
        run.pending() is RunEmbeddings && outcome is Done ==> run.after(outcome).pending() == (
        JobAction::Update { milestone: Milestone::Completed }),
        run.pending() == (JobAction::Update { milestone: Milestone::Completed }) ==> run.after(
            outcome,
        ).pending() is LaunchSummary,
        (run.pending() is RunPipeline || run.pending() is RunEmbeddings) && outcome is Failed
            ==> run.after(outcome).pending() == (JobAction::Update { milestone: Milestone::Failed }),
        run.pending() is LaunchSummary || run.pending() is End || run.pending() == (
        JobAction::Update { milestone: Milestone::Failed }) ==> run.after(outcome).pending() is End,
{
}

/// Each point is noted as what it is, with its moment.
pub proof fn points_are_noted_as_what_they_are(m: JobMetadataView, at: Seq<char>)
    ensures
        noted(Milestone::Processing, at).applied(m).status is Processing,
        noted(Milestone::Processing, at).applied(m).processing_started_at == Some(at),
        noted(Milestone::TranscriptReady, at).applied(m).transcript_ready,
        noted(Milestone::TranscriptReady, at).applied(m).transcript_ready_at == Some(at),
        noted(Milestone::TranscriptReady, at).applied(m).status == m.status,
        noted(Milestone::Completed, at).applied(m).status is Completed,
        noted(Milestone::Completed, at).applied(m).completed_at == Some(at),
        noted(Milestone::Failed, at).applied(m).status is Failed,
        noted(Milestone::Failed, at).applied(m).completed_at == m.completed_at,
{
}

/// How a summary goes: the job is looked at first; one that has its summary is left alone, and so
/// is one that is not there; else, behind the permit, it is noted that the summary is made, it is
/// made, the very text that was made is stored, and it is noted that it is ready, or that it
/// failed where it could not be made or stored.
pub proof fn summaries_go_step_by_step(
    step: SummaryTaskStepView,
    status: SummaryStatus,
    text: Seq<char>,
)
    ensures
        step.action() is Load && status is Ready ==> step.after(
            SummaryTaskEventView::Loaded { status },
        ).action() is End,
        step.action() is Load && !(status is Ready) ==> step.after(
            SummaryTaskEventView::Loaded { status },
        ).action() is AcquirePermit,
        step.action() is Load ==> step.after(SummaryTaskEventView::Failed).action() is End,
        step.action() is AcquirePermit ==> step.after(SummaryTaskEventView::Done).action() == (
        SummaryTaskActionView::Update { status: SummaryStatus::Generating }),
        step is MarkGenerating ==> step.action() == (SummaryTaskActionView::Update {
            status: SummaryStatus::Generating,
        }) && step.after(SummaryTaskEventView::Done).action() is Generate && step.after(
            SummaryTaskEventView::Failed,
        ).action() is Generate,
        step.action() is Generate ==> step.after(SummaryTaskEventView::Generated { text }).action()
            == (SummaryTaskActionView::Store { text }),
        step.action() is Generate || step.action() is Store ==> step.after(
            SummaryTaskEventView::Failed,
        ).action() == (SummaryTaskActionView::Update { status: SummaryStatus::Failed }),
        step.action() is Store ==> step.after(SummaryTaskEventView::Done).action() == (
        SummaryTaskActionView::Update { status: SummaryStatus::Ready }),
        step == (SummaryTaskStepView::Mark { status }) ==> step.action() == (
        SummaryTaskActionView::Update { status }) && step.after(SummaryTaskEventView::Done).action()
            is End && step.after(SummaryTaskEventView::Failed).action() is End,
{
}

} // verus!
