//! From a transcript to points in the vector store, one per chunk with text.
use crate::audio_pipeline::models::{TranscriptEntry, TranscriptEntryView};
use crate::binary32::Binary32;
use crate::ids;
use crate::text;
use vstd::prelude::*;
use vstd::string::*;

verus! {

/// The one collection of all recordings.
pub const COLLECTION_NAME: &'static str = "transcripts";

/// Length of an embedding.
pub const EMBEDDING_DIM: u64 = 1024;

/// How the collection is created where it is missing.
#[derive(Debug)]
pub struct CollectionPlan {
    pub name: String,
    pub vector_size: u64,
    pub cosine_distance: bool,
    pub vectors_on_disk: bool,
    pub payload_on_disk: bool,
    /// The field that is indexed by keyword.
    pub indexed_field: String,
}

/// What `ensure_collection` creates: cosine distance, everything on disk, recordings indexed.
pub fn ensure_collection() -> (r: CollectionPlan)
    ensures
        r.name@ == COLLECTION_NAME@,
        r.vector_size == EMBEDDING_DIM,
        r.cosine_distance,
        r.vectors_on_disk,
        r.payload_on_disk,
        r.indexed_field@ == "audio_id"@,
{
    CollectionPlan {
        name: COLLECTION_NAME.to_owned(),
        vector_size: EMBEDDING_DIM,
        cosine_distance: true,
        vectors_on_disk: true,
        payload_on_disk: true,
        indexed_field: "audio_id".to_owned(),
    }
}

/// What a point is named after: the recording and the chunk.
pub open spec fn point_name(audio_id: Seq<char>, chunk_id: nat) -> Seq<char> {
    audio_id.push(':') + text::decimal(chunk_id)
}

/// The identifier of the point of a chunk. It depends on the recording and the chunk alone, so
/// that storing a chunk again replaces its point.
pub fn deterministic_point_id(audio_id: &str, chunk_id: usize) -> (r: String)
    ensures
        r@ == ids::name_uuid(point_name(audio_id@, chunk_id as nat)),
        ids::is_canonical(r@),
{
    let mut name = audio_id.to_owned();
    name.push(':');
    name.push_str(text::decimal_text(chunk_id as u64).as_str());
    ids::uuid_of_name(name.as_str())
}

/// Points of different chunks, of the same recording or of different ones, have different names.
pub proof fn point_names_differ(a: Seq<char>, m: nat, b: Seq<char>, n: nat)
    requires
        point_name(a, m) == point_name(b, n),
    ensures
        a == b,
        m == n,
{
    let s = point_name(a, m);
    let t = point_name(b, n);
    text::lemma_decimal_digits(m);
    text::lemma_decimal_digits(n);
    assert(s.len() == a.len() + 1 + text::decimal(m).len());
    assert(t.len() == b.len() + 1 + text::decimal(n).len());
    if a.len() < b.len() {
        assert(s[b.len() as int] == text::decimal(m)[b.len() - a.len() - 1]);
        assert(t[b.len() as int] == ':');
    }
    if b.len() < a.len() {
        assert(t[a.len() as int] == text::decimal(n)[a.len() - b.len() - 1]);
        assert(s[a.len() as int] == ':');
    }
    assert(a == s.take(a.len() as int));
    assert(b == t.take(b.len() as int));
    assert(text::decimal(m) == s.skip(a.len() as int + 1));
    assert(text::decimal(n) == t.skip(b.len() as int + 1));
    text::decimal_is_injective(m, n);
}

/// One point, without its vector.
#[derive(Debug)]
pub struct Point {
    pub id: String,
    pub audio_id: String,
    pub chunk_id: usize,
    pub start: Binary32,
    pub end: Binary32,
    pub text: String,
    pub speaker: String,
    pub avg_logprob: Binary32,
}

/// `Point` with texts by their characters.
#[verifier::ext_equal]
pub struct PointView {
    pub id: Seq<char>,
    pub audio_id: Seq<char>,
    pub chunk_id: usize,
    pub start: Binary32,
    pub end: Binary32,
    pub text: Seq<char>,
    pub speaker: Seq<char>,
    pub avg_logprob: Binary32,
}

impl View for Point {
    type V = PointView;

    open spec fn view(&self) -> PointView {
        PointView {
            id: self.id@,
            audio_id: self.audio_id@,
            chunk_id: self.chunk_id,
            start: self.start,
            end: self.end,
            text: self.text@,
            speaker: self.speaker@,
            avg_logprob: self.avg_logprob,
        }
    }
}

/// The point of a chunk.
pub open spec fn point_of(audio_id: Seq<char>, entry: TranscriptEntryView) -> PointView {
    PointView {
        id: ids::name_uuid(point_name(audio_id, entry.chunk as nat)),
        audio_id,
        chunk_id: entry.chunk,
        start: entry.start,
        end: entry.end,
        text: entry.text,
        speaker: "unknown"@,
        avg_logprob: entry.avg_logprob,
    }
}

/// What follows once a point is stored.
#[derive(Debug)]
pub enum Ending {
    /// The transcript goes on.
    ReadOn,
    /// This was the last entry with text.
    Finish,
    /// This was the last entry that could be read.
    Fail { reason: String },
}

/// `Ending` with texts by their characters.
#[verifier::ext_equal]
pub enum EndingView {
    ReadOn,
    Finish,
    Fail { reason: Seq<char> },
}

impl View for Ending {
    type V = EndingView;

    open spec fn view(&self) -> EndingView {
        match *self {
            Ending::ReadOn => EndingView::ReadOn,
            Ending::Finish => EndingView::Finish,
            Ending::Fail { reason } => EndingView::Fail { reason: reason@ },
        }
    }
}

/// How far the phase has come. Each state but the last two waits for one action.
#[derive(Debug)]
pub enum EmbeddingStep {
    CheckCollection,
    CreateCollection,
    CreateIndex,
    OpenTranscript,
    ReadLine,
    Parse { line: String },
    Embed { entry: TranscriptEntry, behind: Ending },
    Upsert { entry: TranscriptEntry, behind: Ending },
    Finished,
    Failed { reason: String },
}

/// `EmbeddingStep` with texts by their characters.
#[verifier::ext_equal]
pub enum EmbeddingStepView {
    CheckCollection,
    CreateCollection,
    CreateIndex,
    OpenTranscript,
    ReadLine,
    Parse { line: Seq<char> },
    Embed { entry: TranscriptEntryView, behind: EndingView },
    Upsert { entry: TranscriptEntryView, behind: EndingView },
    Finished,
    Failed { reason: Seq<char> },
}

impl View for EmbeddingStep {
    type V = EmbeddingStepView;

    open spec fn view(&self) -> EmbeddingStepView {
        match *self {
            EmbeddingStep::CheckCollection => EmbeddingStepView::CheckCollection,
            EmbeddingStep::CreateCollection => EmbeddingStepView::CreateCollection,
            EmbeddingStep::CreateIndex => EmbeddingStepView::CreateIndex,
            EmbeddingStep::OpenTranscript => EmbeddingStepView::OpenTranscript,
            EmbeddingStep::ReadLine => EmbeddingStepView::ReadLine,
            EmbeddingStep::Parse { line } => EmbeddingStepView::Parse { line: line@ },
            EmbeddingStep::Embed { entry, behind } => EmbeddingStepView::Embed {
                entry: entry@,
                behind: behind@,
            },
            EmbeddingStep::Upsert { entry, behind } => EmbeddingStepView::Upsert {
                entry: entry@,
                behind: behind@,
            },
            EmbeddingStep::Finished => EmbeddingStepView::Finished,
            EmbeddingStep::Failed { reason } => EmbeddingStepView::Failed { reason: reason@ },
        }
    }
}

/// What is to be done next.
#[derive(Debug)]
pub enum EmbeddingAction {
    CheckCollection,
    CreateCollection,
    CreateIndex,
    OpenTranscript { path: String },
    ReadLine,
    Parse { line: String },
    /// Embed the text; `unload` frees the model afterwards.
    Embed { model: String, text: String, unload: bool },
    /// Store the point, with the vector just made.
    Upsert { point: Point },
    Finish,
    Fail { reason: String },
}

/// `EmbeddingAction` with texts by their characters.
#[verifier::ext_equal]
pub enum EmbeddingActionView {
    CheckCollection,
    CreateCollection,
    CreateIndex,
    OpenTranscript { path: Seq<char> },
    ReadLine,
    Parse { line: Seq<char> },
    Embed { model: Seq<char>, text: Seq<char>, unload: bool },
    Upsert { point: PointView },
    Finish,
    Fail { reason: Seq<char> },
}

impl View for EmbeddingAction {
    type V = EmbeddingActionView;

    open spec fn view(&self) -> EmbeddingActionView {
        match *self {
            EmbeddingAction::CheckCollection => EmbeddingActionView::CheckCollection,
            EmbeddingAction::CreateCollection => EmbeddingActionView::CreateCollection,
            EmbeddingAction::CreateIndex => EmbeddingActionView::CreateIndex,
            EmbeddingAction::OpenTranscript { path } => EmbeddingActionView::OpenTranscript {
                path: path@,
            },
            EmbeddingAction::ReadLine => EmbeddingActionView::ReadLine,
            EmbeddingAction::Parse { line } => EmbeddingActionView::Parse { line: line@ },
            EmbeddingAction::Embed { model, text, unload } => EmbeddingActionView::Embed {
                model: model@,
                text: text@,
                unload,
            },
            EmbeddingAction::Upsert { point } => EmbeddingActionView::Upsert { point: point@ },
            EmbeddingAction::Finish => EmbeddingActionView::Finish,
            EmbeddingAction::Fail { reason } => EmbeddingActionView::Fail { reason: reason@ },
        }
    }
}

/// What came of an action.
#[derive(Debug)]
pub enum EmbeddingEvent {
    Done,
    Exists { exists: bool },
    Line { line: String },
    NoMoreLines,
    Parsed { entry: TranscriptEntry },
    /// How many vectors came back for the one text.
    Embedded { vectors: usize },
    Error { reason: String },
}

/// `EmbeddingEvent` with texts by their characters.
#[verifier::ext_equal]
pub enum EmbeddingEventView {
    Done,
    Exists { exists: bool },
    Line { line: Seq<char> },
    NoMoreLines,
    Parsed { entry: TranscriptEntryView },
    Embedded { vectors: usize },
    Error { reason: Seq<char> },
}

impl View for EmbeddingEvent {
    type V = EmbeddingEventView;

    open spec fn view(&self) -> EmbeddingEventView {
        match *self {
            EmbeddingEvent::Done => EmbeddingEventView::Done,
            EmbeddingEvent::Exists { exists } => EmbeddingEventView::Exists { exists },
            EmbeddingEvent::Line { line } => EmbeddingEventView::Line { line: line@ },
            EmbeddingEvent::NoMoreLines => EmbeddingEventView::NoMoreLines,
            EmbeddingEvent::Parsed { entry } => EmbeddingEventView::Parsed { entry: entry@ },
            EmbeddingEvent::Embedded { vectors } => EmbeddingEventView::Embedded { vectors },
            EmbeddingEvent::Error { reason } => EmbeddingEventView::Error { reason: reason@ },
        }
    }
}

/// One run of the phase for one recording. The latest entry with text waits in `pending` until it
/// is known whether another follows it.
#[derive(Debug)]
pub struct EmbeddingRun {
    pub model: String,
    pub audio_id: String,
    pub transcript_path: String,
    pub pending: Option<TranscriptEntry>,
    pub step: EmbeddingStep,
}

/// `EmbeddingRun` with texts by their characters.
#[verifier::ext_equal]
pub struct EmbeddingRunView {
    pub model: Seq<char>,
    pub audio_id: Seq<char>,
    pub transcript_path: Seq<char>,
    pub pending: Option<TranscriptEntryView>,
    pub step: EmbeddingStepView,
}

impl View for EmbeddingRun {
    type V = EmbeddingRunView;

    open spec fn view(&self) -> EmbeddingRunView {
        EmbeddingRunView {
            model: self.model@,
            audio_id: self.audio_id@,
            transcript_path: self.transcript_path@,
            pending: match self.pending {
                Some(entry) => Some(entry@),
                None => None,
            },
            step: self.step@,
        }
    }
}

/// What is said where the model gave no vector.
pub open spec fn no_vector(chunk: usize) -> Seq<char> {
    "Ollama no devolvió ningún embedding para el chunk "@ + text::decimal(chunk as nat)
}

/// The state behind a stored point.
pub open spec fn step_behind(behind: EndingView) -> EmbeddingStepView {
    match behind {
        EndingView::ReadOn => EmbeddingStepView::ReadLine,
        EndingView::Finish => EmbeddingStepView::Finished,
        EndingView::Fail { reason } => EmbeddingStepView::Failed { reason },
    }
}

impl EmbeddingRunView {
    pub open spec fn at(self, step: EmbeddingStepView) -> EmbeddingRunView {
        EmbeddingRunView { step, ..self }
    }

    /// What is to be done in this state.
    pub open spec fn action(self) -> EmbeddingActionView {
        match self.step {
            EmbeddingStepView::CheckCollection => EmbeddingActionView::CheckCollection,
            EmbeddingStepView::CreateCollection => EmbeddingActionView::CreateCollection,
            EmbeddingStepView::CreateIndex => EmbeddingActionView::CreateIndex,
            EmbeddingStepView::OpenTranscript => EmbeddingActionView::OpenTranscript {
                path: self.transcript_path,
            },
            EmbeddingStepView::ReadLine => EmbeddingActionView::ReadLine,
            EmbeddingStepView::Parse { line } => EmbeddingActionView::Parse { line },
            EmbeddingStepView::Embed { entry, behind } => EmbeddingActionView::Embed {
                model: self.model,
                text: entry.text,
                unload: !(behind is ReadOn),
            },
            EmbeddingStepView::Upsert { entry, behind } => EmbeddingActionView::Upsert {
                point: point_of(self.audio_id, entry),
            },
            EmbeddingStepView::Finished => EmbeddingActionView::Finish,
            EmbeddingStepView::Failed { reason } => EmbeddingActionView::Fail { reason },
        }
    }

    /// The state once nothing more can be read: the entry that waits is stored first.
    pub open spec fn ending(self, behind: EndingView) -> EmbeddingRunView {
        match self.pending {
            Some(entry) => EmbeddingRunView {
                pending: None,
                step: EmbeddingStepView::Embed { entry, behind },
                ..self
            },
            None => self.at(step_behind(behind)),
        }
    }

    /// The state once one more entry with text is read: it waits, and the one before it is stored.
    pub open spec fn with_entry(self, entry: TranscriptEntryView) -> EmbeddingRunView {
        EmbeddingRunView {
            pending: Some(entry),
            step: match self.pending {
                Some(earlier) => EmbeddingStepView::Embed {
                    entry: earlier,
                    behind: EndingView::ReadOn,
                },
                None => EmbeddingStepView::ReadLine,
            },
            ..self
        }
    }

    /// The state after the event. An event that answers nothing changes nothing.
    pub open spec fn after(self, event: EmbeddingEventView) -> EmbeddingRunView {
        match (self.step, event) {
            (EmbeddingStepView::Finished, _) => self,
            (EmbeddingStepView::Failed { reason }, _) => self,
            (EmbeddingStepView::ReadLine, EmbeddingEventView::Error { reason }) => self.ending(
                EndingView::Fail { reason },
            ),
            (EmbeddingStepView::Parse { line }, EmbeddingEventView::Error { reason }) => self.ending(
                EndingView::Fail { reason },
            ),
            (_, EmbeddingEventView::Error { reason }) => self.at(
                EmbeddingStepView::Failed { reason },
            ),
            (EmbeddingStepView::CheckCollection, EmbeddingEventView::Exists { exists }) => self.at(
                if exists {
                    EmbeddingStepView::OpenTranscript
                } else {
                    EmbeddingStepView::CreateCollection
                },
            ),
            (EmbeddingStepView::CreateCollection, EmbeddingEventView::Done) => self.at(
                EmbeddingStepView::CreateIndex,
            ),
            (EmbeddingStepView::CreateIndex, EmbeddingEventView::Done) => self.at(
                EmbeddingStepView::OpenTranscript,
            ),
            (EmbeddingStepView::OpenTranscript, EmbeddingEventView::Done) => self.at(
                EmbeddingStepView::ReadLine,
            ),
            (EmbeddingStepView::ReadLine, EmbeddingEventView::NoMoreLines) => self.ending(
                EndingView::Finish,
            ),
            (EmbeddingStepView::ReadLine, EmbeddingEventView::Line { line }) => if text::is_blank(
                line,
            ) {
                self
            } else {
                self.at(EmbeddingStepView::Parse { line })
            },
            (EmbeddingStepView::Parse { line }, EmbeddingEventView::Parsed { entry }) =>
                if text::is_blank(entry.text) {
                    self.at(EmbeddingStepView::ReadLine)
                } else {
                    self.with_entry(entry)
                },
            (
                EmbeddingStepView::Embed { entry, behind },
                EmbeddingEventView::Embedded { vectors },
            ) => self.at(
                if vectors == 0 {
                    EmbeddingStepView::Failed { reason: no_vector(entry.chunk) }
                } else {
                    EmbeddingStepView::Upsert { entry, behind }
                },
            ),
            (EmbeddingStepView::Upsert { entry, behind }, EmbeddingEventView::Done) => self.at(
                step_behind(behind),
            ),
            _ => self,
        }
    }

    /// The state after all these events.
    pub open spec fn after_all(self, events: Seq<EmbeddingEventView>) -> EmbeddingRunView
        decreases events.len(),
    {
        if events.len() == 0 {
            self
        } else {
            self.after_all(events.drop_last()).after(events.last())
        }
    }

    /// The entries that were read from the transcript, in order.
    pub open spec fn entries_read(self, events: Seq<EmbeddingEventView>) -> Seq<TranscriptEntryView>
        decreases events.len(),
    {
        if events.len() == 0 {
            Seq::empty()
        } else {
            let before = self.after_all(events.drop_last());
            let earlier = self.entries_read(events.drop_last());
            match (before.step, events.last()) {
                (EmbeddingStepView::Parse { line }, EmbeddingEventView::Parsed { entry }) =>
                    earlier.push(entry),
                _ => earlier,
            }
        }
    }

    /// The points that were stored, in order.
    pub open spec fn points_stored(self, events: Seq<EmbeddingEventView>) -> Seq<PointView>
        decreases events.len(),
    {
        if events.len() == 0 {
            Seq::empty()
        } else {
            let before = self.after_all(events.drop_last());
            let earlier = self.points_stored(events.drop_last());
            match (before.step, events.last()) {
                (EmbeddingStepView::Upsert { entry, behind }, EmbeddingEventView::Done) =>
                    earlier.push(point_of(self.audio_id, entry)),
                _ => earlier,
            }
        }
    }

    /// Of each request to the model that was answered, in order, whether it freed the model.
    pub open spec fn unloads(self, events: Seq<EmbeddingEventView>) -> Seq<bool>
        decreases events.len(),
    {
        if events.len() == 0 {
            Seq::empty()
        } else {
            let before = self.after_all(events.drop_last());
            let earlier = self.unloads(events.drop_last());
            match (before.action(), events.last()) {
                (
                    EmbeddingActionView::Embed { model, text, unload },
                    EmbeddingEventView::Embedded { vectors },
                ) => earlier.push(unload),
                _ => earlier,
            }
        }
    }
}

/// The points of the entries with text.
pub open spec fn points_of(audio_id: Seq<char>, entries: Seq<TranscriptEntryView>) -> Seq<PointView>
    decreases entries.len(),
{
    if entries.len() == 0 {
        Seq::empty()
    } else if text::is_blank(entries.last().text) {
        points_of(audio_id, entries.drop_last())
    } else {
        points_of(audio_id, entries.drop_last()).push(point_of(audio_id, entries.last()))
    }
}

/// Starts the phase for one recording.
pub fn run_embedding_phase(model: &str, audio_id: &str, transcript_path: &str) -> (r: EmbeddingRun)
    ensures
        r@ == (EmbeddingRunView {
            model: model@,
            audio_id: audio_id@,
            transcript_path: transcript_path@,
            pending: None,
            step: EmbeddingStepView::CheckCollection,
        }),
{
    EmbeddingRun {
        model: model.to_owned(),
        audio_id: audio_id.to_owned(),
        transcript_path: transcript_path.to_owned(),
        pending: None,
        step: EmbeddingStep::CheckCollection,
    }
}

impl EmbeddingRun {
    /// What is to be done next.
    pub fn action(&self) -> (r: EmbeddingAction)
        ensures
            r@ == self@.action(),
            self.step matches EmbeddingStep::Embed { entry, behind: _ } ==> {
                &&& r matches EmbeddingAction::Embed { model, text, unload: _ }
                &&& model@ == self.model@
                &&& text@ == entry.text@
            },
            self.step matches EmbeddingStep::Upsert { entry, behind: _ } ==> {
                &&& r matches EmbeddingAction::Upsert { point }
                &&& point.id@ == ids::name_uuid(
                    self.audio_id@.push(':') + text::decimal(entry.chunk as nat),
                )
                &&& point.audio_id@ == self.audio_id@
                &&& point.chunk_id == entry.chunk
                &&& point.start == entry.start
                &&& point.end == entry.end
                &&& point.text@ == entry.text@
                &&& point.speaker@ == "unknown"@
                &&& point.avg_logprob == entry.avg_logprob
            },
    {
        match &self.step {
            EmbeddingStep::CheckCollection => EmbeddingAction::CheckCollection,
            EmbeddingStep::CreateCollection => EmbeddingAction::CreateCollection,
            EmbeddingStep::CreateIndex => EmbeddingAction::CreateIndex,
            EmbeddingStep::OpenTranscript => EmbeddingAction::OpenTranscript {
                path: self.transcript_path.clone(),
            },
            EmbeddingStep::ReadLine => EmbeddingAction::ReadLine,
            EmbeddingStep::Parse { line } => EmbeddingAction::Parse { line: line.clone() },
            EmbeddingStep::Embed { entry, behind } => EmbeddingAction::Embed {
                model: self.model.clone(),
                text: entry.text.clone(),
                unload: match behind {
                    Ending::ReadOn => false,
                    _ => true,
                },
            },
            EmbeddingStep::Upsert { entry, behind: _ } => {
                let point = Point {
                    id: deterministic_point_id(self.audio_id.as_str(), entry.chunk),
                    audio_id: self.audio_id.clone(),
                    chunk_id: entry.chunk,
                    start: entry.start,
                    end: entry.end,
                    text: entry.text.clone(),
                    speaker: "unknown".to_owned(),
                    avg_logprob: entry.avg_logprob,
                };
                EmbeddingAction::Upsert { point }
            },
            EmbeddingStep::Finished => EmbeddingAction::Finish,
            EmbeddingStep::Failed { reason } => EmbeddingAction::Fail { reason: reason.clone() },
        }
    }

    /// Takes in what came of the action.
    pub fn advance(&mut self, event: EmbeddingEvent)
        ensures
            final(self)@ == old(self)@.after(event@),
    {
        let ghost start = self@;
        let mut step = EmbeddingStep::Finished;
        std::mem::swap(&mut step, &mut self.step);
        let next = match (step, event) {
            (EmbeddingStep::Finished, _) => EmbeddingStep::Finished,
            (EmbeddingStep::Failed { reason }, _) => EmbeddingStep::Failed { reason },
            (EmbeddingStep::ReadLine, EmbeddingEvent::Error { reason }) => self.end(
                Ending::Fail { reason },
            ),
            (EmbeddingStep::Parse { line: _ }, EmbeddingEvent::Error { reason }) => self.end(
                Ending::Fail { reason },
            ),
            (_, EmbeddingEvent::Error { reason }) => EmbeddingStep::Failed { reason },
            (EmbeddingStep::CheckCollection, EmbeddingEvent::Exists { exists }) => if exists {
                EmbeddingStep::OpenTranscript
            } else {
                EmbeddingStep::CreateCollection
            },
            (EmbeddingStep::CreateCollection, EmbeddingEvent::Done) => EmbeddingStep::CreateIndex,
            (EmbeddingStep::CreateIndex, EmbeddingEvent::Done) => EmbeddingStep::OpenTranscript,
            (EmbeddingStep::OpenTranscript, EmbeddingEvent::Done) => EmbeddingStep::ReadLine,
            (EmbeddingStep::ReadLine, EmbeddingEvent::NoMoreLines) => self.end(Ending::Finish),
            (EmbeddingStep::ReadLine, EmbeddingEvent::Line { line }) => {
                if text::blank(line.as_str()) {
                    EmbeddingStep::ReadLine
                } else {
                    EmbeddingStep::Parse { line }
                }
            },
            (EmbeddingStep::Parse { line: _ }, EmbeddingEvent::Parsed { entry }) => {
                if text::blank(entry.text.as_str()) {
                    EmbeddingStep::ReadLine
                } else {
                    let mut earlier = Some(entry);
                    std::mem::swap(&mut earlier, &mut self.pending);
                    match earlier {
                        Some(entry) => EmbeddingStep::Embed { entry, behind: Ending::ReadOn },
                        None => EmbeddingStep::ReadLine,
                    }
                }
            },
            (EmbeddingStep::Embed { entry, behind }, EmbeddingEvent::Embedded { vectors }) => {
                if vectors == 0 {
                    let mut reason = "Ollama no devolvió ningún embedding para el chunk ".to_owned();
                    reason.push_str(text::decimal_text(entry.chunk as u64).as_str());
                    EmbeddingStep::Failed { reason }
                } else {
                    EmbeddingStep::Upsert { entry, behind }
                }
            },
            (EmbeddingStep::Upsert { entry: _, behind }, EmbeddingEvent::Done) => behind.step(),
            (step, _) => step,
        };
        self.step = next;
        assert(self@ == start.after(event@));
    }

    /// Takes out the entry that waits, and tells the step in which nothing more is read.
    fn end(&mut self, behind: Ending) -> (r: EmbeddingStep)
        ensures
            final(self)@.at(r@) == old(self)@.ending(behind@),
            final(self)@.step == old(self)@.step,
    {
        let mut entry: Option<TranscriptEntry> = None;
        std::mem::swap(&mut entry, &mut self.pending);
        match entry {
            Some(entry) => EmbeddingStep::Embed { entry, behind },
            None => behind.step(),
        }
    }
}

impl Ending {
    fn step(self) -> (r: EmbeddingStep)
        ensures
            r@ == step_behind(self@),
    {
        match self {
            Ending::ReadOn => EmbeddingStep::ReadLine,
            Ending::Finish => EmbeddingStep::Finished,
            Ending::Fail { reason } => EmbeddingStep::Failed { reason },
        }
    }
}

/// The points that are still to be stored in this state, of the entries read so far.
pub open spec fn points_due(run: EmbeddingRunView) -> Seq<PointView> {
    let waiting = match run.pending {
        Some(entry) => seq![point_of(run.audio_id, entry)],
        None => Seq::empty(),
    };
    match run.step {
        EmbeddingStepView::Embed { entry, behind } => seq![point_of(run.audio_id, entry)] + waiting,
        EmbeddingStepView::Upsert { entry, behind } => seq![point_of(run.audio_id, entry)]
            + waiting,
        _ => waiting,
    }
}

/// A phase that finished has stored exactly the points of the entries with text, one each, in the
/// order of the transcript. One under way has stored a beginning of them, and the rest, at most
/// two, is due; one that failed has stored a beginning of them.
pub proof fn phase_stores_every_entry_with_text(
    run: EmbeddingRunView,
    events: Seq<EmbeddingEventView>,
)
    requires
        run.step is CheckCollection,
        run.pending is None,
    ensures
        ({
            let stored = run.points_stored(events);
            let wanted = points_of(run.audio_id, run.entries_read(events));
            let now = run.after_all(events);
            &&& now.audio_id == run.audio_id
            &&& now.step is Finished ==> stored == wanted
            &&& !(now.step is Failed) ==> wanted == stored + points_due(now)
            &&& stored.is_prefix_of(wanted)
        }),
    decreases events.len(),
{
    lemma_nothing_waits_at_the_end(run, events);
    if events.len() > 0 {
        let head = events.drop_last();
        phase_stores_every_entry_with_text(run, head);
        lemma_nothing_waits_at_the_end(run, head);
        let before = run.after_all(head);
        let after = run.after_all(events);
        let stored = run.points_stored(head);
        let wanted = points_of(run.audio_id, run.entries_read(head));
        match (before.step, events.last()) {
            (EmbeddingStepView::Parse { line }, EmbeddingEventView::Parsed { entry }) => {
                let read = run.entries_read(head);
                let now = run.entries_read(events);
                assert(now == read.push(entry));
                assert(now.drop_last() == read);
                if !text::is_blank(entry.text) {
                    let point = point_of(run.audio_id, entry);
                    assert(points_of(run.audio_id, now) == wanted.push(point));
                    assert(points_due(after) == points_due(before).push(point));
                    assert(wanted.push(point) == stored + points_due(before).push(point));
                }
            },
            (EmbeddingStepView::Upsert { entry, behind }, EmbeddingEventView::Done) => {
                let point = point_of(run.audio_id, entry);
                assert(points_due(before) == seq![point] + points_due(after));
                assert(stored + (seq![point] + points_due(after)) == stored.push(point)
                    + points_due(after));
            },
            _ => {},
        }
    }
}

/// Once the last entry is on its way to the store, nothing waits behind it.
proof fn lemma_nothing_waits_at_the_end(run: EmbeddingRunView, events: Seq<EmbeddingEventView>)
    requires
        run.step is CheckCollection,
        run.pending is None,
    ensures
        ({
            let now = run.after_all(events);
            &&& now.step matches EmbeddingStepView::Embed { entry, behind } ==> (behind is ReadOn
                <==> now.pending is Some)
            &&& now.step matches EmbeddingStepView::Upsert { entry, behind } ==> (behind is ReadOn
                <==> now.pending is Some)
            &&& now.step is Finished ==> now.pending is None
        }),
    decreases events.len(),
{
    if events.len() > 0 {
        lemma_nothing_waits_at_the_end(run, events.drop_last());
    }
}

/// Running the phase again stores the same points, under the same identifiers: what a retry
/// stores depends on the recording and its entries alone.
pub proof fn retry_stores_the_same_points(
    a: EmbeddingRunView,
    first: Seq<EmbeddingEventView>,
    b: EmbeddingRunView,
    second: Seq<EmbeddingEventView>,
)
    requires
        a.step is CheckCollection,
        a.pending is None,
        b.step is CheckCollection,
        b.pending is None,
        a.audio_id == b.audio_id,
        a.after_all(first).step is Finished,
        b.after_all(second).step is Finished,
        a.entries_read(first) == b.entries_read(second),
    ensures
        a.points_stored(first) == b.points_stored(second),
{
    phase_stores_every_entry_with_text(a, first);
    phase_stores_every_entry_with_text(b, second);
}

/// Nothing but the last of these is true.
pub open spec fn only_last(flags: Seq<bool>) -> bool {
    forall|k: int| 0 <= k < flags.len() && #[trigger] flags[k] ==> k == flags.len() - 1
}

proof fn lemma_unloads(run: EmbeddingRunView, events: Seq<EmbeddingEventView>)
    requires
        run.step is CheckCollection,
        run.pending is None,
    ensures
        ({
            let now = run.after_all(events);
            let flags = run.unloads(events);
            let stored = run.points_stored(events).len();
            &&& only_last(flags)
            &&& match now.step {
                EmbeddingStepView::Upsert { entry, behind } => flags.len() == stored + 1
                    && flags.last() == !(behind is ReadOn),
                EmbeddingStepView::Finished => flags.len() == stored && (stored > 0
                    ==> flags.last()),
                EmbeddingStepView::Failed { reason } => stored <= flags.len() <= stored + 1,
                _ => flags.len() == stored && (stored > 0 ==> !flags.last()),
            }
        }),
    decreases events.len(),
{
    if events.len() > 0 {
        let head = events.drop_last();
        lemma_unloads(run, head);
        lemma_reading_before_any_end(run, head);
    }
}

/// While no entry waits and the phase still reads, none was stored.
proof fn lemma_reading_before_any_end(run: EmbeddingRunView, events: Seq<EmbeddingEventView>)
    requires
        run.step is CheckCollection,
        run.pending is None,
    ensures
        ({
            let now = run.after_all(events);
            let opening = now.step is CheckCollection || now.step is CreateCollection || now.step
                is CreateIndex || now.step is OpenTranscript;
            let reading = now.step is ReadLine || now.step is Parse;
            (opening || reading) && now.pending is None ==> run.points_stored(events).len() == 0
        }),
    decreases events.len(),
{
    lemma_nothing_waits_at_the_end(run, events);
    if events.len() > 0 {
        lemma_nothing_waits_at_the_end(run, events.drop_last());
        lemma_reading_before_any_end(run, events.drop_last());
    }
}

/// The model is freed with the last entry that has text, whatever silent entries and blank lines
/// follow it: no other request frees it, and a phase that finished with anything stored has freed
/// it. So the model does not outlive the phase.
pub proof fn model_is_freed_with_the_last_entry(
    run: EmbeddingRunView,
    events: Seq<EmbeddingEventView>,
)
    requires
        run.step is CheckCollection,
        run.pending is None,
    ensures
        ({
            let flags = run.unloads(events);
            let wanted = points_of(run.audio_id, run.entries_read(events));
            &&& only_last(flags)
            &&& run.after_all(events).step is Finished ==> flags.len() == wanted.len()
                && (flags.len() > 0 ==> flags.last())
        }),
{
    lemma_unloads(run, events);
    phase_stores_every_entry_with_text(run, events);
}

/// The point holds what the entry holds, field by field, and names the recording.
pub open spec fn carries(
    point: PointView,
    audio_id: Seq<char>,
    entry: TranscriptEntryView,
) -> bool {
    &&& point.id == ids::name_uuid(audio_id.push(':') + text::decimal(entry.chunk as nat))
    &&& point.audio_id == audio_id
    &&& point.chunk_id == entry.chunk
    &&& point.start == entry.start
    &&& point.end == entry.end
    &&& point.text == entry.text
    &&& point.speaker == "unknown"@
    &&& point.avg_logprob == entry.avg_logprob
}

/// The vector of an entry is made of the text of that entry, by the model of the run, and is
/// stored with a point that carries that very entry: its times, its text, its confidence.
pub proof fn vector_is_stored_with_its_own_entry(
    run: EmbeddingRunView,
    entry: TranscriptEntryView,
    behind: EndingView,
    vectors: usize,
)
    requires
        run.step == (EmbeddingStepView::Embed { entry, behind }),
        vectors > 0,
    ensures
        run.action() matches EmbeddingActionView::Embed { model, text, unload } && model
            == run.model && text == entry.text,
        run.after(
            EmbeddingEventView::Embedded { vectors },
        ).action() matches EmbeddingActionView::Upsert { point } && carries(
            point,
            run.audio_id,
            entry,
        ),
{
}

/// The entries that say something, in order.
pub open spec fn with_text(entries: Seq<TranscriptEntryView>) -> Seq<TranscriptEntryView> {
    entries.filter(|e: TranscriptEntryView| !text::is_blank(e.text))
}

proof fn lemma_points_carry(audio_id: Seq<char>, entries: Seq<TranscriptEntryView>)
    ensures
        points_of(audio_id, entries).len() == with_text(entries).len(),
        forall|k: int|
            0 <= k < with_text(entries).len() ==> carries(
                #[trigger] points_of(audio_id, entries)[k],
                audio_id,
                with_text(entries)[k],
            ),
    decreases entries.len(),
{
    reveal(Seq::filter);
    if entries.len() > 0 {
        lemma_points_carry(audio_id, entries.drop_last());
    }
}

/// A phase that finished has stored one point for every entry of the transcript that says
/// something, in order, and each carries its own entry: its number, its times, its text and its
/// mean log probability, under the recording of the run. One under way has stored a beginning.
pub proof fn stored_points_carry_their_entries(
    run: EmbeddingRunView,
    events: Seq<EmbeddingEventView>,
)
    requires
        run.step is CheckCollection,
        run.pending is None,
    ensures
        ({
            let stored = run.points_stored(events);
            let wanted = with_text(run.entries_read(events));
            &&& stored.len() <= wanted.len()
            &&& run.after_all(events).step is Finished ==> stored.len() == wanted.len()
            &&& forall|k: int|
                0 <= k < stored.len() ==> carries(#[trigger] stored[k], run.audio_id, wanted[k])
        }),
{
    phase_stores_every_entry_with_text(run, events);
    let entries = run.entries_read(events);
    lemma_points_carry(run.audio_id, entries);
    let stored = run.points_stored(events);
    assert forall|k: int| 0 <= k < stored.len() implies carries(
        #[trigger] stored[k],
        run.audio_id,
        with_text(entries)[k],
    ) by {
        assert(stored[k] == points_of(run.audio_id, entries)[k]);
    }
}

/// What counts as stored is what was asked to be stored: a point is counted exactly when the
/// action that names it succeeded.
pub proof fn points_stored_are_those_upserted(
    run: EmbeddingRunView,
    events: Seq<EmbeddingEventView>,
)
    requires
        run.step is CheckCollection,
        events.len() > 0,
    ensures
        ({
            let before = run.after_all(events.drop_last());
            run.points_stored(events) == (match (before.action(), events.last()) {
                (EmbeddingActionView::Upsert { point }, EmbeddingEventView::Done) =>
                    run.points_stored(events.drop_last()).push(point),
                _ => run.points_stored(events.drop_last()),
            })
        }),
{
    lemma_recording_stays(run, events.drop_last());
}

proof fn lemma_recording_stays(run: EmbeddingRunView, events: Seq<EmbeddingEventView>)
    ensures
        run.after_all(events).audio_id == run.audio_id,
        run.after_all(events).model == run.model,
        run.after_all(events).transcript_path == run.transcript_path,
    decreases events.len(),
{
    if events.len() > 0 {
        lemma_recording_stays(run, events.drop_last());
    }
}

/// A phase reads its own transcript: it opens the file it was given, and hands every line that is
/// not blank on as it stands. The collection is looked for first, and made only where it is
/// missing.
pub proof fn phase_reads_its_own_transcript(run: EmbeddingRunView, line: Seq<char>)
    ensures
        run.step is OpenTranscript ==> run.action() == (EmbeddingActionView::OpenTranscript {
            path: run.transcript_path,
        }),
        run.step is ReadLine && !text::is_blank(line) ==> run.after(
            EmbeddingEventView::Line { line },
        ).action() == (EmbeddingActionView::Parse { line }),
        run.step is ReadLine && text::is_blank(line) ==> run.after(
            EmbeddingEventView::Line { line },
        ) == run,
        run.step is CheckCollection ==> run.action() is CheckCollection,
        run.step is CheckCollection ==> run.after(
            EmbeddingEventView::Exists { exists: true },
        ).action() is OpenTranscript,
        run.step is CheckCollection ==> {
            let made = run.after(EmbeddingEventView::Exists { exists: false });
            &&& made.action() is CreateCollection
            &&& made.after(EmbeddingEventView::Done).action() is CreateIndex
            &&& made.after(EmbeddingEventView::Done).after(
                EmbeddingEventView::Done,
            ).action() is OpenTranscript
        },
{
}

/// A phase that lost a service while it stored fails with the reason, and stays failed.
pub proof fn failed_phases_say_why(
    run: EmbeddingRunView,
    reason: Seq<char>,
    later: EmbeddingEventView,
)
    requires
        run.step is CheckCollection || run.step is CreateCollection || run.step is CreateIndex
            || run.step is OpenTranscript || run.step is Embed || run.step is Upsert,
    ensures
        ({
            let failed = run.after(EmbeddingEventView::Error { reason });
            &&& failed.action() == (EmbeddingActionView::Fail { reason })
            &&& failed.after(later).action() == (EmbeddingActionView::Fail { reason })
        }),
{
}

/// A vector that did not come fails the phase, and the reason names the chunk it was for; one that
/// came is stored.
pub proof fn missing_vectors_name_their_chunk(
    run: EmbeddingRunView,
    entry: TranscriptEntryView,
    behind: EndingView,
    vectors: usize,
)
    requires
        run.step == (EmbeddingStepView::Embed { entry, behind }),
    ensures
        vectors == 0 ==> run.after(EmbeddingEventView::Embedded { vectors }).action() == (
        EmbeddingActionView::Fail {
            reason: "Ollama no devolvió ningún embedding para el chunk "@ + text::decimal(
                entry.chunk as nat,
            ),
        }),
        vectors > 0 ==> run.after(EmbeddingEventView::Embedded { vectors }).action() is Upsert,
{
}

/// The collection is made where it is missing, and its index behind it, and left alone where it
/// is there; only then is the transcript read.
pub proof fn collection_is_made_where_it_is_missing(run: EmbeddingRunView)
    ensures
        run.step is CheckCollection ==> {
            &&& run.after(EmbeddingEventView::Exists { exists: true }).action() == (
            EmbeddingActionView::OpenTranscript { path: run.transcript_path })
            &&& run.after(EmbeddingEventView::Exists { exists: false }).action()
                is CreateCollection
        },
        run.step is CreateCollection ==> run.after(EmbeddingEventView::Done).action()
            is CreateIndex,
        run.step is CreateIndex ==> run.after(EmbeddingEventView::Done).action() == (
        EmbeddingActionView::OpenTranscript { path: run.transcript_path }),
        run.step is OpenTranscript ==> run.after(EmbeddingEventView::Done).action() is ReadLine,
{
}

/// A line is parsed as it is read, unless it is blank; then the next is read.
pub proof fn lines_are_parsed_as_they_are(run: EmbeddingRunView, line: Seq<char>)
    requires
        run.step is ReadLine,
    ensures
        text::is_blank(line) ==> run.after(EmbeddingEventView::Line { line }).action() is ReadLine,
        !text::is_blank(line) ==> run.after(EmbeddingEventView::Line { line }).action() == (
        EmbeddingActionView::Parse { line }),
{
}

/// A transcript that breaks off fails the phase with its reason, but only once the entry that
/// waits is stored.
pub proof fn broken_transcripts_still_store_what_waits(
    run: EmbeddingRunView,
    reason: Seq<char>,
    vectors: usize,
)
    requires
        run.step is ReadLine || run.step is Parse,
        vectors > 0,
    ensures
        ({
            let broken = run.after(EmbeddingEventView::Error { reason });
            &&& run.pending is None ==> broken.action() == (EmbeddingActionView::Fail { reason })
            &&& run.pending matches Some(entry) ==> {
                &&& broken.action() == (EmbeddingActionView::Embed {
                    model: run.model,
                    text: entry.text,
                    unload: true,
                })
                &&& broken.after(EmbeddingEventView::Embedded { vectors }).after(
                    EmbeddingEventView::Done,
                ).action() == (EmbeddingActionView::Fail { reason })
            }
        }),
{
}

/// How the phase goes on: an entry with text waits, and sends the one before it to the model, which
/// is kept; behind a stored point the next line is read. At the end of the transcript the entry
/// that waits goes to the model too, which is freed, and behind its point the phase is finished.
pub proof fn phase_goes_entry_by_entry(
    run: EmbeddingRunView,
    entry: TranscriptEntryView,
    vectors: usize,
)
    requires
        vectors > 0,
        run.step is ReadLine || run.step is Parse,
    ensures
        ({
            let read = run.after(EmbeddingEventView::Parsed { entry });
            let over = run.after(EmbeddingEventView::NoMoreLines);
            &&& run.step is Parse && !text::is_blank(entry.text) ==> {
                &&& read.pending == Some(entry)
                &&& run.pending is None ==> read.action() is ReadLine
                &&& run.pending matches Some(earlier) ==> {
                    &&& read.action() == (EmbeddingActionView::Embed {
                        model: run.model,
                        text: earlier.text,
                        unload: false,
                    })
                    &&& read.after(EmbeddingEventView::Embedded { vectors }).after(
                        EmbeddingEventView::Done,
                    ).action() is ReadLine
                }
            }
            &&& run.step is Parse && text::is_blank(entry.text) ==> read.action() is ReadLine
                && read.pending == run.pending
            &&& run.step is ReadLine ==> {
                &&& run.pending is None ==> over.action() is Finish
                &&& run.pending matches Some(last) ==> {
                    &&& over.action() == (EmbeddingActionView::Embed {
                        model: run.model,
                        text: last.text,
                        unload: true,
                    })
                    &&& over.after(EmbeddingEventView::Embedded { vectors }).after(
                        EmbeddingEventView::Done,
                    ).action() is Finish
                }
            }
        }),
{
}

} // verus!
