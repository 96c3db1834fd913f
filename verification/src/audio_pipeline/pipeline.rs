//! The transcription loop: one chunk after the other, in an order that survives a crash.
use crate::audio_pipeline::models::{ChunkMetrics, Checkpoint, JobMetadata, TranscriptEntry};
use crate::audio_pipeline::models::TranscriptEntryView;
use crate::audio_pipeline::whisper_runner::{ChunkTranscription, ChunkTranscriptionView};
use crate::binary32::Binary32;
use crate::paths;
use crate::text;
use vstd::prelude::*;
use vstd::string::*;

verus! {

/// Chunks in a row with the same text that make a hallucination loop.
pub const REPETICIONES_PARA_LOOP: u32 = 3;

/// The words of a text, one space apart.
pub open spec fn normalized(texto: Seq<char>) -> Seq<char> {
    text::join(text::words(texto), " "@)
}

/// The count of equal texts in a row, after one more. Silence counts for nothing.
pub open spec fn next_count(anterior: Seq<char>, actual: Seq<char>, contador: int) -> int {
    if actual.len() == 0 {
        0
    } else if actual == anterior {
        contador + 1
    } else {
        1
    }
}

/// Collapses white space, so that texts that differ in nothing else are equal.
pub fn normalizar_texto(texto: &str) -> (r: String)
    ensures
        r@ == normalized(texto@),
{
    let chars = text::chars_of(texto);
    let n: usize = chars.len();
    let mut out = String::new();
    let ghost mut done: Seq<Seq<char>> = Seq::empty();
    let mut i: usize = 0;
    assert(texto@.skip(0) == texto@);
    assert(done + text::words(texto@) == text::words(texto@));
    while i < n
        invariant
            n == chars@.len(),
            chars@ == texto@,
            i <= n,
            text::words(texto@) == done + text::words(texto@.skip(i as int)),
            out@ == text::join(done, " "@),
            done.len() > 0 ==> out@.len() > 0,
            done.len() == 0 ==> out@.len() == 0,
        decreases n - i,
    {
        let ghost rest = texto@.skip(i as int);
        assert(rest[0] == chars@[i as int]);
        if chars[i].is_whitespace() {
            i = i + 1;
            assert(rest.drop_first() == texto@.skip(i as int));
        } else {
            let start: usize = i;
            while i < n && !chars[i].is_whitespace()
                invariant
                    n == chars@.len(),
                    start <= i <= n,
                    forall|k: int| start <= k < i ==> !text::is_white_space(#[trigger] chars@[k]),
                decreases n - i,
            {
                i = i + 1;
            }
            let word = texto.substring_char(start, i);
            if !out.as_str().is_empty() {
                out.push_str(" ");
            }
            out.push_str(word);
            proof {
                text::lemma_word_len(rest);
                let w = text::word_len(rest) as int;
                if w < i - start {
                    assert(rest[w] == chars@[start + w]);
                }
                if w > i - start {
                    assert(rest[i - start] == chars@[i as int]);
                }
                assert(w == i - start);
                assert(rest.take(w) == word@);
                assert(rest.skip(w) == texto@.skip(i as int));
                let before = done;
                done = done.push(word@);
                assert(done.drop_last() == before);
                assert(before + (seq![word@] + text::words(texto@.skip(i as int))) == done
                    + text::words(texto@.skip(i as int)));
                reveal_strlit(" ");
            }
        }
    }
    assert(texto@.skip(i as int).len() == 0);
    assert(done + text::words(texto@.skip(i as int)) == done);
    out
}

/// The count of equal normalized texts in a row, after `actual` came behind `anterior`.
pub fn actualizar_contador_repeticion(
    anterior: &str,
    actual: &str,
    contador_anterior: u32,
) -> (r: u32)
    requires
        actual@.len() > 0 && actual@ == anterior@ ==> contador_anterior < u32::MAX,
    ensures
        r == next_count(anterior@, actual@, contador_anterior as int),
{
    if actual.is_empty() {
        0
    } else if text::same(actual, anterior) {
        contador_anterior + 1
    } else {
        1
    }
}

/// Normalizing keeps the words, and nothing else.
pub proof fn normalized_keeps_words(texto: Seq<char>)
    ensures
        text::words(normalized(texto)) == text::words(texto),
{
    reveal_strlit(" ");
    assert(" "@ == seq![' ']);
    text::lemma_words_are_words(texto);
    text::lemma_words_of_join(text::words(texto));
}

/// Normalizing twice does no more than normalizing once.
pub proof fn normalized_is_idempotent(texto: Seq<char>)
    ensures
        normalized(normalized(texto)) == normalized(texto),
{
    normalized_keeps_words(texto);
}

/// Two texts have the same normal form exactly when they differ in white space alone.
pub proof fn normalized_equal_iff_same_words(a: Seq<char>, b: Seq<char>)
    ensures
        normalized(a) == normalized(b) <==> text::words(a) == text::words(b),
{
    normalized_keeps_words(a);
    normalized_keeps_words(b);
}

/// The normal form is empty exactly for blank texts.
pub proof fn normalized_is_empty_iff_blank(texto: Seq<char>)
    ensures
        normalized(texto).len() == 0 <==> text::is_blank(texto),
{
    reveal_strlit(" ");
    assert(" "@ == seq![' ']);
    text::lemma_words_are_words(texto);
    text::lemma_words_of_join(text::words(texto));
    text::lemma_no_words_iff_blank(texto);
}

/// What the loop breaker remembers of the chunks so far.
#[derive(Debug)]
pub struct LoopBreaker {
    pub ultimo: String,
    pub repeticiones: u32,
}

/// `LoopBreaker` with its text by its characters.
#[verifier::ext_equal]
pub struct LoopBreakerView {
    pub ultimo: Seq<char>,
    pub repeticiones: int,
}

impl LoopBreakerView {
    /// Nothing seen yet.
    pub open spec fn fresh() -> LoopBreakerView {
        LoopBreakerView { ultimo: Seq::empty(), repeticiones: 0 }
    }

    /// After one more chunk.
    pub open spec fn after(self, texto: Seq<char>) -> LoopBreakerView {
        LoopBreakerView {
            ultimo: normalized(texto),
            repeticiones: next_count(self.ultimo, normalized(texto), self.repeticiones),
        }
    }

    /// The last chunks repeat each other.
    pub open spec fn looping(self) -> bool {
        self.repeticiones >= REPETICIONES_PARA_LOOP
    }

    /// After all these chunks, from a fresh start.
    pub open spec fn after_all(textos: Seq<Seq<char>>) -> LoopBreakerView
        decreases textos.len(),
    {
        if textos.len() == 0 {
            Self::fresh()
        } else {
            Self::after_all(textos.drop_last()).after(textos.last())
        }
    }
}

impl View for LoopBreaker {
    type V = LoopBreakerView;

    open spec fn view(&self) -> LoopBreakerView {
        LoopBreakerView { ultimo: self.ultimo@, repeticiones: self.repeticiones as int }
    }
}

impl LoopBreaker {
    pub fn new() -> (r: LoopBreaker)
        ensures
            r@ == LoopBreakerView::fresh(),
    {
        LoopBreaker { ultimo: String::new(), repeticiones: 0 }
    }

    /// Takes in one more chunk, and tells whether it continues a loop.
    pub fn observe(&mut self, texto: &str) -> (r: bool)
        requires
            old(self)@.repeticiones < u32::MAX,
        ensures
            final(self)@ == old(self)@.after(texto@),
            r == final(self)@.looping(),
    {
        let normal = normalizar_texto(texto);
        self.repeticiones =
        actualizar_contador_repeticion(self.ultimo.as_str(), normal.as_str(), self.repeticiones);
        self.ultimo = normal;
        self.repeticiones >= REPETICIONES_PARA_LOOP
    }
}

/// The chunks `textos[i..]` all say the same, and say something.
pub open spec fn all_same_from(textos: Seq<Seq<char>>, i: int) -> bool {
    forall|k: int|
        i <= k < textos.len() ==> {
            &&& normalized(#[trigger] textos[k]).len() > 0
            &&& normalized(textos[k]) == normalized(textos.last())
        }
}

/// The breaker counts the equal, non-silent chunks at the end of what it saw.
pub proof fn breaker_counts_the_run(textos: Seq<Seq<char>>)
    ensures
        ({
            let b = LoopBreakerView::after_all(textos);
            let n = textos.len() as int;
            &&& 0 <= b.repeticiones <= n
            &&& textos.len() > 0 ==> b.ultimo == normalized(textos.last())
            &&& all_same_from(textos, n - b.repeticiones)
            &&& forall|i: int|
                0 <= i < n - b.repeticiones ==> !#[trigger] all_same_from(textos, i)
        }),
    decreases textos.len(),
{
    if textos.len() > 0 {
        let head = textos.drop_last();
        let last = textos.last();
        let n = textos.len() as int;
        breaker_counts_the_run(head);
        let c = LoopBreakerView::after_all(head);
        let b = LoopBreakerView::after_all(textos);
        if normalized(last).len() == 0 {
            assert forall|i: int| 0 <= i < n implies !#[trigger] all_same_from(textos, i) by {
                assert(textos[n - 1] == last);
            }
        } else if normalized(last) == c.ultimo {
            if head.len() == 0 {
                assert(c.ultimo.len() == 0);
            }
            assert(normalized(head.last()) == normalized(last));
            assert(n - b.repeticiones == (n - 1) - c.repeticiones);
            let i0 = n - b.repeticiones;
            assert(all_same_from(textos, i0)) by {
                assert forall|k: int| i0 <= k < n implies {
                    &&& normalized(#[trigger] textos[k]).len() > 0
                    &&& normalized(textos[k]) == normalized(textos.last())
                } by {
                    if k < n - 1 {
                        assert(textos[k] == head[k]);
                    }
                }
            }
            assert forall|i: int| 0 <= i < i0 implies !#[trigger] all_same_from(textos, i) by {
                if all_same_from(textos, i) {
                    assert(all_same_from(head, i)) by {
                        assert forall|k: int| i <= k < head.len() implies {
                            &&& normalized(#[trigger] head[k]).len() > 0
                            &&& normalized(head[k]) == normalized(head.last())
                        } by {
                            assert(head[k] == textos[k]);
                        }
                    }
                }
            }
        } else {
            assert(b.repeticiones == 1);
            assert forall|i: int| 0 <= i < n - 1 implies !#[trigger] all_same_from(textos, i) by {
                assert(head.last() == textos[n - 2]);
                assert(normalized(textos[n - 2]) != normalized(last));
            }
        }
    }
}

/// A chunk is taken for part of a loop exactly when it says something and the two chunks before
/// it say the same. So silence never is, and the first two occurrences of a text never are.
pub proof fn loop_iff_third_in_a_row(textos: Seq<Seq<char>>)
    requires
        textos.len() > 0,
    ensures
        LoopBreakerView::after_all(textos).looping() <==> textos.len() >= 3 && all_same_from(
            textos,
            textos.len() - 3,
        ),
{
    breaker_counts_the_run(textos);
    let b = LoopBreakerView::after_all(textos);
    if b.looping() {
        assert(all_same_from(textos, textos.len() - b.repeticiones));
        assert(all_same_from(textos, textos.len() - 3));
    }
}

/// Where a chunk lies, and how long it took to decode.
#[derive(Debug, Clone, Copy, PartialEq, Eq, Structural)]
pub struct ChunkSpan {
    pub index: usize,
    pub start_sec: Binary32,
    pub end_sec: Binary32,
    pub decode_ms: u64,
}

/// How far a transcription has come. Each state but the last two waits for one action.
#[derive(Debug)]
pub enum PipelineStep {
    OpenDecoder,
    OpenTranscript,
    OpenMetrics,
    LoadCheckpoint,
    Seek { from: Checkpoint },
    LoadModel,
    NextChunk,
    Transcribe { span: ChunkSpan },
    Append { entry: TranscriptEntry, metrics: ChunkMetrics },
    Save { metrics: ChunkMetrics },
    AppendMetrics { metrics: ChunkMetrics },
    Finished,
    Failed { reason: String },
}

/// `PipelineStep` with texts by their characters.
#[verifier::ext_equal]
pub enum PipelineStepView {
    OpenDecoder,
    OpenTranscript,
    OpenMetrics,
    LoadCheckpoint,
    Seek { from: Checkpoint },
    LoadModel,
    NextChunk,
    Transcribe { span: ChunkSpan },
    Append { entry: TranscriptEntryView, metrics: ChunkMetrics },
    Save { metrics: ChunkMetrics },
    AppendMetrics { metrics: ChunkMetrics },
    Finished,
    Failed { reason: Seq<char> },
}

impl View for PipelineStep {
    type V = PipelineStepView;

    open spec fn view(&self) -> PipelineStepView {
        match *self {
            PipelineStep::OpenDecoder => PipelineStepView::OpenDecoder,
            PipelineStep::OpenTranscript => PipelineStepView::OpenTranscript,
            PipelineStep::OpenMetrics => PipelineStepView::OpenMetrics,
            PipelineStep::LoadCheckpoint => PipelineStepView::LoadCheckpoint,
            PipelineStep::Seek { from } => PipelineStepView::Seek { from },
            PipelineStep::LoadModel => PipelineStepView::LoadModel,
            PipelineStep::NextChunk => PipelineStepView::NextChunk,
            PipelineStep::Transcribe { span } => PipelineStepView::Transcribe { span },
            PipelineStep::Append { entry, metrics } => PipelineStepView::Append {
                entry: entry@,
                metrics,
            },
            PipelineStep::Save { metrics } => PipelineStepView::Save { metrics },
            PipelineStep::AppendMetrics { metrics } => PipelineStepView::AppendMetrics { metrics },
            PipelineStep::Finished => PipelineStepView::Finished,
            PipelineStep::Failed { reason } => PipelineStepView::Failed { reason: reason@ },
        }
    }
}

/// What is to be done next for a transcription.
#[derive(Debug)]
pub enum PipelineAction {
    OpenDecoder { path: String },
    OpenTranscript { path: String },
    OpenMetrics { path: String },
    LoadCheckpoint { path: String },
    Seek { seconds: Binary32, resume_from_chunk: usize },
    LoadModel,
    NextChunk,
    Transcribe { force_fresh_context: bool },
    Append { entry: TranscriptEntry },
    Save { checkpoint: Checkpoint },
    AppendMetrics { metrics: ChunkMetrics },
    Finish,
    Fail { reason: String },
}

/// `PipelineAction` with texts by their characters.
#[verifier::ext_equal]
pub enum PipelineActionView {
    OpenDecoder { path: Seq<char> },
    OpenTranscript { path: Seq<char> },
    OpenMetrics { path: Seq<char> },
    LoadCheckpoint { path: Seq<char> },
    Seek { seconds: Binary32, resume_from_chunk: int },
    LoadModel,
    NextChunk,
    Transcribe { force_fresh_context: bool },
    Append { entry: TranscriptEntryView },
    Save { checkpoint: Checkpoint },
    AppendMetrics { metrics: ChunkMetrics },
    Finish,
    Fail { reason: Seq<char> },
}

impl View for PipelineAction {
    type V = PipelineActionView;

    open spec fn view(&self) -> PipelineActionView {
        match *self {
            PipelineAction::OpenDecoder { path } => PipelineActionView::OpenDecoder { path: path@ },
            PipelineAction::OpenTranscript { path } => PipelineActionView::OpenTranscript {
                path: path@,
            },
            PipelineAction::OpenMetrics { path } => PipelineActionView::OpenMetrics { path: path@ },
            PipelineAction::LoadCheckpoint { path } => PipelineActionView::LoadCheckpoint {
                path: path@,
            },
            PipelineAction::Seek { seconds, resume_from_chunk } => PipelineActionView::Seek {
                seconds,
                resume_from_chunk: resume_from_chunk as int,
            },
            PipelineAction::LoadModel => PipelineActionView::LoadModel,
            PipelineAction::NextChunk => PipelineActionView::NextChunk,
            PipelineAction::Transcribe { force_fresh_context } => PipelineActionView::Transcribe {
                force_fresh_context,
            },
            PipelineAction::Append { entry } => PipelineActionView::Append { entry: entry@ },
            PipelineAction::Save { checkpoint } => PipelineActionView::Save { checkpoint },
            PipelineAction::AppendMetrics { metrics } => PipelineActionView::AppendMetrics {
                metrics,
            },
            PipelineAction::Finish => PipelineActionView::Finish,
            PipelineAction::Fail { reason } => PipelineActionView::Fail { reason: reason@ },
        }
    }
}

/// What came of an action.
#[derive(Debug)]
pub enum PipelineEvent {
    Done,
    Loaded { checkpoint: Checkpoint },
    Chunk { span: ChunkSpan },
    NoMoreChunks,
    /// `score` is `exp` of the mean log probability.
    Transcribed { transcription: ChunkTranscription, score: Binary32, whisper_ms: u64 },
    /// The entry and the checkpoint are on disk.
    Saved { persist_ms: u64 },
    Error { reason: String },
}

/// `PipelineEvent` with texts by their characters.
#[verifier::ext_equal]
pub enum PipelineEventView {
    Done,
    Loaded { checkpoint: Checkpoint },
    Chunk { span: ChunkSpan },
    NoMoreChunks,
    Transcribed { transcription: ChunkTranscriptionView, score: Binary32, whisper_ms: u64 },
    Saved { persist_ms: u64 },
    Error { reason: Seq<char> },
}

impl View for PipelineEvent {
    type V = PipelineEventView;

    open spec fn view(&self) -> PipelineEventView {
        match *self {
            PipelineEvent::Done => PipelineEventView::Done,
            PipelineEvent::Loaded { checkpoint } => PipelineEventView::Loaded { checkpoint },
            PipelineEvent::Chunk { span } => PipelineEventView::Chunk { span },
            PipelineEvent::NoMoreChunks => PipelineEventView::NoMoreChunks,
            PipelineEvent::Transcribed {
                transcription,
                score,
                whisper_ms,
            } => PipelineEventView::Transcribed {
                transcription: transcription@,
                score,
                whisper_ms,
            },
            PipelineEvent::Saved { persist_ms } => PipelineEventView::Saved { persist_ms },
            PipelineEvent::Error { reason } => PipelineEventView::Error { reason: reason@ },
        }
    }
}

/// One run of the transcription of a job.
#[derive(Debug)]
pub struct PipelineRun {
    pub audio_path: String,
    pub transcript_path: String,
    pub metrics_path: String,
    pub checkpoint_path: String,
    pub breaker: LoopBreaker,
    pub step: PipelineStep,
}

/// `PipelineRun` with texts by their characters.
#[verifier::ext_equal]
pub struct PipelineRunView {
    pub audio_path: Seq<char>,
    pub transcript_path: Seq<char>,
    pub metrics_path: Seq<char>,
    pub checkpoint_path: Seq<char>,
    pub breaker: LoopBreakerView,
    pub step: PipelineStepView,
}

impl View for PipelineRun {
    type V = PipelineRunView;

    open spec fn view(&self) -> PipelineRunView {
        PipelineRunView {
            audio_path: self.audio_path@,
            transcript_path: self.transcript_path@,
            metrics_path: self.metrics_path@,
            checkpoint_path: self.checkpoint_path@,
            breaker: self.breaker@,
            step: self.step@,
        }
    }
}

/// The line of a chunk in `transcript.jsonl`: what was said, or nothing inside a loop.
pub open spec fn entry_of(span: ChunkSpan, t: ChunkTranscriptionView, looping: bool) -> TranscriptEntryView {
    TranscriptEntryView {
        chunk: span.index,
        start: span.start_sec,
        end: span.end_sec,
        text: if looping {
            Seq::empty()
        } else {
            t.text
        },
        avg_logprob: t.avg_logprob,
    }
}

/// The metrics of a chunk before it is on disk.
pub open spec fn unsaved_metrics(
    span: ChunkSpan,
    t: ChunkTranscriptionView,
    score: Binary32,
    whisper_ms: u64,
    looping: bool,
) -> ChunkMetrics {
    ChunkMetrics {
        chunk: span.index,
        start: span.start_sec,
        end: span.end_sec,
        decode_ms: span.decode_ms,
        whisper_ms,
        persist_ms: 0,
        total_ms: 0,
        text_len: t.text.len() as usize,
        avg_logprob: t.avg_logprob,
        score,
        no_speech_prob: t.no_speech_prob,
        entropy: t.entropy,
        segment_count: t.segment_count,
        loop_suppressed: looping,
    }
}

/// The metrics of a chunk once it is on disk.
pub open spec fn saved_metrics(m: ChunkMetrics, persist_ms: u64) -> ChunkMetrics {
    ChunkMetrics {
        persist_ms,
        total_ms: (m.decode_ms + m.whisper_ms + persist_ms) as u64,
        ..m
    }
}

/// The checkpoint that says that the chunk of `m` is finished.
pub open spec fn checkpoint_of(m: ChunkMetrics) -> Checkpoint {
    Checkpoint { last_chunk: m.chunk, processed_seconds: m.end }
}

impl PipelineRunView {
    /// What is to be done in this state.
    pub open spec fn action(self) -> PipelineActionView {
        match self.step {
            PipelineStepView::OpenDecoder => PipelineActionView::OpenDecoder {
                path: self.audio_path,
            },
            PipelineStepView::OpenTranscript => PipelineActionView::OpenTranscript {
                path: self.transcript_path,
            },
            PipelineStepView::OpenMetrics => PipelineActionView::OpenMetrics {
                path: self.metrics_path,
            },
            PipelineStepView::LoadCheckpoint => PipelineActionView::LoadCheckpoint {
                path: self.checkpoint_path,
            },
            PipelineStepView::Seek { from } => PipelineActionView::Seek {
                seconds: from.processed_seconds,
                resume_from_chunk: from.last_chunk + 1,
            },
            PipelineStepView::LoadModel => PipelineActionView::LoadModel,
            PipelineStepView::NextChunk => PipelineActionView::NextChunk,
            PipelineStepView::Transcribe { span } => PipelineActionView::Transcribe {
                force_fresh_context: self.breaker.looping(),
            },
            PipelineStepView::Append { entry, metrics } => PipelineActionView::Append { entry },
            PipelineStepView::Save { metrics } => PipelineActionView::Save {
                checkpoint: checkpoint_of(metrics),
            },
            PipelineStepView::AppendMetrics { metrics } => PipelineActionView::AppendMetrics {
                metrics,
            },
            PipelineStepView::Finished => PipelineActionView::Finish,
            PipelineStepView::Failed { reason } => PipelineActionView::Fail { reason },
        }
    }

    /// The event is an answer to what this state waits for.
    pub open spec fn answers(self, event: PipelineEventView) -> bool {
        match event {
            PipelineEventView::Done => self.step is OpenDecoder || self.step is OpenTranscript
                || self.step is OpenMetrics || self.step is Seek || self.step is LoadModel
                || self.step is Append || self.step is AppendMetrics,
            PipelineEventView::Loaded { checkpoint } => self.step is LoadCheckpoint,
            PipelineEventView::Chunk { span } => self.step is NextChunk,
            PipelineEventView::NoMoreChunks => self.step is NextChunk,
            PipelineEventView::Transcribed { transcription, score, whisper_ms } => self.step
                is Transcribe,
            PipelineEventView::Saved { persist_ms } => self.step is Save,
            PipelineEventView::Error { reason } => !(self.step is Finished) && !(self.step
                is Failed),
        }
    }

    /// The numbers of the event stay within machine range.
    pub open spec fn fits(self, event: PipelineEventView) -> bool {
        match (self.step, event) {
            (PipelineStepView::LoadCheckpoint, PipelineEventView::Loaded { checkpoint }) =>
                checkpoint.last_chunk < usize::MAX,
            (
                PipelineStepView::Transcribe { span },
                PipelineEventView::Transcribed { transcription, score, whisper_ms },
            ) => self.breaker.repeticiones < u32::MAX,
            (PipelineStepView::Save { metrics }, PipelineEventView::Saved { persist_ms }) =>
                metrics.decode_ms + metrics.whisper_ms + persist_ms <= u64::MAX,
            _ => true,
        }
    }

    /// This state waits for metrics to be opened or written. They are kept as far as that works:
    /// an error here does not hold up the transcription.
    pub open spec fn at_metrics(self) -> bool {
        self.step is OpenMetrics || self.step is AppendMetrics
    }

    /// The state after the event. An event that answers nothing changes nothing.
    pub open spec fn after(self, event: PipelineEventView) -> PipelineRunView {
        match (self.step, event) {
            (PipelineStepView::Finished, _) => self,
            (PipelineStepView::Failed { reason }, _) => self,
            (PipelineStepView::OpenMetrics, PipelineEventView::Error { reason }) => self.at(
                PipelineStepView::LoadCheckpoint,
            ),
            (
                PipelineStepView::AppendMetrics { metrics },
                PipelineEventView::Error { reason },
            ) => self.at(PipelineStepView::NextChunk),
            (_, PipelineEventView::Error { reason }) => self.at(
                PipelineStepView::Failed { reason },
            ),
            (PipelineStepView::OpenDecoder, PipelineEventView::Done) => self.at(
                PipelineStepView::OpenTranscript,
            ),
            (PipelineStepView::OpenTranscript, PipelineEventView::Done) => self.at(
                PipelineStepView::OpenMetrics,
            ),
            (PipelineStepView::OpenMetrics, PipelineEventView::Done) => self.at(
                PipelineStepView::LoadCheckpoint,
            ),
            (PipelineStepView::LoadCheckpoint, PipelineEventView::Loaded { checkpoint }) => self.at(
                PipelineStepView::Seek { from: checkpoint },
            ),
            (PipelineStepView::Seek { from }, PipelineEventView::Done) => self.at(
                PipelineStepView::LoadModel,
            ),
            (PipelineStepView::LoadModel, PipelineEventView::Done) => self.at(
                PipelineStepView::NextChunk,
            ),
            (PipelineStepView::NextChunk, PipelineEventView::NoMoreChunks) => self.at(
                PipelineStepView::Finished,
            ),
            (PipelineStepView::NextChunk, PipelineEventView::Chunk { span }) => self.at(
                PipelineStepView::Transcribe { span },
            ),
            (
                PipelineStepView::Transcribe { span },
                PipelineEventView::Transcribed { transcription, score, whisper_ms },
            ) => {
                let breaker = self.breaker.after(transcription.text);
                PipelineRunView {
                    breaker,
                    step: PipelineStepView::Append {
                        entry: entry_of(span, transcription, breaker.looping()),
                        metrics: unsaved_metrics(
                            span,
                            transcription,
                            score,
                            whisper_ms,
                            breaker.looping(),
                        ),
                    },
                    ..self
                }
            },
            (PipelineStepView::Append { entry, metrics }, PipelineEventView::Done) => self.at(
                PipelineStepView::Save { metrics },
            ),
            (PipelineStepView::Save { metrics }, PipelineEventView::Saved { persist_ms }) => self.at(
                PipelineStepView::AppendMetrics { metrics: saved_metrics(metrics, persist_ms) },
            ),
            (PipelineStepView::AppendMetrics { metrics }, PipelineEventView::Done) => self.at(
                PipelineStepView::NextChunk,
            ),
            _ => self,
        }
    }

    /// The same run in another state.
    pub open spec fn at(self, step: PipelineStepView) -> PipelineRunView {
        PipelineRunView { step, ..self }
    }

    /// A run at its start.
    pub open spec fn start(
        audio_path: Seq<char>,
        transcript_path: Seq<char>,
        checkpoint_path: Seq<char>,
    ) -> PipelineRunView {
        PipelineRunView {
            audio_path,
            transcript_path,
            metrics_path: paths::with_name(transcript_path, "metrics.jsonl"@),
            checkpoint_path,
            breaker: LoopBreakerView::fresh(),
            step: PipelineStepView::OpenDecoder,
        }
    }
}

/// Starts the transcription of a job, new or interrupted: where it begins is in the checkpoint.
pub fn run_pipeline(metadata: &JobMetadata) -> (r: PipelineRun)
    ensures
        r@ == PipelineRunView::start(
            metadata@.audio_path,
            metadata@.transcript_path,
            metadata@.checkpoint_path,
        ),
        r.wf(),
        r.audio_path@ == metadata.audio_path@,
        r.transcript_path@ == metadata.transcript_path@,
        r.checkpoint_path@ == metadata.checkpoint_path@,
{
    PipelineRun {
        audio_path: metadata.audio_path.clone(),
        transcript_path: metadata.transcript_path.clone(),
        metrics_path: metadata.metrics_path(),
        checkpoint_path: metadata.checkpoint_path.clone(),
        breaker: LoopBreaker::new(),
        step: PipelineStep::OpenDecoder,
    }
}

impl PipelineRun {
    /// The chunk to resume from is a machine number.
    pub open spec fn wf(&self) -> bool {
        self.step matches PipelineStep::Seek { from } ==> from.last_chunk < usize::MAX
    }

    /// What is to be done next.
    pub fn action(&self) -> (r: PipelineAction)
        requires
            self.wf(),
        ensures
            r@ == self@.action(),
            self.step matches PipelineStep::Append { entry, metrics: _ } ==> {
                &&& r matches PipelineAction::Append { entry: e }
                &&& e.chunk == entry.chunk
                &&& e.start == entry.start
                &&& e.end == entry.end
                &&& e.text@ == entry.text@
                &&& e.avg_logprob == entry.avg_logprob
            },
            self.step matches PipelineStep::Save { metrics } ==> {
                &&& r matches PipelineAction::Save { checkpoint }
                &&& checkpoint.last_chunk == metrics.chunk
                &&& checkpoint.processed_seconds == metrics.end
            },
            self.step matches PipelineStep::AppendMetrics { metrics } ==> (
            r matches PipelineAction::AppendMetrics { metrics: m } && m == metrics),
            self.step matches PipelineStep::Seek { from } ==> {
                &&& r matches PipelineAction::Seek { seconds, resume_from_chunk }
                &&& seconds == from.processed_seconds
                &&& resume_from_chunk == from.last_chunk + 1
            },
    {
        match &self.step {
            PipelineStep::OpenDecoder => PipelineAction::OpenDecoder {
                path: self.audio_path.clone(),
            },
            PipelineStep::OpenTranscript => PipelineAction::OpenTranscript {
                path: self.transcript_path.clone(),
            },
            PipelineStep::OpenMetrics => PipelineAction::OpenMetrics {
                path: self.metrics_path.clone(),
            },
            PipelineStep::LoadCheckpoint => PipelineAction::LoadCheckpoint {
                path: self.checkpoint_path.clone(),
            },
            PipelineStep::Seek { from } => PipelineAction::Seek {
                seconds: from.processed_seconds,
                resume_from_chunk: from.last_chunk + 1,
            },
            PipelineStep::LoadModel => PipelineAction::LoadModel,
            PipelineStep::NextChunk => PipelineAction::NextChunk,
            PipelineStep::Transcribe { span: _ } => PipelineAction::Transcribe {
                force_fresh_context: self.breaker.repeticiones >= REPETICIONES_PARA_LOOP,
            },
            PipelineStep::Append { entry, metrics: _ } => PipelineAction::Append {
                entry: entry.copy(),
            },
            PipelineStep::Save { metrics } => PipelineAction::Save {
                checkpoint: Checkpoint {
                    last_chunk: metrics.chunk,
                    processed_seconds: metrics.end,
                },
            },
            PipelineStep::AppendMetrics { metrics } => PipelineAction::AppendMetrics {
                metrics: *metrics,
            },
            PipelineStep::Finished => PipelineAction::Finish,
            PipelineStep::Failed { reason } => PipelineAction::Fail { reason: reason.clone() },
        }
    }

    /// Whether the numbers of the event stay within machine range.
    pub fn can_advance(&self, event: &PipelineEvent) -> (r: bool)
        ensures
            r == self@.fits(event@),
    {
        match (&self.step, event) {
            (PipelineStep::LoadCheckpoint, PipelineEvent::Loaded { checkpoint }) =>
                checkpoint.last_chunk < usize::MAX,
            (
                PipelineStep::Transcribe { span: _ },
                PipelineEvent::Transcribed { transcription: _, score: _, whisper_ms: _ },
            ) => self.breaker.repeticiones < u32::MAX,
            (PipelineStep::Save { metrics }, PipelineEvent::Saved { persist_ms }) =>
                metrics.decode_ms as u128 + metrics.whisper_ms as u128 + *persist_ms as u128
                    <= u64::MAX as u128,
            _ => true,
        }
    }

    /// Takes in what came of the action.
    pub fn advance(&mut self, event: PipelineEvent)
        requires
            old(self).wf(),
            old(self)@.fits(event@),
        ensures
            final(self).wf(),
            final(self)@ == old(self)@.after(event@),
    {
        let ghost start = self@;
        let mut step = PipelineStep::Finished;
        std::mem::swap(&mut step, &mut self.step);
        let next = match (step, event) {
            (PipelineStep::Finished, _) => PipelineStep::Finished,
            (PipelineStep::Failed { reason }, _) => PipelineStep::Failed { reason },
            (PipelineStep::OpenMetrics, PipelineEvent::Error { reason: _ }) =>
                PipelineStep::LoadCheckpoint,
            (PipelineStep::AppendMetrics { metrics: _ }, PipelineEvent::Error { reason: _ }) =>
                PipelineStep::NextChunk,
            (_, PipelineEvent::Error { reason }) => PipelineStep::Failed { reason },
            (PipelineStep::OpenDecoder, PipelineEvent::Done) => PipelineStep::OpenTranscript,
            (PipelineStep::OpenTranscript, PipelineEvent::Done) => PipelineStep::OpenMetrics,
            (PipelineStep::OpenMetrics, PipelineEvent::Done) => PipelineStep::LoadCheckpoint,
            (PipelineStep::LoadCheckpoint, PipelineEvent::Loaded { checkpoint }) =>
                PipelineStep::Seek { from: checkpoint },
            (PipelineStep::Seek { from: _ }, PipelineEvent::Done) => PipelineStep::LoadModel,
            (PipelineStep::LoadModel, PipelineEvent::Done) => PipelineStep::NextChunk,
            (PipelineStep::NextChunk, PipelineEvent::NoMoreChunks) => PipelineStep::Finished,
            (PipelineStep::NextChunk, PipelineEvent::Chunk { span }) =>
                PipelineStep::Transcribe { span },
            (
                PipelineStep::Transcribe { span },
                PipelineEvent::Transcribed { transcription, score, whisper_ms },
            ) => self.after_transcription(span, transcription, score, whisper_ms),
            (PipelineStep::Append { entry: _, metrics }, PipelineEvent::Done) =>
                PipelineStep::Save { metrics },
            (PipelineStep::Save { metrics }, PipelineEvent::Saved { persist_ms }) => {
                let total: u64 = metrics.decode_ms + metrics.whisper_ms + persist_ms;
                PipelineStep::AppendMetrics {
                    metrics: ChunkMetrics { persist_ms, total_ms: total, ..metrics },
                }
            },
            (PipelineStep::AppendMetrics { metrics: _ }, PipelineEvent::Done) =>
                PipelineStep::NextChunk,
            (step, _) => step,
        };
        self.step = next;
        assert(self@ == start.after(event@));
    }

    /// Judges one transcription, and tells what is to be written of it.
    fn after_transcription(
        &mut self,
        span: ChunkSpan,
        transcription: ChunkTranscription,
        score: Binary32,
        whisper_ms: u64,
    ) -> (r: PipelineStep)
        requires
            old(self)@.breaker.repeticiones < u32::MAX,
        ensures
            final(self)@ == (PipelineRunView {
                breaker: old(self)@.breaker.after(transcription@.text),
                ..old(self)@
            }),
            r@ == (PipelineStepView::Append {
                entry: entry_of(span, transcription@, final(self)@.breaker.looping()),
                metrics: unsaved_metrics(
                    span,
                    transcription@,
                    score,
                    whisper_ms,
                    final(self)@.breaker.looping(),
                ),
            }),
            r matches PipelineStep::Append { entry, metrics } && {
                &&& entry.chunk == span.index
                &&& entry.start == span.start_sec
                &&& entry.end == span.end_sec
                &&& entry.avg_logprob == transcription.avg_logprob
                &&& final(self)@.breaker.repeticiones < REPETICIONES_PARA_LOOP ==> entry.text@
                    == transcription.text@
                &&& metrics.chunk == span.index
                &&& metrics.start == span.start_sec
                &&& metrics.end == span.end_sec
                &&& metrics.decode_ms == span.decode_ms
                &&& metrics.whisper_ms == whisper_ms
                &&& metrics.avg_logprob == transcription.avg_logprob
                &&& metrics.score == score
                &&& metrics.no_speech_prob == transcription.no_speech_prob
                &&& metrics.entropy == transcription.entropy
                &&& metrics.segment_count == transcription.segment_count
            },
    {
        let text_len: usize = transcription.text.as_str().unicode_len();
        let looping = self.breaker.observe(transcription.text.as_str());
        let metrics = ChunkMetrics {
            chunk: span.index,
            start: span.start_sec,
            end: span.end_sec,
            decode_ms: span.decode_ms,
            whisper_ms,
            persist_ms: 0,
            total_ms: 0,
            text_len,
            avg_logprob: transcription.avg_logprob,
            score,
            no_speech_prob: transcription.no_speech_prob,
            entropy: transcription.entropy,
            segment_count: transcription.segment_count,
            loop_suppressed: looping,
        };
        let text = if looping {
            String::new()
        } else {
            transcription.text
        };
        let entry = TranscriptEntry {
            chunk: span.index,
            start: span.start_sec,
            end: span.end_sec,
            text,
            avg_logprob: metrics.avg_logprob,
        };
        PipelineStep::Append { entry, metrics }
    }
}

impl PipelineRunView {
    /// The state after all these events.
    pub open spec fn after_all(self, events: Seq<PipelineEventView>) -> PipelineRunView
        decreases events.len(),
    {
        if events.len() == 0 {
            self
        } else {
            self.after_all(events.drop_last()).after(events.last())
        }
    }

    /// The actions that succeeded, in order.
    pub open spec fn performed(self, events: Seq<PipelineEventView>) -> Seq<PipelineActionView>
        decreases events.len(),
    {
        if events.len() == 0 {
            Seq::empty()
        } else {
            let before = self.after_all(events.drop_last());
            if before.answers(events.last()) && !(events.last() is Error) {
                self.performed(events.drop_last()).push(before.action())
            } else {
                self.performed(events.drop_last())
            }
        }
    }

    /// The texts the model wrote, in order.
    pub open spec fn heard(self, events: Seq<PipelineEventView>) -> Seq<Seq<char>>
        decreases events.len(),
    {
        if events.len() == 0 {
            Seq::empty()
        } else {
            let before = self.after_all(events.drop_last());
            match events.last() {
                PipelineEventView::Transcribed { transcription, score, whisper_ms } => if before.step
                    is Transcribe {
                    self.heard(events.drop_last()).push(transcription.text)
                } else {
                    self.heard(events.drop_last())
                },
                _ => self.heard(events.drop_last()),
            }
        }
    }
}

/// An event that answers nothing changes nothing.
pub proof fn stray_events_change_nothing(run: PipelineRunView, event: PipelineEventView)
    requires
        !run.answers(event),
    ensures
        run.after(event) == run,
{
}

/// A finished run does nothing more, whatever comes; nor does a failed one.
pub proof fn ended_runs_stay_ended(run: PipelineRunView, event: PipelineEventView)
    requires
        run.step is Finished || run.step is Failed,
    ensures
        run.after(event) == run,
{
}

/// A checkpoint is written only directly behind the entry of its own chunk.
pub open spec fn saved_behind_entry(actions: Seq<PipelineActionView>, k: int) -> bool {
    actions[k] matches PipelineActionView::Save { checkpoint } ==> {
        &&& k > 0
        &&& actions[k - 1] matches PipelineActionView::Append { entry }
        &&& entry.chunk == checkpoint.last_chunk
        &&& entry.end == checkpoint.processed_seconds
    }
}

/// Metrics are written only directly behind the checkpoint of their own chunk.
pub open spec fn metrics_behind_save(actions: Seq<PipelineActionView>, k: int) -> bool {
    actions[k] matches PipelineActionView::AppendMetrics { metrics } ==> {
        &&& k > 0
        &&& actions[k - 1] == (PipelineActionView::Save { checkpoint: checkpoint_of(metrics) })
    }
}

/// Every checkpoint and all metrics stand where they should.
pub open spec fn in_order(actions: Seq<PipelineActionView>) -> bool {
    forall|k: int|
        #![trigger actions[k]]
        0 <= k < actions.len() ==> saved_behind_entry(actions, k) && metrics_behind_save(actions, k)
}

/// Whatever happens, the checkpoint never runs ahead of the transcript: on disk, a checkpoint for
/// a chunk follows the entry of that chunk, and the metrics follow both.
pub proof fn checkpoint_never_runs_ahead(run: PipelineRunView, events: Seq<PipelineEventView>)
    requires
        run.step is OpenDecoder,
    ensures
        in_order(run.performed(events)),
{
    lemma_order(run, events);
}

/// What the state says of the action before it.
spec fn ordered(step: PipelineStepView, done: Seq<PipelineActionView>) -> bool {
    &&& step matches PipelineStepView::Append { entry, metrics } ==> entry.chunk == metrics.chunk
        && entry.end == metrics.end
    &&& step matches PipelineStepView::Save { metrics } ==> {
        &&& done.len() > 0
        &&& done.last() matches PipelineActionView::Append { entry }
        &&& entry.chunk == metrics.chunk
        &&& entry.end == metrics.end
    }
    &&& step matches PipelineStepView::AppendMetrics { metrics } ==> {
        &&& done.len() > 0
        &&& done.last() == (PipelineActionView::Save { checkpoint: checkpoint_of(metrics) })
    }
}

proof fn lemma_order(run: PipelineRunView, events: Seq<PipelineEventView>)
    requires
        run.step is OpenDecoder,
    ensures
        ordered(run.after_all(events).step, run.performed(events)),
        in_order(run.performed(events)),
    decreases events.len(),
{
    if events.len() > 0 {
        let head = events.drop_last();
        lemma_order(run, head);
        let before = run.after_all(head);
        let done = run.performed(head);
        let now = run.performed(events);
        if before.answers(events.last()) && !(events.last() is Error) {
            assert(now == done.push(before.action()));
            assert forall|k: int|
                #![trigger now[k]]
                0 <= k < now.len() implies saved_behind_entry(now, k) && metrics_behind_save(
                now,
                k,
            ) by {
                if k < done.len() {
                    assert(now[k] == done[k]);
                    assert(saved_behind_entry(done, k) && metrics_behind_save(done, k));
                    if k > 0 {
                        assert(now[k - 1] == done[k - 1]);
                    }
                } else if k > 0 {
                    assert(now[k - 1] == done.last());
                }
            }
        } else {
            stray_or_error(before, events.last());
        }
    }
}

proof fn stray_or_error(run: PipelineRunView, event: PipelineEventView)
    ensures
        !run.answers(event) ==> run.after(event) == run,
        event is Error ==> {
            ||| run.after(event) == run
            ||| run.after(event).step is Failed
            ||| run.step is OpenMetrics && run.after(event).step is LoadCheckpoint
            ||| run.step is AppendMetrics && run.after(event).step is NextChunk
        },
{
}

/// The breaker of a run has seen exactly the texts the model wrote.
proof fn lemma_breaker_heard(run: PipelineRunView, events: Seq<PipelineEventView>)
    requires
        run.step is OpenDecoder,
        run.breaker == LoopBreakerView::fresh(),
    ensures
        run.after_all(events).breaker == LoopBreakerView::after_all(run.heard(events)),
        run.after_all(events).step matches PipelineStepView::Append { entry, metrics } ==> {
            let heard = run.heard(events);
            let looping = run.after_all(events).breaker.looping();
            &&& heard.len() > 0
            &&& metrics.loop_suppressed == looping
            &&& entry.text == (if looping {
                Seq::empty()
            } else {
                heard.last()
            })
        },
    decreases events.len(),
{
    if events.len() > 0 {
        lemma_breaker_heard(run, events.drop_last());
        let before = run.after_all(events.drop_last());
        let heard = run.heard(events.drop_last());
        match events.last() {
            PipelineEventView::Transcribed { transcription, score, whisper_ms } => {
                if before.step is Transcribe {
                    let now = run.heard(events);
                    assert(now == heard.push(transcription.text));
                    assert(now.drop_last() == heard);
                    assert(now.last() == transcription.text);
                }
            },
            _ => {},
        }
    }
}

/// A run keeps what the model wrote, word for word, unless it is the third time in a row that
/// the model wrote it: then the entry is blank and marked as suppressed.
pub proof fn entry_is_heard_unless_third_in_a_row(
    run: PipelineRunView,
    events: Seq<PipelineEventView>,
)
    requires
        run.step is OpenDecoder,
        run.breaker == LoopBreakerView::fresh(),
    ensures
        run.after_all(events).step matches PipelineStepView::Append { entry, metrics } ==> {
            let heard = run.heard(events);
            let third = heard.len() >= 3 && all_same_from(heard, heard.len() - 3);
            &&& heard.len() > 0
            &&& metrics.loop_suppressed == third
            &&& entry.text == (if third {
                Seq::empty()
            } else {
                heard.last()
            })
        },
{
    lemma_breaker_heard(run, events);
    let heard = run.heard(events);
    if heard.len() > 0 {
        loop_iff_third_in_a_row(heard);
    }
}

/// The model is made to forget its context exactly while the last three texts are the same.
pub proof fn fresh_context_iff_looping(run: PipelineRunView, events: Seq<PipelineEventView>)
    requires
        run.step is OpenDecoder,
        run.breaker == LoopBreakerView::fresh(),
    ensures
        run.after_all(events).action() matches PipelineActionView::Transcribe {
            force_fresh_context,
        } ==> {
            let heard = run.heard(events);
            force_fresh_context == (heard.len() >= 3 && all_same_from(heard, heard.len() - 3))
        },
{
    lemma_breaker_heard(run, events);
    let heard = run.heard(events);
    if heard.len() > 0 {
        loop_iff_third_in_a_row(heard);
    }
}

/// The entries among these actions, in order.
pub open spec fn entries_in(actions: Seq<PipelineActionView>) -> Seq<TranscriptEntryView>
    decreases actions.len(),
{
    if actions.len() == 0 {
        Seq::empty()
    } else {
        match actions.last() {
            PipelineActionView::Append { entry } => entries_in(actions.drop_last()).push(entry),
            _ => entries_in(actions.drop_last()),
        }
    }
}

/// The checkpoints among these actions, in order.
pub open spec fn checkpoints_in(actions: Seq<PipelineActionView>) -> Seq<Checkpoint>
    decreases actions.len(),
{
    if actions.len() == 0 {
        Seq::empty()
    } else {
        match actions.last() {
            PipelineActionView::Save { checkpoint } => checkpoints_in(actions.drop_last()).push(
                checkpoint,
            ),
            _ => checkpoints_in(actions.drop_last()),
        }
    }
}

impl PipelineRunView {
    /// The chunks that the decoder gave, in order.
    pub open spec fn given(self, events: Seq<PipelineEventView>) -> Seq<ChunkSpan>
        decreases events.len(),
    {
        if events.len() == 0 {
            Seq::empty()
        } else {
            let before = self.after_all(events.drop_last());
            match events.last() {
                PipelineEventView::Chunk { span } => if before.step is NextChunk {
                    self.given(events.drop_last()).push(span)
                } else {
                    self.given(events.drop_last())
                },
                _ => self.given(events.drop_last()),
            }
        }
    }

    /// The entries that were written, in order.
    pub open spec fn written(self, events: Seq<PipelineEventView>) -> Seq<TranscriptEntryView> {
        entries_in(self.performed(events))
    }

    /// The checkpoints that were written, in order.
    pub open spec fn saved(self, events: Seq<PipelineEventView>) -> Seq<Checkpoint> {
        checkpoints_in(self.performed(events))
    }
}

/// The entries are for the first of these chunks, in order.
pub open spec fn entries_follow(entries: Seq<TranscriptEntryView>, spans: Seq<ChunkSpan>) -> bool {
    &&& entries.len() <= spans.len()
    &&& forall|k: int|
        0 <= k < entries.len() ==> (#[trigger] entries[k]).chunk == spans[k].index
            && entries[k].start == spans[k].start_sec && entries[k].end == spans[k].end_sec
}

/// The checkpoints are for the first of these chunks, in order.
pub open spec fn checkpoints_follow(saved: Seq<Checkpoint>, spans: Seq<ChunkSpan>) -> bool {
    &&& saved.len() <= spans.len()
    &&& forall|k: int|
        0 <= k < saved.len() ==> (#[trigger] saved[k]).last_chunk == spans[k].index
            && saved[k].processed_seconds == spans[k].end_sec
}

/// How many entries and checkpoints there are in a state, of so many chunks.
spec fn counted(step: PipelineStepView, given: nat, written: nat, saved: nat) -> bool {
    match step {
        PipelineStepView::Transcribe { span } => given == written + 1 && saved == written,
        PipelineStepView::Append { entry, metrics } => given == written + 1 && saved == written,
        PipelineStepView::Save { metrics } => given == written && written == saved + 1,
        PipelineStepView::Failed { reason } => written <= given <= written + 1 && saved <= written
            <= saved + 1,
        _ => given == written && saved == written,
    }
}

/// What a state holds belongs to the last chunk that was given.
spec fn of_last(step: PipelineStepView, given: Seq<ChunkSpan>) -> bool {
    match step {
        PipelineStepView::Transcribe { span } => span == given.last(),
        PipelineStepView::Append { entry, metrics } => entry.chunk == given.last().index
            && entry.start == given.last().start_sec && entry.end == given.last().end_sec
            && metrics.chunk == given.last().index && metrics.end == given.last().end_sec,
        PipelineStepView::Save { metrics } => metrics.chunk == given.last().index && metrics.end
            == given.last().end_sec,
        _ => true,
    }
}

proof fn lemma_written(run: PipelineRunView, events: Seq<PipelineEventView>)
    requires
        run.step is OpenDecoder,
    ensures
        entries_follow(run.written(events), run.given(events)),
        checkpoints_follow(run.saved(events), run.given(events)),
        counted(
            run.after_all(events).step,
            run.given(events).len(),
            run.written(events).len(),
            run.saved(events).len(),
        ),
        of_last(run.after_all(events).step, run.given(events)),
    decreases events.len(),
{
    if events.len() > 0 {
        let head = events.drop_last();
        lemma_written(run, head);
        let before = run.after_all(head);
        let done = run.performed(head);
        if before.answers(events.last()) && !(events.last() is Error) {
            let now = done.push(before.action());
            assert(run.performed(events) == now);
            assert(now.drop_last() == done);
            assert(now.last() == before.action());
        } else {
            stray_or_error(before, events.last());
        }
    }
}

/// Whatever happens, the transcript holds the chunks that the decoder gave, in their order and
/// each once, and the checkpoints follow it one by one. At most the last chunk has no entry yet,
/// and at most the last entry no checkpoint; a run that finished has both for every chunk.
pub proof fn every_chunk_is_written_once(run: PipelineRunView, events: Seq<PipelineEventView>)
    requires
        run.step is OpenDecoder,
    ensures
        entries_follow(run.written(events), run.given(events)),
        checkpoints_follow(run.saved(events), run.given(events)),
        run.given(events).len() <= run.written(events).len() + 1,
        run.saved(events).len() <= run.written(events).len() <= run.saved(events).len() + 1,
        run.after_all(events).step is Finished ==> run.written(events).len() == run.given(
            events,
        ).len() && run.saved(events).len() == run.given(events).len(),
{
    lemma_written(run, events);
}

impl PipelineRunView {
    /// The two series of events differ at most in how the opening and the writing of the metrics
    /// went.
    pub open spec fn differ_in_metrics(
        self,
        a: Seq<PipelineEventView>,
        b: Seq<PipelineEventView>,
    ) -> bool
        decreases a.len(),
    {
        &&& a.len() == b.len()
        &&& a.len() > 0 ==> {
            &&& self.differ_in_metrics(a.drop_last(), b.drop_last())
            &&& a.last() == b.last() || self.after_all(a.drop_last()).at_metrics() && (a.last()
                is Done || a.last() is Error) && (b.last() is Done || b.last() is Error)
        }
    }
}

/// The metrics never hold up a transcription: whether they could be opened and written or not,
/// the run comes to the same state, from the same chunks, with the same entries and checkpoints.
pub proof fn metrics_do_not_matter(
    run: PipelineRunView,
    a: Seq<PipelineEventView>,
    b: Seq<PipelineEventView>,
)
    requires
        run.differ_in_metrics(a, b),
    ensures
        run.after_all(a) == run.after_all(b),
        run.given(a) == run.given(b),
        run.heard(a) == run.heard(b),
        run.written(a) == run.written(b),
        run.saved(a) == run.saved(b),
    decreases a.len(),
{
    if a.len() > 0 {
        let (a0, b0) = (a.drop_last(), b.drop_last());
        metrics_do_not_matter(run, a0, b0);
        let before = run.after_all(a0);
        let next = before.action();
        assert(run.performed(a0).push(next).drop_last() == run.performed(a0));
        assert(run.performed(b0).push(next).drop_last() == run.performed(b0));
    }
}

/// The chunks are numbered one by one, from `first` on.
pub open spec fn numbered_from(spans: Seq<ChunkSpan>, first: int) -> bool {
    forall|k: int| 0 <= k < spans.len() ==> (#[trigger] spans[k]).index == first + k
}

/// The chunk from which a run continues, given the checkpoints of the run before it.
pub open spec fn resumed_from(saved: Seq<Checkpoint>) -> int {
    if saved.len() == 0 {
        0
    } else {
        saved.last().last_chunk + 1
    }
}

/// The number of this chunk is among the entries.
pub open spec fn has_entry(entries: Seq<TranscriptEntryView>, chunk: int) -> bool {
    exists|k: int| 0 <= k < entries.len() && (#[trigger] entries[k]).chunk == chunk
}

/// A run that was cut off anywhere and the run that resumes it leave no gap in the transcript,
/// and repeat nothing but, at most, the one chunk whose entry was written and whose checkpoint
/// was not.
pub proof fn resuming_leaves_no_gap(
    first: PipelineRunView,
    before: Seq<PipelineEventView>,
    second: PipelineRunView,
    after: Seq<PipelineEventView>,
)
    requires
        first.step is OpenDecoder,
        second.step is OpenDecoder,
        numbered_from(first.given(before), 0),
        numbered_from(second.given(after), resumed_from(first.saved(before))),
    ensures
        ({
            let all = first.written(before) + second.written(after);
            let resumed = resumed_from(first.saved(before));
            &&& forall|n: int|
                0 <= n < resumed + second.written(after).len() ==> #[trigger] has_entry(all, n)
            &&& forall|i: int, j: int|
                #![trigger all[i], all[j]]
                0 <= i < j < all.len() && all[i].chunk == all[j].chunk ==> all[i].chunk == resumed
                    && first.written(before).len() == first.saved(before).len() + 1
        }),
{
    every_chunk_is_written_once(first, before);
    every_chunk_is_written_once(second, after);
    let w1 = first.written(before);
    let w2 = second.written(after);
    let saved = first.saved(before);
    let all = w1 + w2;
    let resumed = resumed_from(saved);
    if saved.len() > 0 {
        assert(saved.last().last_chunk == first.given(before)[saved.len() - 1].index);
    }
    assert(resumed == saved.len());
    assert forall|k: int| 0 <= k < w1.len() implies (#[trigger] w1[k]).chunk == k by {
        assert(first.given(before)[k].index == k);
    }
    assert forall|k: int| 0 <= k < w2.len() implies (#[trigger] w2[k]).chunk == resumed + k by {
        assert(second.given(after)[k].index == resumed + k);
    }
    assert forall|n: int| 0 <= n < resumed + w2.len() implies #[trigger] has_entry(all, n) by {
        if n < resumed {
            assert(all[n] == w1[n]);
        } else {
            assert(all[w1.len() + (n - resumed)] == w2[n - resumed]);
        }
    }
    assert forall|i: int, j: int|
        #![trigger all[i], all[j]]
        0 <= i < j < all.len() && all[i].chunk == all[j].chunk implies all[i].chunk == resumed
        && w1.len() == saved.len() + 1 by {
        if j < w1.len() {
            assert(all[i] == w1[i] && all[j] == w1[j]);
        } else if i >= w1.len() {
            assert(all[i] == w2[i - w1.len()] && all[j] == w2[j - w1.len()]);
        } else {
            assert(all[i] == w1[i] && all[j] == w2[j - w1.len()]);
        }
    }
}

/// A run continues one chunk behind its checkpoint, at the moment where that chunk ended.
pub proof fn run_resumes_behind_checkpoint(run: PipelineRunView, checkpoint: Checkpoint)
    requires
        run.step is LoadCheckpoint,
    ensures
        run.after(PipelineEventView::Loaded { checkpoint }).action() == (PipelineActionView::Seek {
            seconds: checkpoint.processed_seconds,
            resume_from_chunk: checkpoint.last_chunk + 1,
        }),
{
}

impl PipelineRunView {
    /// What the model made of the chunks, in order.
    pub open spec fn transcribed(self, events: Seq<PipelineEventView>) -> Seq<ChunkTranscriptionView>
        decreases events.len(),
    {
        if events.len() == 0 {
            Seq::empty()
        } else {
            let earlier = self.transcribed(events.drop_last());
            match events.last() {
                PipelineEventView::Transcribed { transcription, score, whisper_ms } => if
                    self.after_all(events.drop_last()).step is Transcribe {
                    earlier.push(transcription)
                } else {
                    earlier
                },
                _ => earlier,
            }
        }
    }
}

/// The last text of these is the third in a row that says the same.
pub open spec fn third_in_a_row(heard: Seq<Seq<char>>) -> bool {
    &&& heard.len() >= 3
    &&& all_same_from(heard, heard.len() - 3)
}

/// The entry holds the chunk and what the model made of it, field by field; its text is left out
/// where it is the third in a row.
pub open spec fn records(
    entry: TranscriptEntryView,
    span: ChunkSpan,
    t: ChunkTranscriptionView,
    heard: Seq<Seq<char>>,
) -> bool {
    &&& entry.chunk == span.index
    &&& entry.start == span.start_sec
    &&& entry.end == span.end_sec
    &&& entry.avg_logprob == t.avg_logprob
    &&& third_in_a_row(heard) ==> entry.text.len() == 0
    &&& !third_in_a_row(heard) ==> entry.text == t.text
}

/// The metrics hold the chunk and what the model made of it, field by field.
pub open spec fn measures(
    m: ChunkMetrics,
    span: ChunkSpan,
    t: ChunkTranscriptionView,
    heard: Seq<Seq<char>>,
) -> bool {
    &&& m.chunk == span.index
    &&& m.start == span.start_sec
    &&& m.end == span.end_sec
    &&& m.decode_ms == span.decode_ms
    &&& m.text_len == t.text.len() as usize
    &&& m.avg_logprob == t.avg_logprob
    &&& m.no_speech_prob == t.no_speech_prob
    &&& m.entropy == t.entropy
    &&& m.segment_count == t.segment_count
    &&& m.loop_suppressed == third_in_a_row(heard)
}

/// What a state holds of the last chunk.
spec fn holds_last(
    step: PipelineStepView,
    given: Seq<ChunkSpan>,
    ts: Seq<ChunkTranscriptionView>,
    heard: Seq<Seq<char>>,
) -> bool {
    match step {
        PipelineStepView::Append { entry, metrics } => records(
            entry,
            given.last(),
            ts.last(),
            heard,
        ) && measures(metrics, given.last(), ts.last(), heard) && ts.len() == given.len(),
        PipelineStepView::Save { metrics } => measures(metrics, given.last(), ts.last(), heard)
            && ts.len() == given.len(),
        PipelineStepView::AppendMetrics { metrics } => measures(
            metrics,
            given.last(),
            ts.last(),
            heard,
        ) && ts.len() == given.len() && metrics.total_ms == metrics.decode_ms + metrics.whisper_ms
            + metrics.persist_ms,
        PipelineStepView::Transcribe { span } => span == given.last() && ts.len() + 1
            == given.len(),
        PipelineStepView::Failed { reason } => ts.len() <= given.len() <= ts.len() + 1,
        _ => ts.len() == given.len(),
    }
}

/// Every number of a run stays within machine range.
pub open spec fn all_fit(run: PipelineRunView, events: Seq<PipelineEventView>) -> bool {
    forall|i: int|
        0 <= i < events.len() ==> run.after_all(events.take(i)).fits(#[trigger] events[i])
}

#[verifier::rlimit(40)]
proof fn lemma_records(run: PipelineRunView, events: Seq<PipelineEventView>)
    requires
        run.step is OpenDecoder,
        run.breaker == LoopBreakerView::fresh(),
        all_fit(run, events),
    ensures
        ({
            let ts = run.transcribed(events);
            let heard = run.heard(events);
            let given = run.given(events);
            let written = run.written(events);
            &&& heard == ts.map_values(|t: ChunkTranscriptionView| t.text)
            &&& holds_last(run.after_all(events).step, given, ts, heard)
            &&& written.len() <= ts.len() <= given.len()
            &&& forall|k: int|
                0 <= k < written.len() ==> records(
                    #[trigger] written[k],
                    given[k],
                    ts[k],
                    heard.take(k + 1),
                )
        }),
    decreases events.len(),
{
    lemma_breaker_heard(run, events);
    lemma_written(run, events);
    if events.len() > 0 {
        let head = events.drop_last();
        assert(all_fit(run, head)) by {
            assert forall|i: int| 0 <= i < head.len() implies run.after_all(head.take(i)).fits(
                #[trigger] head[i],
            ) by {
                assert(head[i] == events[i]);
                assert(head.take(i) == events.take(i));
            }
        }
        lemma_records(run, head);
        lemma_written(run, head);
        lemma_breaker_heard(run, head);
        let before = run.after_all(head);
        assert(before.fits(events.last())) by {
            assert(events[events.len() - 1] == events.last());
            assert(events.take(events.len() - 1) == head);
        }
        let done = run.performed(head);
        let (ts0, ts) = (run.transcribed(head), run.transcribed(events));
        let (heard0, heard) = (run.heard(head), run.heard(events));
        let (given0, given) = (run.given(head), run.given(events));
        let (written0, written) = (run.written(head), run.written(events));
        if before.answers(events.last()) && !(events.last() is Error) {
            let now = done.push(before.action());
            assert(run.performed(events) == now);
            assert(now.drop_last() == done);
            assert(now.last() == before.action());
        }
        match (before.step, events.last()) {
            (
                PipelineStepView::Transcribe { span },
                PipelineEventView::Transcribed { transcription, score, whisper_ms },
            ) => {
                assert(ts == ts0.push(transcription));
                assert(heard == heard0.push(transcription.text));
                assert(heard =~= ts.map_values(|t: ChunkTranscriptionView| t.text));
                loop_iff_third_in_a_row(heard);
                assert(run.after_all(events).breaker == LoopBreakerView::after_all(heard));
                assert(written == written0);
            },
            _ => {
                assert(ts == ts0);
                assert(heard == heard0);
            },
        }
        assert forall|k: int| 0 <= k < written.len() implies records(
            #[trigger] written[k],
            given[k],
            ts[k],
            heard.take(k + 1),
        ) by {
            if k < written0.len() {
                assert(written[k] == written0[k]);
                assert(records(written0[k], given0[k], ts0[k], heard0.take(k + 1)));
                assert(given[k] == given0[k]);
                assert(ts[k] == ts0[k]);
                assert(heard.take(k + 1) =~= heard0.take(k + 1));
            } else {
                assert(k == written0.len());
                assert(heard.take(k + 1) =~= heard);
            }
        }
    } else {
        assert(run.heard(events) =~= run.transcribed(events).map_values(
            |t: ChunkTranscriptionView| t.text,
        ));
        assert(run.performed(events).len() == 0);
        assert(run.written(events).len() == 0);
    }
}

/// Whatever happens, the `k`-th entry of the transcript records the `k`-th chunk of the decoder
/// and what the model made of it: the number and the times of the chunk, the model's text word for
/// word and its mean log probability. Only a text that is the third in a row is left out.
pub proof fn entries_record_what_the_model_made(
    run: PipelineRunView,
    events: Seq<PipelineEventView>,
)
    requires
        run.step is OpenDecoder,
        run.breaker == LoopBreakerView::fresh(),
        all_fit(run, events),
    ensures
        ({
            let ts = run.transcribed(events);
            let given = run.given(events);
            let written = run.written(events);
            &&& written.len() <= ts.len() <= given.len()
            &&& forall|k: int|
                0 <= k < written.len() ==> {
                    let said = Seq::new((k + 1) as nat, |i: int| ts[i].text);
                    let e = #[trigger] written[k];
                    &&& e.chunk == given[k].index
                    &&& e.start == given[k].start_sec
                    &&& e.end == given[k].end_sec
                    &&& e.avg_logprob == ts[k].avg_logprob
                    &&& e.text == (if third_in_a_row(said) {
                        Seq::empty()
                    } else {
                        ts[k].text
                    })
                }
        }),
{
    lemma_records(run, events);
    let ts = run.transcribed(events);
    let heard = run.heard(events);
    let written = run.written(events);
    assert forall|k: int| 0 <= k < written.len() implies {
        let said = Seq::new((k + 1) as nat, |i: int| ts[i].text);
        let e = #[trigger] written[k];
        &&& e.chunk == run.given(events)[k].index
        &&& e.start == run.given(events)[k].start_sec
        &&& e.end == run.given(events)[k].end_sec
        &&& e.avg_logprob == ts[k].avg_logprob
        &&& e.text == (if third_in_a_row(said) {
            Seq::empty()
        } else {
            ts[k].text
        })
    } by {
        let said = Seq::new((k + 1) as nat, |i: int| ts[i].text);
        assert(said =~= heard.take(k + 1));
        assert(records(written[k], run.given(events)[k], ts[k], heard.take(k + 1)));
        if third_in_a_row(said) {
            assert(written[k].text =~= Seq::empty());
        }
    }
}

/// Metrics that are to be written are those of the last chunk: its number, its times, what the
/// model made of it, and what each stage took, which together is the whole.
pub proof fn metrics_measure_their_own_chunk(
    run: PipelineRunView,
    events: Seq<PipelineEventView>,
    metrics: ChunkMetrics,
)
    requires
        run.step is OpenDecoder,
        run.breaker == LoopBreakerView::fresh(),
        all_fit(run, events),
        run.after_all(events).action() == (PipelineActionView::AppendMetrics { metrics }),
    ensures
        ({
            let span = run.given(events).last();
            let t = run.transcribed(events).last();
            &&& metrics.chunk == span.index
            &&& metrics.start == span.start_sec
            &&& metrics.end == span.end_sec
            &&& metrics.decode_ms == span.decode_ms
            &&& metrics.text_len == t.text.len() as usize
            &&& metrics.avg_logprob == t.avg_logprob
            &&& metrics.no_speech_prob == t.no_speech_prob
            &&& metrics.entropy == t.entropy
            &&& metrics.segment_count == t.segment_count
            &&& metrics.loop_suppressed == third_in_a_row(run.heard(events))
            &&& metrics.total_ms == metrics.decode_ms + metrics.whisper_ms + metrics.persist_ms
        }),
{
    lemma_records(run, events);
}

/// The times that the model and the disk took, and the score of the model, go into the metrics of
/// the chunk they were measured for.
pub proof fn measured_times_are_kept(
    run: PipelineRunView,
    transcription: ChunkTranscriptionView,
    score: Binary32,
    whisper_ms: u64,
    persist_ms: u64,
)
    requires
        run.step is Transcribe,
    ensures
        ({
            let heard = run.after(
                PipelineEventView::Transcribed { transcription, score, whisper_ms },
            );
            let end = heard.after(PipelineEventView::Done).after(
                PipelineEventView::Saved { persist_ms },
            );
            &&& end.action() matches PipelineActionView::AppendMetrics { metrics }
            &&& metrics.whisper_ms == whisper_ms
            &&& metrics.score == score
            &&& metrics.persist_ms == persist_ms
        }),
{
}

/// A run works on the files of its own job: it decodes its audio, adds to its transcript, keeps
/// metrics beside that, and looks at its checkpoint, in this order.
pub proof fn run_works_on_its_own_files(
    audio_path: Seq<char>,
    transcript_path: Seq<char>,
    checkpoint_path: Seq<char>,
)
    ensures
        ({
            let a = PipelineRunView::start(audio_path, transcript_path, checkpoint_path);
            let b = a.after(PipelineEventView::Done);
            let c = b.after(PipelineEventView::Done);
            let d = c.after(PipelineEventView::Done);
            &&& a.action() == (PipelineActionView::OpenDecoder { path: audio_path })
            &&& b.action() == (PipelineActionView::OpenTranscript { path: transcript_path })
            &&& c.action() == (PipelineActionView::OpenMetrics {
                path: paths::with_name(transcript_path, "metrics.jsonl"@),
            })
            &&& d.action() == (PipelineActionView::LoadCheckpoint { path: checkpoint_path })
            &&& a.breaker.repeticiones == 0
        }),
{
}

/// An error anywhere but at the metrics fails the run with its reason, and nothing more is done.
pub proof fn failed_runs_say_why(
    run: PipelineRunView,
    reason: Seq<char>,
    later: PipelineEventView,
)
    requires
        !(run.step is Finished),
        !(run.step is Failed),
        !(run.step is OpenMetrics),
        !(run.step is AppendMetrics),
    ensures
        ({
            let failed = run.after(PipelineEventView::Error { reason });
            &&& failed.action() == (PipelineActionView::Fail { reason })
            &&& failed.after(later).action() == (PipelineActionView::Fail { reason })
        }),
{
}

/// Every event is taken in, unless a number would leave the machine range: the chunk behind the
/// last one there can be, one more repetition than can be counted, or a sum of times that is too
/// large.
pub proof fn runs_take_in_all_but_numbers_out_of_range(
    run: PipelineRunView,
    event: PipelineEventView,
)
    ensures
        !run.fits(event) <==> {
            ||| run.step is LoadCheckpoint && (event matches PipelineEventView::Loaded { checkpoint }
                && checkpoint.last_chunk == usize::MAX)
            ||| run.step is Transcribe && event is Transcribed && run.breaker.repeticiones
                >= u32::MAX
            ||| (run.step matches PipelineStepView::Save { metrics } && (
            event matches PipelineEventView::Saved { persist_ms } && metrics.decode_ms
                + metrics.whisper_ms + persist_ms > u64::MAX))
        },
{
}

/// How a run goes: decoder, transcript, metrics and checkpoint are opened in this order; the audio
/// is sought to where the checkpoint stands, the model is loaded, and then chunk by chunk is
/// transcribed, written, saved and measured, until there are no more chunks. Metrics that cannot be
/// opened or written are done without.
pub proof fn runs_go_step_by_step(
    run: PipelineRunView,
    from: Checkpoint,
    span: ChunkSpan,
    reason: Seq<char>,
    persist_ms: u64,
)
    ensures
        run.action() is OpenDecoder ==> run.after(PipelineEventView::Done).action() == (
        PipelineActionView::OpenTranscript { path: run.transcript_path }),
        run.action() is OpenTranscript ==> run.after(PipelineEventView::Done).action() == (
        PipelineActionView::OpenMetrics { path: run.metrics_path }),
        run.action() is OpenMetrics ==> run.after(PipelineEventView::Done).action() == (
        PipelineActionView::LoadCheckpoint { path: run.checkpoint_path }) && run.after(
            PipelineEventView::Error { reason },
        ).action() == (PipelineActionView::LoadCheckpoint { path: run.checkpoint_path }),
        run.action() is LoadCheckpoint ==> run.after(
            PipelineEventView::Loaded { checkpoint: from },
        ).action() == (PipelineActionView::Seek {
            seconds: from.processed_seconds,
            resume_from_chunk: from.last_chunk + 1,
        }),
        run.action() is Seek ==> run.after(PipelineEventView::Done).action() is LoadModel,
        run.action() is LoadModel ==> run.after(PipelineEventView::Done).action() is NextChunk,
        run.action() is NextChunk ==> run.after(PipelineEventView::NoMoreChunks).action()
            is Finish,
        run.action() is NextChunk ==> run.after(PipelineEventView::Chunk { span }).action() == (
        PipelineActionView::Transcribe { force_fresh_context: run.breaker.repeticiones >= 3 }),
        run.action() is Append ==> run.after(PipelineEventView::Done).action() is Save,
        run.action() is Save ==> run.after(PipelineEventView::Saved { persist_ms }).action()
            is AppendMetrics,
        run.action() is AppendMetrics ==> run.after(PipelineEventView::Done).action() is NextChunk
            && run.after(PipelineEventView::Error { reason }).action() is NextChunk,
{
}

} // verus!
