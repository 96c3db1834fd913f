//! Summaries of long transcripts: batch by batch, then one of the batches.
use crate::audio_pipeline::models::{TranscriptEntry, TranscriptEntryView};
use crate::config::RagConfig;
use crate::rag::generation::{ChatRequest, ChatRequestView};
use crate::text;
use vstd::prelude::*;
use vstd::string::*;

verus! {

/// Chunks in one batch at most, unless configured otherwise.
pub const BATCH_MAX_CHUNKS: usize = 50;

/// Characters in one batch of several chunks at most, unless configured otherwise.
pub const BATCH_MAX_CHARS: usize = 12_000;

/// What is said of a recording without speech.
pub const NO_SPEECH_MESSAGE: &'static str = "No se detectó contenido hablado para resumir.";

pub open spec fn entries_view(v: Seq<TranscriptEntry>) -> Seq<TranscriptEntryView> {
    v.map_values(|e: TranscriptEntry| e@)
}

/// The texts of the entries that say something, trimmed, in order.
pub open spec fn spoken(entries: Seq<TranscriptEntryView>) -> Seq<Seq<char>>
    decreases entries.len(),
{
    if entries.len() == 0 {
        Seq::empty()
    } else if text::trimmed(entries.last().text).len() == 0 {
        spoken(entries.drop_last())
    } else {
        spoken(entries.drop_last()).push(text::trimmed(entries.last().text))
    }
}

/// Text `k` still joins the texts before it in one batch: with the space between them, the batch
/// keeps the limits.
pub open spec fn joins(texts: Seq<Seq<char>>, k: int, max_chunks: int, max_chars: int) -> bool {
    &&& k < max_chunks
    &&& text::join(texts.take(k), " "@).len() + 1 + texts[k].len() <= max_chars
}

/// How many texts the first batch takes, when it has `k` already: as many as join it.
pub open spec fn batch_size(
    texts: Seq<Seq<char>>,
    k: int,
    max_chunks: int,
    max_chars: int,
) -> int
    decreases texts.len() - k,
{
    if k < texts.len() && joins(texts, k, max_chunks, max_chars) {
        batch_size(texts, k + 1, max_chunks, max_chars)
    } else {
        k
    }
}

/// The texts in batches, each filled before the next is begun, with a space between texts.
pub open spec fn batches_of(
    texts: Seq<Seq<char>>,
    max_chunks: int,
    max_chars: int,
) -> Seq<Seq<char>>
    decreases texts.len(),
    via batches_of_decreases
{
    if texts.len() == 0 {
        Seq::empty()
    } else {
        let n = batch_size(texts, 1, max_chunks, max_chars);
        seq![text::join(texts.take(n), " "@)] + batches_of(texts.skip(n), max_chunks, max_chars)
    }
}

#[via_fn]
proof fn batches_of_decreases(texts: Seq<Seq<char>>, max_chunks: int, max_chars: int) {
    if texts.len() > 0 {
        lemma_batch_size(texts, 1, max_chunks, max_chars);
    }
}

proof fn lemma_batch_size(texts: Seq<Seq<char>>, k: int, max_chunks: int, max_chars: int)
    requires
        0 <= k <= texts.len(),
    ensures
        k <= batch_size(texts, k, max_chunks, max_chars) <= texts.len(),
        forall|j: int|
            k <= j < batch_size(texts, k, max_chunks, max_chars) ==> #[trigger] joins(
                texts,
                j,
                max_chunks,
                max_chars,
            ),
    decreases texts.len() - k,
{
    if k < texts.len() && joins(texts, k, max_chunks, max_chars) {
        lemma_batch_size(texts, k + 1, max_chunks, max_chars);
    }
}

/// The texts of the entries that say something.
fn spoken_texts(entries: &Vec<TranscriptEntry>) -> (r: Vec<String>)
    ensures
        text::texts(r@) == spoken(entries_view(entries@)),
{
    let ghost all = entries_view(entries@);
    let mut out: Vec<String> = Vec::new();
    let mut i: usize = 0;
    assert(all.take(0) == Seq::<TranscriptEntryView>::empty());
    assert(text::texts(out@) == spoken(all.take(0)));
    while i < entries.len()
        invariant
            i <= entries@.len(),
            all == entries_view(entries@),
            text::texts(out@) == spoken(all.take(i as int)),
        decreases entries@.len() - i,
    {
        assert(all.take(i + 1).drop_last() == all.take(i as int));
        assert(all.take(i + 1).last() == entries@[i as int]@);
        let t = text::trim(entries[i].text.as_str());
        let ghost before = text::texts(out@);
        if !t.is_empty() {
            out.push(t.to_owned());
            assert(text::texts(out@) == before.push(t@));
        }
        i = i + 1;
    }
    assert(all.take(i as int) == all);
    out
}

/// The entries in batches of at most `max_chunks` texts and `max_chars` characters; a text that is
/// longer by itself makes a batch of its own.
pub fn batches_within(entries: &Vec<TranscriptEntry>, max_chunks: usize, max_chars: usize) -> (r:
    Vec<String>)
    ensures
        text::texts(r@) == batches_of(
            spoken(entries_view(entries@)),
            max_chunks as int,
            max_chars as int,
        ),
{
    let pieces = spoken_texts(entries);
    let ghost all = text::texts(pieces@);
    let n: usize = pieces.len();
    let mut out: Vec<String> = Vec::new();
    let mut i: usize = 0;
    assert(all.skip(0) == all);
    assert(text::texts(out@) + batches_of(all, max_chunks as int, max_chars as int) == batches_of(
        all,
        max_chunks as int,
        max_chars as int,
    ));
    while i < n
        invariant
            n == pieces@.len(),
            all == text::texts(pieces@),
            i <= n,
            text::texts(out@) + batches_of(
                all.skip(i as int),
                max_chunks as int,
                max_chars as int,
            ) == batches_of(all, max_chunks as int, max_chars as int),
        decreases n - i,
    {
        let ghost rest = all.skip(i as int);
        let mut current = pieces[i].clone();
        let mut k: usize = 1;
        assert(rest.take(1) == seq![pieces@[i as int]@]);
        while i + k < n && k < max_chunks && current.as_str().unicode_len() as u128 + 1
            + pieces[i + k].as_str().unicode_len() as u128 <= max_chars as u128
            invariant
                n == pieces@.len(),
                all == text::texts(pieces@),
                rest == all.skip(i as int),
                i < n,
                1 <= k <= n - i,
                current@ == text::join(rest.take(k as int), " "@),
                batch_size(rest, 1, max_chunks as int, max_chars as int) == batch_size(
                    rest,
                    k as int,
                    max_chunks as int,
                    max_chars as int,
                ),
            decreases n - i - k,
        {
            assert(rest[k as int] == pieces@[i + k]@);
            assert(joins(rest, k as int, max_chunks as int, max_chars as int));
            current.push_str(" ");
            current.push_str(pieces[i + k].as_str());
            assert(rest.take(k + 1).drop_last() == rest.take(k as int));
            assert(rest.take(k + 1).last() == rest[k as int]);
            k = k + 1;
        }
        proof {
            if i + k < n {
                assert(rest[k as int] == pieces@[i + k]@);
                assert(!joins(rest, k as int, max_chunks as int, max_chars as int));
            }
            assert(batch_size(rest, 1, max_chunks as int, max_chars as int) == k);
            assert(rest.skip(k as int) == all.skip(i + k));
        }
        let ghost before = text::texts(out@);
        out.push(current);
        assert(text::texts(out@) == before + seq![current@]);
        assert(before + (seq![current@] + batches_of(
            all.skip(i + k),
            max_chunks as int,
            max_chars as int,
        )) == (before + seq![current@]) + batches_of(
            all.skip(i + k),
            max_chunks as int,
            max_chars as int,
        ));
        i = i + k;
    }
    assert(all.skip(i as int).len() == 0);
    out
}

/// The entries in batches, with the usual limits.
pub fn build_batches(entries: Vec<TranscriptEntry>) -> (r: Vec<String>)
    ensures
        text::texts(r@) == batches_of(
            spoken(entries_view(entries@)),
            BATCH_MAX_CHUNKS as int,
            BATCH_MAX_CHARS as int,
        ),
{
    batches_within(&entries, BATCH_MAX_CHUNKS, BATCH_MAX_CHARS)
}

/// Batches lose nothing and change no order: one behind the other, with a space between, they
/// are the texts one behind the other, with a space between.
pub proof fn batches_keep_everything(texts: Seq<Seq<char>>, max_chunks: int, max_chars: int)
    ensures
        text::join(batches_of(texts, max_chunks, max_chars), " "@) == text::join(texts, " "@),
        batches_of(texts, max_chunks, max_chars).len() == 0 <==> texts.len() == 0,
    decreases texts.len(),
{
    if texts.len() > 0 {
        lemma_batch_size(texts, 1, max_chunks, max_chars);
        let n = batch_size(texts, 1, max_chunks, max_chars);
        let first = text::join(texts.take(n), " "@);
        let rest = batches_of(texts.skip(n), max_chunks, max_chars);
        batches_keep_everything(texts.skip(n), max_chunks, max_chars);
        assert(texts.take(n) + texts.skip(n) == texts);
        if rest.len() > 0 {
            text::join_of_two(seq![first], rest, " "@);
            text::join_of_two(texts.take(n), texts.skip(n), " "@);
        } else {
            assert(texts.take(n) == texts);
            assert(seq![first] + rest == seq![first]);
        }
    }
}

/// A run of consecutive texts that makes a batch, within the limits: at most `max_chunks` texts
/// (where that is at least one), and at most `max_chars` characters unless it is a single text,
/// which is never cut.
pub open spec fn is_batch(
    batch: Seq<char>,
    group: Seq<Seq<char>>,
    max_chunks: int,
    max_chars: int,
) -> bool {
    &&& batch == text::join(group, " "@)
    &&& group.len() >= 1
    &&& group.len() == 1 || group.len() <= max_chunks
    &&& group.len() == 1 || batch.len() <= max_chars
}

/// Every batch keeps the limits.
pub proof fn batches_keep_limits(texts: Seq<Seq<char>>, max_chunks: int, max_chars: int, i: int)
    requires
        0 <= i < batches_of(texts, max_chunks, max_chars).len(),
    ensures
        exists|from: int, to: int|
            0 <= from < to <= texts.len() && #[trigger] is_batch(
                batches_of(texts, max_chunks, max_chars)[i],
                texts.subrange(from, to),
                max_chunks,
                max_chars,
            ),
    decreases texts.len(),
{
    let all = batches_of(texts, max_chunks, max_chars);
    lemma_batch_size(texts, 1, max_chunks, max_chars);
    let n = batch_size(texts, 1, max_chunks, max_chars);
    let rest = batches_of(texts.skip(n), max_chunks, max_chars);
    if i == 0 {
        let group = texts.subrange(0, n);
        assert(group == texts.take(n));
        if n > 1 {
            assert(joins(texts, n - 1, max_chunks, max_chars));
            let head = texts.take(n - 1);
            assert(group.drop_last() == head);
            assert(group.last() == texts[n - 1]);
            reveal_strlit(" ");
        }
        assert(is_batch(all[0], texts.subrange(0, n), max_chunks, max_chars));
    } else {
        assert(all[i] == rest[i - 1]);
        batches_keep_limits(texts.skip(n), max_chunks, max_chars, i - 1);
        let (f, t) = choose|f: int, t: int|
            0 <= f < t <= texts.skip(n).len() && #[trigger] is_batch(
                rest[i - 1],
                texts.skip(n).subrange(f, t),
                max_chunks,
                max_chars,
            );
        assert(texts.skip(n).subrange(f, t) == texts.subrange(n + f, n + t));
        assert(is_batch(all[i], texts.subrange(n + f, n + t), max_chunks, max_chars));
    }
}

/// What the model is asked for one batch.
pub open spec fn batch_prompt(batch: Seq<char>) -> Seq<char> {
    "Resumí brevemente, en español, el contenido de este fragmento de una reunión grabada por teléfono (puede tener habla superpuesta y ruido de fondo). Enfocate en decisiones, temas tratados y datos concretos (números, fechas, nombres). No inventes información que no esté en el texto.\n\nFragmento:\n"@
        + batch
}

/// What the model is asked for all batches together.
pub open spec fn consolidation_prompt(summaries: Seq<Seq<char>>) -> Seq<char> {
    "A continuación tenés varios resúmenes parciales de una misma reunión, en orden cronológico. Consolidalos en un solo resumen coherente y breve (2-4 párrafos), en español, sin repetir información entre secciones.\n\nResúmenes parciales:\n"@
        + text::join(summaries, "\n\n"@)
}

/// How far a summary has come.
#[derive(Debug)]
pub enum SummaryStep {
    /// Summarize the next batch.
    Batch,
    /// Make one summary of those of the batches.
    Consolidate,
    Finished { text: String },
    Failed { reason: String },
}

/// `SummaryStep` with texts by their characters.
#[verifier::ext_equal]
pub enum SummaryStepView {
    Batch,
    Consolidate,
    Finished { text: Seq<char> },
    Failed { reason: Seq<char> },
}

impl View for SummaryStep {
    type V = SummaryStepView;

    open spec fn view(&self) -> SummaryStepView {
        match *self {
            SummaryStep::Batch => SummaryStepView::Batch,
            SummaryStep::Consolidate => SummaryStepView::Consolidate,
            SummaryStep::Finished { text } => SummaryStepView::Finished { text: text@ },
            SummaryStep::Failed { reason } => SummaryStepView::Failed { reason: reason@ },
        }
    }
}

/// What is to be done next.
#[derive(Debug)]
pub enum SummaryAction {
    Chat { request: ChatRequest },
    Finish { text: String },
    Fail { reason: String },
}

/// `SummaryAction` with texts by their characters.
#[verifier::ext_equal]
pub enum SummaryActionView {
    Chat { request: ChatRequestView },
    Finish { text: Seq<char> },
    Fail { reason: Seq<char> },
}

impl View for SummaryAction {
    type V = SummaryActionView;

    open spec fn view(&self) -> SummaryActionView {
        match *self {
            SummaryAction::Chat { request } => SummaryActionView::Chat { request: request@ },
            SummaryAction::Finish { text } => SummaryActionView::Finish { text: text@ },
            SummaryAction::Fail { reason } => SummaryActionView::Fail { reason: reason@ },
        }
    }
}

/// What the model answered.
#[derive(Debug)]
pub enum SummaryEvent {
    Reply { text: String },
    Error { reason: String },
}

/// `SummaryEvent` with texts by their characters.
#[verifier::ext_equal]
pub enum SummaryEventView {
    Reply { text: Seq<char> },
    Error { reason: Seq<char> },
}

impl View for SummaryEvent {
    type V = SummaryEventView;

    open spec fn view(&self) -> SummaryEventView {
        match *self {
            SummaryEvent::Reply { text } => SummaryEventView::Reply { text: text@ },
            SummaryEvent::Error { reason } => SummaryEventView::Error { reason: reason@ },
        }
    }
}

/// The making of one summary.
#[derive(Debug)]
pub struct SummaryGeneration {
    pub model: String,
    pub num_ctx: u64,
    pub batch_num_predict: i32,
    pub consolidation_num_predict: i32,
    pub batches: Vec<String>,
    pub summaries: Vec<String>,
    pub step: SummaryStep,
}

/// `SummaryGeneration` with texts by their characters.
#[verifier::ext_equal]
pub struct SummaryGenerationView {
    pub model: Seq<char>,
    pub num_ctx: u64,
    pub batch_num_predict: i32,
    pub consolidation_num_predict: i32,
    pub batches: Seq<Seq<char>>,
    pub summaries: Seq<Seq<char>>,
    pub step: SummaryStepView,
}

impl View for SummaryGeneration {
    type V = SummaryGenerationView;

    open spec fn view(&self) -> SummaryGenerationView {
        SummaryGenerationView {
            model: self.model@,
            num_ctx: self.num_ctx,
            batch_num_predict: self.batch_num_predict,
            consolidation_num_predict: self.consolidation_num_predict,
            batches: text::texts(self.batches@),
            summaries: text::texts(self.summaries@),
            step: self.step@,
        }
    }
}

impl SummaryGenerationView {
    /// While batches are summarized, one is left; the consolidation has all of them.
    pub open spec fn wf(self) -> bool {
        &&& self.step is Batch ==> self.summaries.len() < self.batches.len()
        &&& self.step is Consolidate ==> self.summaries.len() == self.batches.len()
            && self.batches.len() > 1
    }

    /// What is to be done in this state.
    pub open spec fn action(self) -> SummaryActionView {
        match self.step {
            SummaryStepView::Batch => SummaryActionView::Chat {
                request: ChatRequestView {
                    model: self.model,
                    system: None,
                    user: batch_prompt(self.batches[self.summaries.len() as int]),
                    num_ctx: self.num_ctx,
                    num_predict: Some(self.batch_num_predict),
                    unload: self.batches.len() == 1,
                },
            },
            SummaryStepView::Consolidate => SummaryActionView::Chat {
                request: ChatRequestView {
                    model: self.model,
                    system: None,
                    user: consolidation_prompt(self.summaries),
                    num_ctx: self.num_ctx,
                    num_predict: Some(self.consolidation_num_predict),
                    unload: true,
                },
            },
            SummaryStepView::Finished { text } => SummaryActionView::Finish { text },
            SummaryStepView::Failed { reason } => SummaryActionView::Fail { reason },
        }
    }

    /// The state after the answer.
    pub open spec fn after(self, event: SummaryEventView) -> SummaryGenerationView {
        match (self.step, event) {
            (SummaryStepView::Finished { text }, _) => self,
            (SummaryStepView::Failed { reason }, _) => self,
            (_, SummaryEventView::Error { reason }) => SummaryGenerationView {
                step: SummaryStepView::Failed { reason },
                ..self
            },
            (SummaryStepView::Batch, SummaryEventView::Reply { text }) => if self.batches.len()
                == 1 {
                SummaryGenerationView { step: SummaryStepView::Finished { text }, ..self }
            } else {
                SummaryGenerationView {
                    summaries: self.summaries.push(text),
                    step: if self.summaries.len() + 1 == self.batches.len() {
                        SummaryStepView::Consolidate
                    } else {
                        SummaryStepView::Batch
                    },
                    ..self
                }
            },
            (SummaryStepView::Consolidate, SummaryEventView::Reply { text }) => SummaryGenerationView {
                step: SummaryStepView::Finished { text },
                ..self
            },
        }
    }

    /// The state after all these answers.
    pub open spec fn after_all(self, replies: Seq<Seq<char>>) -> SummaryGenerationView
        decreases replies.len(),
    {
        if replies.len() == 0 {
            self
        } else {
            self.after_all(replies.drop_last()).after(
                SummaryEventView::Reply { text: replies.last() },
            )
        }
    }
}

/// The start of a summary of these entries.
pub open spec fn generation_of(entries: Seq<TranscriptEntryView>, rag: RagConfig) -> SummaryGenerationView {
    let batches = batches_of(
        spoken(entries),
        rag.batch_max_chunks as int,
        rag.batch_max_chars as int,
    );
    SummaryGenerationView {
        model: rag.generation_model@,
        num_ctx: rag.batch_num_ctx,
        batch_num_predict: rag.batch_num_predict,
        consolidation_num_predict: rag.consolidation_num_predict,
        batches,
        summaries: Seq::empty(),
        step: if batches.len() == 0 {
            SummaryStepView::Finished { text: NO_SPEECH_MESSAGE@ }
        } else {
            SummaryStepView::Batch
        },
    }
}

/// Starts the summary of a transcript. Without speech it is finished at once.
pub fn generate_summary(entries: &Vec<TranscriptEntry>, rag: &RagConfig) -> (r: SummaryGeneration)
    ensures
        r@ == generation_of(entries_view(entries@), *rag),
        r@.wf(),
{
    let batches = batches_within(entries, rag.batch_max_chunks, rag.batch_max_chars);
    let step = if batches.len() == 0 {
        SummaryStep::Finished { text: NO_SPEECH_MESSAGE.to_owned() }
    } else {
        SummaryStep::Batch
    };
    let r = SummaryGeneration {
        model: rag.generation_model.clone(),
        num_ctx: rag.batch_num_ctx,
        batch_num_predict: rag.batch_num_predict,
        consolidation_num_predict: rag.consolidation_num_predict,
        batches,
        summaries: Vec::new(),
        step,
    };
    assert(text::texts(r.summaries@) =~= Seq::<Seq<char>>::empty());
    assert(text::texts(r.batches@).len() == r.batches@.len());
    r
}

impl SummaryGeneration {
    /// The call for one batch.
    fn summarize_batch(&self, batch_text: &str, is_last_call: bool) -> (r: ChatRequest)
        ensures
            r@ == (ChatRequestView {
                model: self@.model,
                system: None,
                user: batch_prompt(batch_text@),
                num_ctx: self@.num_ctx,
                num_predict: Some(self@.batch_num_predict),
                unload: is_last_call,
            }),
    {
        let mut user = "Resumí brevemente, en español, el contenido de este fragmento de una reunión grabada por teléfono (puede tener habla superpuesta y ruido de fondo). Enfocate en decisiones, temas tratados y datos concretos (números, fechas, nombres). No inventes información que no esté en el texto.\n\nFragmento:\n".to_owned();
        user.push_str(batch_text);
        ChatRequest {
            model: self.model.clone(),
            system: None,
            user,
            num_ctx: self.num_ctx,
            num_predict: Some(self.batch_num_predict),
            unload: is_last_call,
        }
    }

    /// The call for all batches together.
    fn consolidate_summaries(&self) -> (r: ChatRequest)
        ensures
            r@ == (ChatRequestView {
                model: self@.model,
                system: None,
                user: consolidation_prompt(self@.summaries),
                num_ctx: self@.num_ctx,
                num_predict: Some(self@.consolidation_num_predict),
                unload: true,
            }),
    {
        let joined = text::join_texts(&self.summaries, "\n\n");
        let mut user = "A continuación tenés varios resúmenes parciales de una misma reunión, en orden cronológico. Consolidalos en un solo resumen coherente y breve (2-4 párrafos), en español, sin repetir información entre secciones.\n\nResúmenes parciales:\n".to_owned();
        user.push_str(joined.as_str());
        ChatRequest {
            model: self.model.clone(),
            system: None,
            user,
            num_ctx: self.num_ctx,
            num_predict: Some(self.consolidation_num_predict),
            unload: true,
        }
    }

    /// What is to be done next.
    pub fn action(&self) -> (r: SummaryAction)
        requires
            self@.wf(),
        ensures
            r@ == self@.action(),
            self.step is Batch ==> {
                &&& r matches SummaryAction::Chat { request }
                &&& request.user@.skip(
                    request.user@.len() - self.batches@[self.summaries@.len() as int]@.len(),
                ) == self.batches@[self.summaries@.len() as int]@
                &&& request.model@ == self.model@
                &&& request.num_ctx == self.num_ctx
                &&& request.num_predict == Some(self.batch_num_predict)
            },
            self.step matches SummaryStep::Finished { text } ==> (r matches SummaryAction::Finish {
                text: said,
            } && said@ == text@),
    {
        proof {
            if self.step is Batch {
                let batch = self.batches@[self.summaries@.len() as int]@;
                let user = batch_prompt(batch);
                assert(user.skip(user.len() - batch.len()) =~= batch);
            }
        }
        assert(text::texts(self.batches@).len() == self.batches@.len());
        assert(text::texts(self.summaries@).len() == self.summaries@.len());
        match &self.step {
            SummaryStep::Batch => {
                let i: usize = self.summaries.len();
                assert(text::texts(self.batches@)[i as int] == self.batches@[i as int]@);
                let request = self.summarize_batch(
                    self.batches[i].as_str(),
                    self.batches.len() == 1,
                );
                SummaryAction::Chat { request }
            },
            SummaryStep::Consolidate => SummaryAction::Chat {
                request: self.consolidate_summaries(),
            },
            SummaryStep::Finished { text } => SummaryAction::Finish { text: text.clone() },
            SummaryStep::Failed { reason } => SummaryAction::Fail { reason: reason.clone() },
        }
    }

    /// Takes in the answer.
    pub fn advance(&mut self, event: SummaryEvent)
        requires
            old(self)@.wf(),
        ensures
            final(self)@ == old(self)@.after(event@),
            final(self)@.wf(),
    {
        let ghost start = self@;
        assert(text::texts(self.batches@).len() == self.batches@.len());
        assert(text::texts(self.summaries@).len() == self.summaries@.len());
        let mut step = SummaryStep::Batch;
        std::mem::swap(&mut step, &mut self.step);
        let next = match (step, event) {
            (SummaryStep::Finished { text }, _) => SummaryStep::Finished { text },
            (SummaryStep::Failed { reason }, _) => SummaryStep::Failed { reason },
            (_, SummaryEvent::Error { reason }) => SummaryStep::Failed { reason },
            (SummaryStep::Batch, SummaryEvent::Reply { text }) => {
                if self.batches.len() == 1 {
                    SummaryStep::Finished { text }
                } else {
                    let ghost before = text::texts(self.summaries@);
                    self.summaries.push(text);
                    assert(text::texts(self.summaries@) =~= before.push(text@));
                    if self.summaries.len() == self.batches.len() {
                        SummaryStep::Consolidate
                    } else {
                        SummaryStep::Batch
                    }
                }
            },
            (SummaryStep::Consolidate, SummaryEvent::Reply { text }) => SummaryStep::Finished {
                text,
            },
        };
        self.step = next;
        assert(self@ == start.after(event@));
    }
}

/// The model is freed with the last call and with no other: a call frees it exactly when its
/// answer finishes the summary.
pub proof fn model_is_freed_by_the_last_call(g: SummaryGenerationView, reply: Seq<char>)
    requires
        g.wf(),
    ensures
        g.action() matches SummaryActionView::Chat { request } ==> request.unload == (g.after(
            SummaryEventView::Reply { text: reply },
        ).step is Finished),
{
}

/// A transcript without speech costs no call and has a fixed summary.
pub proof fn silence_costs_no_call(entries: Seq<TranscriptEntryView>, rag: RagConfig)
    requires
        spoken(entries).len() == 0,
    ensures
        generation_of(entries, rag).action() == (SummaryActionView::Finish {
            text: NO_SPEECH_MESSAGE@,
        }),
{
}

/// Several batches take one call each, in order, and one more over all their summaries, whose
/// answer is the summary.
pub proof fn batches_are_summarized_in_order(g: SummaryGenerationView, replies: Seq<Seq<char>>)
    requires
        g.step is Batch,
        g.summaries.len() == 0,
        g.batches.len() > 1,
        replies.len() <= g.batches.len() + 1,
    ensures
        ({
            let now = g.after_all(replies);
            let n = replies.len() as int;
            let m = g.batches.len() as int;
            &&& now.batches == g.batches
            &&& n < m ==> now.step is Batch && now.summaries == replies && now.wf()
            &&& n == m ==> now.step is Consolidate && now.summaries == replies
            &&& n == m + 1 ==> now.step == (SummaryStepView::Finished { text: replies.last() })
                && now.summaries == replies.drop_last()
        }),
    decreases replies.len(),
{
    if replies.len() > 0 {
        let head = replies.drop_last();
        batches_are_summarized_in_order(g, head);
        assert(head.push(replies.last()) == replies);
    } else {
        assert(g.summaries == replies);
    }
}

/// One batch takes one call, whose answer is the summary.
pub proof fn one_batch_takes_one_call(g: SummaryGenerationView, reply: Seq<char>)
    requires
        g.step is Batch,
        g.batches.len() == 1,
    ensures
        g.after(SummaryEventView::Reply { text: reply }).step == (SummaryStepView::Finished {
            text: reply,
        }),
{
}

/// What is summarized is what every entry says, in order, each taken by itself: an entry that is
/// blank adds nothing, any other its text without the white space around it.
pub proof fn every_entry_is_summarized(a: Seq<TranscriptEntryView>, b: Seq<TranscriptEntryView>)
    ensures
        spoken(a + b) == spoken(a) + spoken(b),
        forall|e: TranscriptEntryView| #[trigger]
            spoken(seq![e]) == (if text::is_blank(e.text) {
                Seq::<Seq<char>>::empty()
            } else {
                seq![text::trimmed(e.text)]
            }),
    decreases b.len(),
{
    assert forall|e: TranscriptEntryView| #[trigger]
        spoken(seq![e]) == (if text::is_blank(e.text) {
            Seq::<Seq<char>>::empty()
        } else {
            seq![text::trimmed(e.text)]
        }) by {
        text::trimmed_is_empty_iff_blank(e.text);
        assert(seq![e].drop_last() =~= Seq::<TranscriptEntryView>::empty());
        assert(seq![e].last() == e);
        assert(spoken(seq![e].drop_last()).len() == 0);
    }
    if b.len() == 0 {
        assert(a + b == a);
        assert(spoken(a) + spoken(b) == spoken(a));
    } else {
        every_entry_is_summarized(a, b.drop_last());
        assert((a + b).drop_last() == a + b.drop_last());
        assert((a + b).last() == b.last());
    }
}

/// Over a whole run, the model is asked about every batch, each once and in order: with `k`
/// batches answered, the next request holds batch `k` behind its instructions; with all of them
/// answered and more than one, it holds all the answers, in order; and the last answer is the
/// summary. The batches together are all that was said, so all of it reaches the model.
pub proof fn every_batch_reaches_the_model(
    entries: Seq<TranscriptEntryView>,
    rag: RagConfig,
    replies: Seq<Seq<char>>,
)
    ensures
        ({
            let g = generation_of(entries, rag);
            let m = g.batches.len() as int;
            let k = replies.len() as int;
            let next = g.after_all(replies).action();
            &&& text::join(g.batches, " "@) == text::join(spoken(entries), " "@)
            &&& m == 0 <==> spoken(entries).len() == 0
            &&& k < m ==> {
                &&& next matches SummaryActionView::Chat { request }
                &&& request.user
                    == "Resumí brevemente, en español, el contenido de este fragmento de una reunión grabada por teléfono (puede tener habla superpuesta y ruido de fondo). Enfocate en decisiones, temas tratados y datos concretos (números, fechas, nombres). No inventes información que no esté en el texto.\n\nFragmento:\n"@
                    + g.batches[k]
                &&& request.system is None
                &&& request.model == rag.generation_model@
                &&& request.num_ctx == rag.batch_num_ctx
                &&& request.num_predict == Some(rag.batch_num_predict)
                &&& request.unload <==> m == 1
            }
            &&& k == m && m > 1 ==> {
                &&& next matches SummaryActionView::Chat { request }
                &&& request.user
                    == "A continuación tenés varios resúmenes parciales de una misma reunión, en orden cronológico. Consolidalos en un solo resumen coherente y breve (2-4 párrafos), en español, sin repetir información entre secciones.\n\nResúmenes parciales:\n"@
                    + text::join(replies, "\n\n"@)
                &&& request.system is None
                &&& request.model == rag.generation_model@
                &&& request.num_ctx == rag.batch_num_ctx
                &&& request.num_predict == Some(rag.consolidation_num_predict)
                &&& request.unload
            }
            &&& (k == m + 1 && m > 1) || (k == 1 && m == 1) ==> next == (
            SummaryActionView::Finish { text: replies.last() })
            &&& m == 0 ==> next == (SummaryActionView::Finish {
                text: "No se detectó contenido hablado para resumir."@,
            })
        }),
{
    let g = generation_of(entries, rag);
    let m = g.batches.len() as int;
    batches_keep_everything(
        spoken(entries),
        rag.batch_max_chunks as int,
        rag.batch_max_chars as int,
    );
    lemma_settings_stay(g, replies);
    if m > 1 && replies.len() <= m + 1 {
        batches_are_summarized_in_order(g, replies);
    } else if m == 1 {
        if replies.len() == 1 {
            assert(replies.drop_last().len() == 0);
            assert(g.after_all(replies.drop_last()) == g);
        }
    } else if m == 0 {
        lemma_finished_stays(g, replies);
    }
}

/// The batches and the settings of a summary never change.
proof fn lemma_settings_stay(g: SummaryGenerationView, replies: Seq<Seq<char>>)
    ensures
        ({
            let now = g.after_all(replies);
            &&& now.batches == g.batches
            &&& now.model == g.model
            &&& now.num_ctx == g.num_ctx
            &&& now.batch_num_predict == g.batch_num_predict
            &&& now.consolidation_num_predict == g.consolidation_num_predict
        }),
    decreases replies.len(),
{
    if replies.len() > 0 {
        lemma_settings_stay(g, replies.drop_last());
    }
}

proof fn lemma_finished_stays(g: SummaryGenerationView, replies: Seq<Seq<char>>)
    requires
        g.step is Finished,
    ensures
        g.after_all(replies) == g,
    decreases replies.len(),
{
    if replies.len() > 0 {
        lemma_finished_stays(g, replies.drop_last());
    }
}

/// A call that fails ends the summary with its reason: nothing more is asked, and no answer is
/// taken for the summary.
pub proof fn failed_calls_end_the_summary(
    g: SummaryGenerationView,
    reason: Seq<char>,
    later: SummaryEventView,
)
    requires
        g.step is Batch || g.step is Consolidate,
    ensures
        ({
            let failed = g.after(SummaryEventView::Error { reason });
            &&& failed.action() == (SummaryActionView::Fail { reason })
            &&& failed.after(later).action() == (SummaryActionView::Fail { reason })
        }),
{
}

/// A batch that another follows is full: it has all the texts it may have, or the next text would
/// not fit into it.
pub proof fn batches_are_filled_before_the_next(
    texts: Seq<Seq<char>>,
    max_chunks: int,
    max_chars: int,
    i: int,
)
    requires
        0 <= i < batches_of(texts, max_chunks, max_chars).len() - 1,
    ensures
        exists|from: int, to: int|
            #![trigger texts.subrange(from, to)]
            0 <= from < to < texts.len() && batches_of(texts, max_chunks, max_chars)[i]
                == text::join(texts.subrange(from, to), " "@) && (to - from >= max_chunks
                || text::join(texts.subrange(from, to), " "@).len() + 1 + texts[to].len()
                > max_chars),
    decreases texts.len(),
{
    let all = batches_of(texts, max_chunks, max_chars);
    lemma_batch_size(texts, 1, max_chunks, max_chars);
    let n = batch_size(texts, 1, max_chunks, max_chars);
    let rest = batches_of(texts.skip(n), max_chunks, max_chars);
    if i == 0 {
        assert(rest.len() > 0);
        assert(n < texts.len());
        lemma_batch_stops(texts, 1, max_chunks, max_chars);
        assert(texts.subrange(0, n) == texts.take(n));
    } else {
        assert(all[i] == rest[i - 1]);
        batches_are_filled_before_the_next(texts.skip(n), max_chunks, max_chars, i - 1);
        let later = texts.skip(n);
        let (f, t) = choose|f: int, t: int|
            #![trigger later.subrange(f, t)]
            0 <= f < t < later.len() && rest[i - 1] == text::join(later.subrange(f, t), " "@) && (t
                - f >= max_chunks || text::join(later.subrange(f, t), " "@).len() + 1
                + later[t].len() > max_chars);
        assert(later.subrange(f, t) == texts.subrange(n + f, n + t));
    }
}

proof fn lemma_batch_stops(texts: Seq<Seq<char>>, k: int, max_chunks: int, max_chars: int)
    requires
        0 <= k <= texts.len(),
    ensures
        ({
            let n = batch_size(texts, k, max_chunks, max_chars);
            n < texts.len() ==> n >= max_chunks || text::join(texts.take(n), " "@).len() + 1
                + texts[n].len() > max_chars
        }),
    decreases texts.len() - k,
{
    if k < texts.len() && joins(texts, k, max_chunks, max_chars) {
        lemma_batch_stops(texts, k + 1, max_chunks, max_chars);
    }
}

} // verus!
