//! Answers from retrieved context.
use crate::binary32::Binary32;
use crate::config::RagConfig;
use crate::rag::order;
use crate::rag::retrieval::{search, ChunkHit, ChunkHitView, SearchRun, SearchRunView};
use crate::rag::retrieval::{SearchScope, SearchStepView};
use crate::text;
use vstd::prelude::*;
use vstd::string::*;

verus! {

/// One call of the language model.
#[derive(Debug)]
pub struct ChatRequest {
    pub model: String,
    pub system: Option<String>,
    pub user: String,
    pub num_ctx: u64,
    pub num_predict: Option<i32>,
    /// Free the model once it has answered.
    pub unload: bool,
}

/// `ChatRequest` with texts by their characters.
#[verifier::ext_equal]
pub struct ChatRequestView {
    pub model: Seq<char>,
    pub system: Option<Seq<char>>,
    pub user: Seq<char>,
    pub num_ctx: u64,
    pub num_predict: Option<i32>,
    pub unload: bool,
}

impl View for ChatRequest {
    type V = ChatRequestView;

    open spec fn view(&self) -> ChatRequestView {
        ChatRequestView {
            model: self.model@,
            system: text::optional(self.system),
            user: self.user@,
            num_ctx: self.num_ctx,
            num_predict: self.num_predict,
            unload: self.unload,
        }
    }
}

/// A chunk whose mean log probability lies under the threshold is doubtful.
pub open spec fn doubtful(avg_logprob: Binary32, threshold: Binary32) -> bool {
    avg_logprob.below(threshold)
}

/// One passage of the context: where it comes from, a warning if it is doubtful, and its text.
pub open spec fn passage(h: ChunkHitView, threshold: Binary32) -> Seq<char> {
    "[audio "@ + h.chunk.audio_id + " | chunk "@ + text::decimal(h.chunk.chunk_id as nat) + " | "@
        + h.chunk.start.shown + "s-"@ + h.chunk.end.shown + "s"@ + (if doubtful(
        h.chunk.avg_logprob,
        threshold,
    ) {
        " [BAJA CONFIANZA — posible ruido de fondo o cross-talk]"@
    } else {
        ""@
    }) + "]\n"@ + h.chunk.text + "\n\n"@
}

/// The passages of all hits, in order.
pub open spec fn context_of(hits: Seq<ChunkHitView>, threshold: Binary32) -> Seq<char>
    decreases hits.len(),
{
    if hits.len() == 0 {
        Seq::empty()
    } else {
        context_of(hits.drop_last(), threshold) + passage(hits.last(), threshold)
    }
}

/// The context the model answers from.
pub fn assemble_context(hits: &Vec<ChunkHit>, threshold: Binary32) -> (r: String)
    ensures
        r@ == context_of(order::hits_view(hits@), threshold),
{
    let ghost all = order::hits_view(hits@);
    let mut context = String::new();
    let mut i: usize = 0;
    assert(all.take(0).len() == 0);
    while i < hits.len()
        invariant
            i <= hits@.len(),
            all == order::hits_view(hits@),
            context@ == context_of(all.take(i as int), threshold),
        decreases hits@.len() - i,
    {
        let ghost before = context@;
        let hit = &hits[i];
        assert(all.take(i + 1).drop_last() == all.take(i as int));
        assert(all.take(i + 1).last() == hit@);
        let notice = if hit.chunk.avg_logprob.is_below(threshold) {
            " [BAJA CONFIANZA — posible ruido de fondo o cross-talk]"
        } else {
            ""
        };
        context.push_str("[audio ");
        context.push_str(hit.chunk.audio_id.as_str());
        context.push_str(" | chunk ");
        context.push_str(text::decimal_text(hit.chunk.chunk_id as u64).as_str());
        context.push_str(" | ");
        context.push_str(hit.chunk.start.shown.as_str());
        context.push_str("s-");
        context.push_str(hit.chunk.end.shown.as_str());
        context.push_str("s");
        context.push_str(notice);
        context.push_str("]\n");
        context.push_str(hit.chunk.text.as_str());
        context.push_str("\n\n");
        assert(context@ == before + passage(hit@, threshold));
        i = i + 1;
    }
    assert(all.take(i as int) == all);
    context
}

/// What the model is told before the question.
pub open spec fn system_prompt(context: Seq<char>) -> Seq<char> {
    "Sos un asistente que responde preguntas sobre transcripciones de reuniones grabadas con teléfono (audio con cross-talk y ruido de fondo real). Respondé ÚNICAMENTE en base al contexto de abajo, en español. Si el contexto no alcanza para responder, decilo explícitamente en vez de inventar. Si citás un tramo marcado como BAJA CONFIANZA, aclará que esa parte de la transcripción puede no ser exacta.\n\nContexto:\n"@
        + context
}

/// What is answered where nothing was found.
pub open spec fn no_context() -> Seq<char> {
    "No se encontró contexto relevante en la transcripción para responder esta pregunta."@
}

/// How a question is answered: at once, or by the model.
#[derive(Debug)]
pub enum RagAnswer {
    Answer { text: String },
    Ask { request: ChatRequest },
}

/// `RagAnswer` with texts by their characters.
#[verifier::ext_equal]
pub enum RagAnswerView {
    Answer { text: Seq<char> },
    Ask { request: ChatRequestView },
}

impl View for RagAnswer {
    type V = RagAnswerView;

    open spec fn view(&self) -> RagAnswerView {
        match *self {
            RagAnswer::Answer { text } => RagAnswerView::Answer { text: text@ },
            RagAnswer::Ask { request } => RagAnswerView::Ask { request: request@ },
        }
    }
}

/// How a question is answered from these hits: without any, it is said so; else the model is
/// asked, over the context of the hits, and freed afterwards.
pub open spec fn answer_of(
    question: Seq<char>,
    hits: Seq<ChunkHitView>,
    rag: RagConfig,
) -> RagAnswerView {
    if hits.len() == 0 {
        RagAnswerView::Answer { text: no_context() }
    } else {
        RagAnswerView::Ask {
            request: ChatRequestView {
                model: rag.generation_model@,
                system: Some(system_prompt(context_of(hits, rag.low_confidence_thold))),
                user: question,
                num_ctx: rag.rag_answer_num_ctx,
                num_predict: None,
                unload: true,
            },
        }
    }
}

/// The search whose hits a question is answered from.
pub fn rag_search(question: &str, scope: SearchScope, rag: &RagConfig) -> (r: SearchRun)
    ensures
        r@ == (SearchRunView {
            model: rag.embedding_model@,
            query: question@,
            scope: scope@,
            top_k: rag.top_k,
            pool: rag.rerank_candidate_pool,
            step: SearchStepView::EmbedQuery,
        }),
        r@.wf(),
        r.query@ == question@,
        r.scope == scope,
        r.scope@ == scope@,
        r.top_k == rag.top_k,
{
    search(question, scope, rag.top_k, rag)
}

/// How a question is answered from the hits of its search.
pub fn rag_answer(question: &str, hits: &Vec<ChunkHit>, rag: &RagConfig) -> (r: RagAnswer)
    ensures
        r@ == answer_of(question@, order::hits_view(hits@), *rag),
        hits@.len() == 0 <==> r is Answer,
        r matches RagAnswer::Ask { request } ==> {
            &&& request.user@ == question@
            &&& request.model@ == rag.generation_model@
            &&& request.num_ctx == rag.rag_answer_num_ctx
            &&& request.num_predict is None
            &&& request.unload
        },
{
    assert(order::hits_view(hits@).len() == hits@.len());
    if hits.len() == 0 {
        return RagAnswer::Answer {
            text: "No se encontró contexto relevante en la transcripción para responder esta pregunta.".to_owned(),
        };
    }
    let context = assemble_context(hits, rag.low_confidence_thold);
    let mut system = "Sos un asistente que responde preguntas sobre transcripciones de reuniones grabadas con teléfono (audio con cross-talk y ruido de fondo real). Respondé ÚNICAMENTE en base al contexto de abajo, en español. Si el contexto no alcanza para responder, decilo explícitamente en vez de inventar. Si citás un tramo marcado como BAJA CONFIANZA, aclará que esa parte de la transcripción puede no ser exacta.\n\nContexto:\n".to_owned();
    system.push_str(context.as_str());
    RagAnswer::Ask {
        request: ChatRequest {
            model: rag.generation_model.clone(),
            system: Some(system),
            user: question.to_owned(),
            num_ctx: rag.rag_answer_num_ctx,
            num_predict: None,
            unload: true,
        },
    }
}

/// The context of two lists of hits is the context of the first and then of the second: a
/// passage depends on its own hit alone.
pub proof fn context_goes_hit_by_hit(
    a: Seq<ChunkHitView>,
    b: Seq<ChunkHitView>,
    threshold: Binary32,
)
    ensures
        context_of(a + b, threshold) == context_of(a, threshold) + context_of(b, threshold),
    decreases b.len(),
{
    if b.len() == 0 {
        assert(a + b == a);
    } else {
        assert((a + b).drop_last() == a + b.drop_last());
        assert((a + b).last() == b.last());
        context_goes_hit_by_hit(a, b.drop_last(), threshold);
    }
}

/// The context of a single hit names its recording, its chunk and its times, in this order, holds
/// its text as it stands, and carries the warning exactly if the mean log probability of the hit
/// is lower than the threshold.
pub proof fn passage_tells_of_its_own_hit(h: ChunkHitView, threshold: Binary32)
    ensures
        ({
            let head = "[audio "@ + h.chunk.audio_id + " | chunk "@ + text::decimal(
                h.chunk.chunk_id as nat,
            ) + " | "@ + h.chunk.start.shown + "s-"@ + h.chunk.end.shown + "s"@;
            let sure = head + ""@ + "]\n"@ + h.chunk.text + "\n\n"@;
            let warned = head + " [BAJA CONFIANZA — posible ruido de fondo o cross-talk]"@ + "]\n"@
                + h.chunk.text + "\n\n"@;
            let low = !h.chunk.avg_logprob.nan() && !threshold.nan()
                && h.chunk.avg_logprob.value_rank() < threshold.value_rank();
            &&& low ==> context_of(seq![h], threshold) == warned
            &&& !low ==> context_of(seq![h], threshold) == sure
        }),
{
    assert(seq![h].drop_last() =~= Seq::<ChunkHitView>::empty());
    assert(seq![h].last() == h);
    let nothing = context_of(seq![h].drop_last(), threshold);
    assert(nothing.len() == 0);
    assert(nothing + passage(h, threshold) =~= passage(h, threshold));
}

/// The text stands somewhere in the whole.
pub open spec fn holds_text(whole: Seq<char>, part: Seq<char>) -> bool {
    exists|at: int|
        0 <= at <= whole.len() - part.len() && #[trigger] whole.subrange(at, at + part.len())
            == part
}

proof fn lemma_holds(before: Seq<char>, part: Seq<char>, behind: Seq<char>)
    ensures
        holds_text(before + part + behind, part),
{
    let whole = before + part + behind;
    let at = before.len() as int;
    assert(whole.subrange(at, at + part.len()) =~= part);
}

/// A question that has hits is put to the model of the settings as it was asked, behind the
/// instructions and the whole context, which holds the text of every hit; the model is freed
/// afterwards. Without hits the model is not asked.
pub proof fn every_hit_reaches_the_model(
    question: Seq<char>,
    hits: Seq<ChunkHitView>,
    rag: RagConfig,
)
    ensures
        hits.len() == 0 ==> answer_of(question, hits, rag) == (RagAnswerView::Answer {
            text:
                "No se encontró contexto relevante en la transcripción para responder esta pregunta."@,
        }),
        hits.len() > 0 ==> {
            &&& answer_of(question, hits, rag) matches RagAnswerView::Ask { request }
            &&& request.user == question
            &&& request.model == rag.generation_model@
            &&& request.num_ctx == rag.rag_answer_num_ctx
            &&& request.num_predict is None
            &&& request.unload
            &&& request.system matches Some(system)
            &&& system
                == "Sos un asistente que responde preguntas sobre transcripciones de reuniones grabadas con teléfono (audio con cross-talk y ruido de fondo real). Respondé ÚNICAMENTE en base al contexto de abajo, en español. Si el contexto no alcanza para responder, decilo explícitamente en vez de inventar. Si citás un tramo marcado como BAJA CONFIANZA, aclará que esa parte de la transcripción puede no ser exacta.\n\nContexto:\n"@
                + context_of(hits, rag.low_confidence_thold)
            &&& forall|i: int|
                0 <= i < hits.len() ==> holds_text(system, (#[trigger] hits[i]).chunk.text)
        },
{
    if hits.len() > 0 {
        let t = rag.low_confidence_thold;
        let system = system_prompt(context_of(hits, t));
        assert forall|i: int| 0 <= i < hits.len() implies holds_text(
            system,
            (#[trigger] hits[i]).chunk.text,
        ) by {
            let a = hits.take(i);
            let b = seq![hits[i]];
            let c = hits.skip(i + 1);
            assert(hits == a + b + c);
            context_goes_hit_by_hit(a + b, c, t);
            context_goes_hit_by_hit(a, b, t);
            passage_tells_of_its_own_hit(hits[i], t);
            let h = hits[i];
            let head = "[audio "@ + h.chunk.audio_id + " | chunk "@ + text::decimal(
                h.chunk.chunk_id as nat,
            ) + " | "@ + h.chunk.start.shown + "s-"@ + h.chunk.end.shown + "s"@;
            let warning = if h.chunk.avg_logprob.below(t) {
                " [BAJA CONFIANZA — posible ruido de fondo o cross-talk]"@
            } else {
                ""@
            };
            let before = system_prompt(context_of(a, t)) + (head + warning + "]\n"@);
            let behind = "\n\n"@ + context_of(c, t);
            lemma_holds(before, h.chunk.text, behind);
            assert(system =~= before + h.chunk.text + behind);
        }
    }
}

} // verus!
