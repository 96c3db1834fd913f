//! Searches and questions of clients.
use crate::config::RagConfig;
use crate::handlers;
use crate::handlers::{refuse_server_error, Refusal};
use crate::rag::generation::rag_search;
use crate::rag::retrieval::{search, ChunkHit, ScopeArg, SearchRun, SearchRunView, SearchScopeView};
use crate::rag::retrieval::{SearchScope, SearchStepView};
use vstd::prelude::*;
use vstd::string::*;

verus! {

/// A search.
#[derive(Debug)]
pub struct SearchRequest {
    pub query: String,
    pub scope: ScopeArg,
}

/// A question.
#[derive(Debug)]
pub struct RagAnswerRequest {
    pub question: String,
    pub scope: ScopeArg,
}

/// The scope a client named.
pub open spec fn scope_of(arg: ScopeArg) -> SearchScopeView {
    match arg {
        ScopeArg::Audio { audio_id } => SearchScopeView::Audio(audio_id@),
        ScopeArg::AllCorpus => SearchScopeView::AllCorpus,
    }
}

/// The start of a search for `top_k` hits.
pub open spec fn search_start(
    query: Seq<char>,
    scope: SearchScopeView,
    top_k: u64,
    rag: RagConfig,
) -> SearchRunView {
    SearchRunView {
        model: rag.embedding_model@,
        query,
        scope,
        top_k,
        pool: rag.rerank_candidate_pool,
        step: SearchStepView::EmbedQuery,
    }
}

/// Starts the search a client asked for.
pub fn buscar_handler(request: SearchRequest, rag: &RagConfig) -> (r: SearchRun)
    ensures
        r@ == search_start(request.query@, scope_of(request.scope), rag.search_top_k, *rag),
        r@.wf(),
        r.query@ == request.query@,
        r.top_k == rag.search_top_k,
        match request.scope {
            ScopeArg::Audio { audio_id } => r.scope matches SearchScope::Audio(a) && a@
                == audio_id@,
            ScopeArg::AllCorpus => r.scope is AllCorpus,
        },
{
    search(request.query.as_str(), request.scope.into_scope(), rag.search_top_k, rag)
}

/// Starts the search behind a client's question. It takes fewer hits than a plain search.
pub fn rag_answer_handler(request: &RagAnswerRequest, rag: &RagConfig) -> (r: SearchRun)
    ensures
        r@ == search_start(request.question@, scope_of(request.scope), rag.top_k, *rag),
        r@.wf(),
        r.query@ == request.question@,
        r.top_k == rag.top_k,
        match request.scope {
            ScopeArg::Audio { audio_id } => r.scope matches SearchScope::Audio(a) && a@
                == audio_id@,
            ScopeArg::AllCorpus => r.scope is AllCorpus,
        },
{
    let scope = match &request.scope {
        ScopeArg::Audio { audio_id } => crate::rag::retrieval::SearchScope::Audio(audio_id.clone()),
        ScopeArg::AllCorpus => crate::rag::retrieval::SearchScope::AllCorpus,
    };
    rag_search(request.question.as_str(), scope, rag)
}

/// What a client is told of a search: its hits, or that the server failed.
pub fn search_answer(found: Result<Vec<ChunkHit>, String>) -> (r: Result<Vec<ChunkHit>, Refusal>)
    ensures
        match found {
            Ok(hits) => r matches Ok(h) && h == hits,
            Err(_) => r matches Err(e) && e@ == handlers::server_error(),
        },
{
    match found {
        Ok(hits) => Ok(hits),
        Err(_) => Err(refuse_server_error()),
    }
}

/// What a client is told of an answer: the answer, or that the server failed.
pub fn question_answer(answered: Result<String, String>) -> (r: Result<String, Refusal>)
    ensures
        match answered {
            Ok(text) => r matches Ok(t) && t@ == text@,
            Err(_) => r matches Err(e) && e@ == handlers::server_error(),
        },
{
    match answered {
        Ok(text) => Ok(text),
        Err(_) => Err(refuse_server_error()),
    }
}

/// A request is searched as it was made: for its own words, within the recording it names or over
/// everything, with the model and the pool of the settings, and from the beginning.
pub proof fn requests_are_searched_as_made(
    query: Seq<char>,
    arg: ScopeArg,
    top_k: u64,
    rag: RagConfig,
)
    ensures
        ({
            let run = search_start(query, scope_of(arg), top_k, rag);
            &&& run.query == query
            &&& run.top_k == top_k
            &&& run.model == rag.embedding_model@
            &&& run.pool == rag.rerank_candidate_pool
            &&& run.step is EmbedQuery
            &&& arg matches ScopeArg::Audio { audio_id } ==> run.scope == SearchScopeView::Audio(
                audio_id@,
            )
            &&& arg is AllCorpus ==> run.scope is AllCorpus
        }),
{
}

} // verus!
