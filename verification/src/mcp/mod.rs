//! The read-only tools offered over MCP.
use crate::audio_pipeline::job::JobError;
use crate::audio_pipeline::models::{JobMetadata, TranscriptEntry};
use crate::binary32::Binary32;
use crate::config::RagConfig;
use crate::handlers::jobs_handler;
use crate::handlers::jobs_handler::{construir_transcript_response, StoredEntries, TranscriptResponse};
use crate::handlers::rag_handler;
use crate::rag::generation::rag_search;
use crate::rag::retrieval::{search, ChunkHit, ScopeArg, SearchRun, SearchScope};
use crate::text;
use vstd::prelude::*;
use vstd::string::*;

verus! {

/// Arguments of `search_transcript`.
#[derive(Debug)]
pub struct SearchTranscriptRequest {
    pub query: String,
    pub scope: ScopeArg,
}

/// Arguments of `rag_answer`.
#[derive(Debug)]
pub struct RagAnswerRequest {
    pub question: String,
    pub scope: ScopeArg,
}

/// Arguments of `get_audio_metadata`.
#[derive(Debug)]
pub struct GetAudioMetadataRequest {
    pub audio_id: String,
}

/// Arguments of `get_transcript`.
#[derive(Debug)]
pub struct GetTranscriptRequest {
    pub audio_id: String,
}

/// Why a tool gave no result: the caller asked for something that is not there, or the server
/// failed, of which the caller learns only which tool it was.
#[derive(Debug)]
pub enum ToolError {
    InvalidParams { message: String },
    Internal { tool: String },
}

/// `ToolError` with texts by their characters.
#[verifier::ext_equal]
pub enum ToolErrorView {
    InvalidParams { message: Seq<char> },
    Internal { tool: Seq<char> },
}

impl View for ToolError {
    type V = ToolErrorView;

    open spec fn view(&self) -> ToolErrorView {
        match *self {
            ToolError::InvalidParams { message } => ToolErrorView::InvalidParams {
                message: message@,
            },
            ToolError::Internal { tool } => ToolErrorView::Internal { tool: tool@ },
        }
    }
}

/// There is no job of that name.
pub open spec fn unknown_audio(audio_id: Seq<char>) -> ToolErrorView {
    ToolErrorView::InvalidParams { message: "no existe el job '"@ + audio_id + "'"@ }
}

fn refuse_unknown(audio_id: &str) -> (r: ToolError)
    ensures
        r@ == unknown_audio(audio_id@),
{
    let mut message = "no existe el job '".to_owned();
    message.push_str(audio_id);
    message.push_str("'");
    ToolError::InvalidParams { message }
}

/// The failure of a tool, without its cause.
pub fn error_interno(contexto: &str) -> (r: ToolError)
    ensures
        r@ == (ToolErrorView::Internal { tool: contexto@ }),
{
    ToolError::Internal { tool: contexto.to_owned() }
}

/// Starts the search of `search_transcript`.
pub fn search_transcript(request: SearchTranscriptRequest, rag: &RagConfig) -> (r: SearchRun)
    ensures
        r@ == rag_handler::search_start(
            request.query@,
            rag_handler::scope_of(request.scope),
            rag.search_top_k,
            *rag,
        ),
        r@.wf(),
        r.query@ == request.query@,
        r.top_k == rag.search_top_k,
        match request.scope {
            ScopeArg::Audio { audio_id } => r.scope matches SearchScope::Audio(a) && a@
                == audio_id@,
            ScopeArg::AllCorpus => r.scope is AllCorpus,
        },
{
    search(request.query.as_str(), request.scope.into_scope(), rag.search_top_k, rag)
}

/// What `search_transcript` gives back.
pub fn search_transcript_result(found: Result<Vec<ChunkHit>, String>) -> (r: Result<
    Vec<ChunkHit>,
    ToolError,
>)
    ensures
        match found {
            Ok(hits) => r matches Ok(h) && h == hits,
            Err(_) => r matches Err(e) && e@ == (ToolErrorView::Internal {
                tool: "search_transcript"@,
            }),
        },
{
    match found {
        Ok(hits) => Ok(hits),
        Err(_) => Err(error_interno("search_transcript")),
    }
}

/// Starts the search of `rag_answer`.
pub fn rag_answer(question: &str, scope: ScopeArg, rag: &RagConfig) -> (r: SearchRun)
    ensures
        r@ == rag_handler::search_start(
            question@,
            rag_handler::scope_of(scope),
            rag.top_k,
            *rag,
        ),
        r@.wf(),
        r.query@ == question@,
        r.top_k == rag.top_k,
        match scope {
            ScopeArg::Audio { audio_id } => r.scope matches SearchScope::Audio(a) && a@
                == audio_id@,
            ScopeArg::AllCorpus => r.scope is AllCorpus,
        },
{
    rag_search(question, scope.into_scope(), rag)
}

/// What `rag_answer` gives back.
pub fn rag_answer_result(answered: Result<String, String>) -> (r: Result<String, ToolError>)
    ensures
        match answered {
            Ok(text) => r matches Ok(t) && t@ == text@,
            Err(_) => r matches Err(e) && e@ == (ToolErrorView::Internal { tool: "rag_answer"@ }),
        },
{
    match answered {
        Ok(text) => Ok(text),
        Err(_) => Err(error_interno("rag_answer")),
    }
}

/// What `list_audios` gives back; `None` stands for a directory that cannot be read.
pub fn list_audios(jobs: Option<Vec<JobMetadata>>) -> (r: Result<Vec<JobMetadata>, ToolError>)
    ensures
        match jobs {
            Some(v) => r matches Ok(j) && j@ == v@,
            None => r matches Err(e) && e@ == (ToolErrorView::Internal { tool: "list_audios"@ }),
        },
{
    match jobs {
        Some(v) => Ok(v),
        None => Err(error_interno("list_audios")),
    }
}

/// What `get_audio_metadata` gives back.
pub fn get_audio_metadata(
    request: &GetAudioMetadataRequest,
    loaded: Result<JobMetadata, JobError>,
) -> (r: Result<JobMetadata, ToolError>)
    ensures
        match loaded {
            Ok(m) => r matches Ok(j) && j == m,
            Err(_) => r matches Err(e) && e@ == unknown_audio(request.audio_id@),
        },
{
    match loaded {
        Ok(m) => Ok(m),
        Err(_) => Err(refuse_unknown(request.audio_id.as_str())),
    }
}

/// What `get_transcript` gives back: the transcript as far as it is written.
pub fn get_transcript(
    request: &GetTranscriptRequest,
    loaded: Result<JobMetadata, JobError>,
    stored: StoredEntries<TranscriptEntry>,
    threshold: Binary32,
) -> (r: Result<TranscriptResponse, ToolError>)
    ensures
        match (loaded, stored) {
            (Err(_), _) => r matches Err(e) && e@ == unknown_audio(request.audio_id@),
            (Ok(m), StoredEntries::Unreadable) => r matches Err(e) && e@ == (
            ToolErrorView::Internal { tool: "get_transcript"@ }),
            (Ok(m), StoredEntries::Missing) => r matches Ok(t) && t.status == m.status
                && t.transcript_ready == m.transcript_ready && t.entries@.len() == 0,
            (Ok(m), StoredEntries::Present { entries }) => r matches Ok(t) && t.status == m.status
                && t.transcript_ready == m.transcript_ready && jobs_handler::marked_view(t.entries@)
                == entries@.map_values(|e: TranscriptEntry| jobs_handler::marked(e@, threshold))
                && jobs_handler::marks(t.entries@, entries@, threshold),
        },
{
    match loaded {
        Err(_) => Err(refuse_unknown(request.audio_id.as_str())),
        Ok(metadata) => match construir_transcript_response(&metadata, stored, threshold) {
            Ok(t) => Ok(t),
            Err(_) => Err(error_interno("get_transcript")),
        },
    }
}

/// This machine, by its names.
pub open spec fn this_machine() -> Seq<Seq<char>> {
    seq!["localhost"@, "127.0.0.1"@, "::1"@]
}

/// The hosts that may reach the tools: this machine, and those that were configured.
pub fn allowed_hosts(configured: &Vec<String>) -> (r: Vec<String>)
    ensures
        text::texts(r@) == this_machine() + text::texts(configured@),
        r@.len() == configured@.len() + 3,
        forall|i: int| 0 <= i < configured@.len() ==> r@[i + 3]@ == #[trigger] configured@[i]@,
{
    let mut out: Vec<String> = Vec::new();
    out.push("localhost".to_owned());
    out.push("127.0.0.1".to_owned());
    out.push("::1".to_owned());
    let ghost all = text::texts(configured@);
    let mut i: usize = 0;
    assert(text::texts(out@) =~= this_machine() + all.take(0));
    while i < configured.len()
        invariant
            i <= configured@.len(),
            all == text::texts(configured@),
            text::texts(out@) == this_machine() + all.take(i as int),
        decreases configured@.len() - i,
    {
        let ghost before = text::texts(out@);
        out.push(configured[i].clone());
        assert(text::texts(out@) =~= before.push(configured@[i as int]@));
        assert(all.take(i + 1) =~= all.take(i as int).push(configured@[i as int]@));
        i = i + 1;
    }
    assert(all.take(i as int) =~= all);
    assert forall|k: int| 0 <= k < configured@.len() implies out@[k + 3]@
        == #[trigger] configured@[k]@ by {
        assert(text::texts(out@)[k + 3] == all[k]);
    }
    out
}

/// The tools can be reached from this machine by any of its names, and from every configured host.
pub proof fn tools_are_reached_from_this_machine(configured: Seq<Seq<char>>, i: int)
    requires
        0 <= i < configured.len(),
    ensures
        ({
            let hosts = this_machine() + configured;
            &&& hosts.contains("localhost"@)
            &&& hosts.contains("127.0.0.1"@)
            &&& hosts.contains("::1"@)
            &&& hosts.contains(configured[i])
            &&& hosts.len() == 3 + configured.len()
        }),
{
    let hosts = this_machine() + configured;
    assert(hosts[0] == "localhost"@);
    assert(hosts[1] == "127.0.0.1"@);
    assert(hosts[2] == "::1"@);
    assert(hosts[3 + i] == configured[i]);
}

/// Asking for a recording that is not there is the caller's error, and names it.
pub proof fn unknown_recordings_are_named(audio_id: Seq<char>)
    ensures
        unknown_audio(audio_id) matches ToolErrorView::InvalidParams { message } && message
            == "no existe el job '"@ + audio_id + "'"@,
{
}

} // verus!
