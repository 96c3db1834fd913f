//! Search over the chunks of all recordings.
use crate::audio_pipeline::embeddings;
use crate::binary32::Binary32;
use crate::config::RagConfig;
use crate::ids;
use crate::rag::order;
use crate::rag::order::{stable_sort, ByPlace};
use crate::rag::reranker;
use crate::text;
use vstd::prelude::*;
use vstd::string::*;

verus! {

/// A moment of a recording: its number and how it is shown, in seconds with one decimal.
#[derive(Debug)]
pub struct Seconds {
    pub value: Binary32,
    pub shown: String,
}

/// `Seconds` with its text by its characters.
#[verifier::ext_equal]
pub struct SecondsView {
    pub value: Binary32,
    pub shown: Seq<char>,
}

impl View for Seconds {
    type V = SecondsView;

    open spec fn view(&self) -> SecondsView {
        SecondsView { value: self.value, shown: self.shown@ }
    }
}

impl Seconds {
    pub fn copy(&self) -> (r: Seconds)
        ensures
            r@ == self@,
    {
        Seconds { value: self.value, shown: self.shown.clone() }
    }
}

/// A chunk as it is stored with its point.
#[derive(Debug)]
pub struct ChunkPayload {
    pub audio_id: String,
    pub chunk_id: usize,
    pub start: Seconds,
    pub end: Seconds,
    pub text: String,
    pub speaker: String,
    pub avg_logprob: Binary32,
}

/// `ChunkPayload` with texts by their characters.
#[verifier::ext_equal]
pub struct ChunkPayloadView {
    pub audio_id: Seq<char>,
    pub chunk_id: usize,
    pub start: SecondsView,
    pub end: SecondsView,
    pub text: Seq<char>,
    pub speaker: Seq<char>,
    pub avg_logprob: Binary32,
}

impl View for ChunkPayload {
    type V = ChunkPayloadView;

    open spec fn view(&self) -> ChunkPayloadView {
        ChunkPayloadView {
            audio_id: self.audio_id@,
            chunk_id: self.chunk_id,
            start: self.start@,
            end: self.end@,
            text: self.text@,
            speaker: self.speaker@,
            avg_logprob: self.avg_logprob,
        }
    }
}

/// A chunk that a search found, with its score; a neighbour of such a chunk has none.
#[derive(Debug)]
pub struct ChunkHit {
    pub chunk: ChunkPayload,
    pub score: Option<Binary32>,
}

/// `ChunkHit` with texts by their characters.
#[verifier::ext_equal]
pub struct ChunkHitView {
    pub chunk: ChunkPayloadView,
    pub score: Option<Binary32>,
}

impl View for ChunkHit {
    type V = ChunkHitView;

    open spec fn view(&self) -> ChunkHitView {
        ChunkHitView { chunk: self.chunk@, score: self.score }
    }
}

/// What a search covers. Searching everything has to be asked for.
#[derive(Debug, PartialEq, Eq)]
pub enum SearchScope {
    Audio(String),
    AllCorpus,
}

impl Clone for SearchScope {
    fn clone(&self) -> (r: SearchScope)
        ensures
            r@ == self@,
    {
        match self {
            SearchScope::Audio(a) => SearchScope::Audio(a.clone()),
            SearchScope::AllCorpus => SearchScope::AllCorpus,
        }
    }
}

/// `SearchScope` with its text by its characters.
#[verifier::ext_equal]
pub enum SearchScopeView {
    Audio(Seq<char>),
    AllCorpus,
}

impl View for SearchScope {
    type V = SearchScopeView;

    open spec fn view(&self) -> SearchScopeView {
        match *self {
            SearchScope::Audio(a) => SearchScopeView::Audio(a@),
            SearchScope::AllCorpus => SearchScopeView::AllCorpus,
        }
    }
}

impl SearchScopeView {
    /// The recording that points must belong to.
    pub open spec fn filter(self) -> Option<Seq<char>> {
        match self {
            SearchScopeView::Audio(a) => Some(a),
            SearchScopeView::AllCorpus => None,
        }
    }

    /// How many points are asked for: with everything searched, a pool for the reranker.
    pub open spec fn fetch_k(self, top_k: u64, pool: u64) -> u64 {
        if self is AllCorpus && top_k < pool {
            pool
        } else {
            top_k
        }
    }
}

impl SearchScope {
    /// The recording that points must belong to.
    pub fn filter(&self) -> (r: Option<String>)
        ensures
            text::optional(r) == self@.filter(),
    {
        match self {
            SearchScope::Audio(a) => Some(a.clone()),
            SearchScope::AllCorpus => None,
        }
    }

    fn covers_all(&self) -> (r: bool)
        ensures
            r == (self@ is AllCorpus),
    {
        match self {
            SearchScope::Audio(_) => false,
            SearchScope::AllCorpus => true,
        }
    }
}

/// The scope of a request, as clients name it: `audio` with an identifier, or `all_corpus`.
#[derive(Debug)]
pub enum ScopeArg {
    Audio { audio_id: String },
    AllCorpus,
}

impl ScopeArg {
    /// The scope that was asked for.
    pub fn into_scope(self) -> (r: SearchScope)
        ensures
            r@ == (match self {
                ScopeArg::Audio { audio_id } => SearchScopeView::Audio(audio_id@),
                ScopeArg::AllCorpus => SearchScopeView::AllCorpus,
            }),
            match self {
                ScopeArg::Audio { audio_id } => r matches SearchScope::Audio(a) && a@ == audio_id@,
                ScopeArg::AllCorpus => r is AllCorpus,
            },
    {
        match self {
            ScopeArg::Audio { audio_id } => SearchScope::Audio(audio_id),
            ScopeArg::AllCorpus => SearchScope::AllCorpus,
        }
    }
}

/// A chunk of a recording.
#[derive(Debug)]
pub struct ChunkKey {
    pub audio_id: String,
    pub chunk_id: usize,
}

impl View for ChunkKey {
    type V = (Seq<char>, int);

    open spec fn view(&self) -> (Seq<char>, int) {
        (self.audio_id@, self.chunk_id as int)
    }
}

pub open spec fn keys_view(v: Seq<ChunkKey>) -> Seq<(Seq<char>, int)> {
    v.map_values(|k: ChunkKey| k@)
}

/// The chunk of a hit.
pub open spec fn key_of(h: ChunkHitView) -> (Seq<char>, int) {
    (h.chunk.audio_id, h.chunk.chunk_id as int)
}

/// The chunks of hits.
pub open spec fn keys_of(hits: Seq<ChunkHitView>) -> Seq<(Seq<char>, int)> {
    hits.map_values(|h: ChunkHitView| key_of(h))
}

/// `found` with `key` behind it, unless it is there or among the hits.
pub open spec fn considered(
    hits: Seq<ChunkHitView>,
    found: Seq<(Seq<char>, int)>,
    key: (Seq<char>, int),
) -> Seq<(Seq<char>, int)> {
    if key.1 < 0 || keys_of(hits).contains(key) || found.contains(key) {
        found
    } else {
        found.push(key)
    }
}

/// The neighbours of the first `n` hits that are no hits themselves: for each hit the chunk
/// before it, then the chunk behind it, none of them twice.
pub open spec fn neighbours(hits: Seq<ChunkHitView>, n: int) -> Seq<(Seq<char>, int)>
    decreases n,
{
    if n <= 0 {
        Seq::empty()
    } else {
        let (audio, chunk) = key_of(hits[n - 1]);
        considered(
            hits,
            considered(hits, neighbours(hits, n - 1), (audio, chunk - 1)),
            (audio, chunk + 1),
        )
    }
}

/// A chunk directly before or behind one of the first `n` hits that is no hit itself.
pub open spec fn is_neighbour(hits: Seq<ChunkHitView>, n: int, key: (Seq<char>, int)) -> bool {
    &&& key.1 >= 0
    &&& !keys_of(hits).contains(key)
    &&& exists|i: int| 0 <= i < n && beside(key, key_of(#[trigger] hits[i]))
}

/// The neighbours of the hits are exactly the chunks directly before or behind a hit that are no
/// hits themselves, each once.
pub proof fn neighbours_are_adjacent(hits: Seq<ChunkHitView>, n: int)
    requires
        0 <= n <= hits.len(),
    ensures
        neighbours(hits, n).no_duplicates(),
        forall|key: (Seq<char>, int)|
            #![trigger neighbours(hits, n).contains(key)]
            neighbours(hits, n).contains(key) <==> is_neighbour(hits, n, key),
    decreases n,
{
    let all = neighbours(hits, n);
    if n > 0 {
        neighbours_are_adjacent(hits, n - 1);
        let h = key_of(hits[n - 1]);
        let before = neighbours(hits, n - 1);
        let prev = (h.0, h.1 - 1);
        let next = (h.0, h.1 + 1);
        let mid = considered(hits, before, prev);
        assert forall|k: (Seq<char>, int)|
            #![trigger before.contains(k)]
            before.contains(k) implies k.1 >= 0 && !keys_of(hits).contains(k) by {
            assert(is_neighbour(hits, n - 1, k));
        }
        lemma_considered(hits, before, prev);
        assert forall|k: (Seq<char>, int)|
            #![trigger mid.contains(k)]
            mid.contains(k) implies k.1 >= 0 && !keys_of(hits).contains(k) by {
            if before.contains(k) {
                assert(is_neighbour(hits, n - 1, k));
            }
        }
        lemma_considered(hits, mid, next);
        assert(all == considered(hits, mid, next));
        assert forall|key: (Seq<char>, int)|
            #![trigger all.contains(key)]
            all.contains(key) <==> is_neighbour(hits, n, key) by {
            assert(all.contains(key) <==> mid.contains(key) || (key == next && key.1 >= 0
                && !keys_of(hits).contains(key)));
            assert(mid.contains(key) <==> before.contains(key) || (key == prev && key.1 >= 0
                && !keys_of(hits).contains(key)));
            assert(before.contains(key) <==> is_neighbour(hits, n - 1, key));
            assert(beside(key, h) <==> key == prev || key == next);
            if is_neighbour(hits, n, key) {
                let i = choose|i: int| 0 <= i < n && beside(key, key_of(#[trigger] hits[i]));
                if i < n - 1 {
                    assert(is_neighbour(hits, n - 1, key));
                } else {
                    assert(beside(key, h));
                }
            }
            if is_neighbour(hits, n - 1, key) {
                let i = choose|i: int| 0 <= i < n - 1 && beside(key, key_of(#[trigger] hits[i]));
                assert(0 <= i < n && beside(key, key_of(hits[i])));
                assert(is_neighbour(hits, n, key));
            }
            if beside(key, h) && key.1 >= 0 && !keys_of(hits).contains(key) {
                assert(0 <= n - 1 < n && beside(key, key_of(hits[n - 1])));
                assert(is_neighbour(hits, n, key));
            }
        }
    }
}

/// Two chunks of one recording, one directly behind the other.
pub open spec fn beside(a: (Seq<char>, int), b: (Seq<char>, int)) -> bool {
    a.0 == b.0 && (a.1 == b.1 - 1 || a.1 == b.1 + 1)
}

proof fn lemma_considered(
    hits: Seq<ChunkHitView>,
    found: Seq<(Seq<char>, int)>,
    key: (Seq<char>, int),
)
    requires
        found.no_duplicates(),
        forall|k: (Seq<char>, int)|
            #![trigger found.contains(k)]
            found.contains(k) ==> k.1 >= 0 && !keys_of(hits).contains(k),
    ensures
        considered(hits, found, key).no_duplicates(),
        forall|k: (Seq<char>, int)|
            #![trigger considered(hits, found, key).contains(k)]
            considered(hits, found, key).contains(k) <==> found.contains(k) || (k == key && k.1 >= 0
                && !keys_of(hits).contains(k)),
{
    let out = considered(hits, found, key);
    if out != found {
        assert(out == found.push(key));
        assert(out.last() == key);
        assert forall|k: (Seq<char>, int)| out.contains(k) <==> found.contains(k) || k == key by {
            if found.contains(k) {
                let i = choose|i: int| 0 <= i < found.len() && found[i] == k;
                assert(out[i] == k);
            }
            if k == key {
                assert(out[out.len() - 1] == k);
            }
            if out.contains(k) {
                let i = choose|i: int| 0 <= i < out.len() && out[i] == k;
                if i < found.len() {
                    assert(found[i] == k);
                }
            }
        }
    }
}

fn has_key(hits: &Vec<ChunkHit>, audio_id: &str, chunk_id: usize) -> (r: bool)
    ensures
        r == keys_of(order::hits_view(hits@)).contains((audio_id@, chunk_id as int)),
{
    let ghost keys = keys_of(order::hits_view(hits@));
    let mut i: usize = 0;
    while i < hits.len()
        invariant
            i <= hits@.len(),
            keys == keys_of(order::hits_view(hits@)),
            forall|k: int| 0 <= k < i ==> #[trigger] keys[k] != (audio_id@, chunk_id as int),
        decreases hits@.len() - i,
    {
        assert(keys[i as int] == key_of(hits@[i as int]@));
        if hits[i].chunk.chunk_id == chunk_id && text::same(
            hits[i].chunk.audio_id.as_str(),
            audio_id,
        ) {
            return true;
        }
        i = i + 1;
    }
    false
}

fn found_key(found: &Vec<ChunkKey>, audio_id: &str, chunk_id: usize) -> (r: bool)
    ensures
        r == keys_view(found@).contains((audio_id@, chunk_id as int)),
{
    let ghost keys = keys_view(found@);
    let mut i: usize = 0;
    while i < found.len()
        invariant
            i <= found@.len(),
            keys == keys_view(found@),
            forall|k: int| 0 <= k < i ==> #[trigger] keys[k] != (audio_id@, chunk_id as int),
        decreases found@.len() - i,
    {
        assert(keys[i as int] == found@[i as int]@);
        if found[i].chunk_id == chunk_id && text::same(found[i].audio_id.as_str(), audio_id) {
            return true;
        }
        i = i + 1;
    }
    false
}

fn consider(hits: &Vec<ChunkHit>, found: &mut Vec<ChunkKey>, audio_id: &str, chunk_id: usize)
    ensures
        keys_view(final(found)@) == considered(
            order::hits_view(hits@),
            keys_view(old(found)@),
            (audio_id@, chunk_id as int),
        ),
{
    if !has_key(hits, audio_id, chunk_id) && !found_key(found, audio_id, chunk_id) {
        let ghost before = keys_view(found@);
        found.push(ChunkKey { audio_id: audio_id.to_owned(), chunk_id });
        assert(keys_view(found@) =~= before.push((audio_id@, chunk_id as int)));
    }
}

/// Every hit has a chunk behind it that a machine number can name.
pub open spec fn numbered(hits: Seq<ChunkHitView>) -> bool {
    forall|i: int| 0 <= i < hits.len() ==> (#[trigger] hits[i]).chunk.chunk_id < usize::MAX
}

/// The neighbours of the hits.
pub fn neighbour_keys(hits: &Vec<ChunkHit>) -> (r: Vec<ChunkKey>)
    requires
        numbered(order::hits_view(hits@)),
    ensures
        keys_view(r@) == neighbours(order::hits_view(hits@), hits@.len() as int),
{
    let ghost all = order::hits_view(hits@);
    let mut found: Vec<ChunkKey> = Vec::new();
    let mut i: usize = 0;
    assert(keys_view(found@) =~= neighbours(all, 0));
    while i < hits.len()
        invariant
            i <= hits@.len(),
            all == order::hits_view(hits@),
            numbered(all),
            keys_view(found@) == neighbours(all, i as int),
        decreases hits@.len() - i,
    {
        let ghost before = keys_view(found@);
        let chunk: usize = hits[i].chunk.chunk_id;
        let audio = hits[i].chunk.audio_id.as_str();
        assert(all[i as int] == hits@[i as int]@);
        if chunk > 0 {
            consider(hits, &mut found, audio, chunk - 1);
        }
        assert(keys_view(found@) == considered(all, before, (audio@, chunk - 1)));
        consider(hits, &mut found, audio, chunk + 1);
        i = i + 1;
    }
    found
}

/// How far a search has come. Each state but the last two waits for one action.
#[derive(Debug)]
pub enum SearchStep {
    EmbedQuery,
    Query,
    Rerank { hits: Vec<ChunkHit> },
    Neighbours { hits: Vec<ChunkHit>, keys: Vec<ChunkKey> },
    Finished { hits: Vec<ChunkHit> },
    Failed { reason: String },
}

/// `SearchStep` with texts by their characters.
#[verifier::ext_equal]
pub enum SearchStepView {
    EmbedQuery,
    Query,
    Rerank { hits: Seq<ChunkHitView> },
    Neighbours { hits: Seq<ChunkHitView>, keys: Seq<(Seq<char>, int)> },
    Finished { hits: Seq<ChunkHitView> },
    Failed { reason: Seq<char> },
}

impl View for SearchStep {
    type V = SearchStepView;

    open spec fn view(&self) -> SearchStepView {
        match *self {
            SearchStep::EmbedQuery => SearchStepView::EmbedQuery,
            SearchStep::Query => SearchStepView::Query,
            SearchStep::Rerank { hits } => SearchStepView::Rerank { hits: order::hits_view(hits@) },
            SearchStep::Neighbours { hits, keys } => SearchStepView::Neighbours {
                hits: order::hits_view(hits@),
                keys: keys_view(keys@),
            },
            SearchStep::Finished { hits } => SearchStepView::Finished {
                hits: order::hits_view(hits@),
            },
            SearchStep::Failed { reason } => SearchStepView::Failed { reason: reason@ },
        }
    }
}

/// What is to be done next.
#[derive(Debug)]
pub enum SearchAction {
    EmbedQuery { model: String, text: String },
    /// Ask for the `limit` points nearest to the query, of one recording if one is given.
    Query { limit: u64, audio_id: Option<String> },
    /// Score each text against the query.
    Rerank { query: String, texts: Vec<String> },
    /// Ask for the points with these identifiers.
    Fetch { ids: Vec<String> },
    Finish,
    Fail { reason: String },
}

/// `SearchAction` with texts by their characters.
#[verifier::ext_equal]
pub enum SearchActionView {
    EmbedQuery { model: Seq<char>, text: Seq<char> },
    Query { limit: u64, audio_id: Option<Seq<char>> },
    Rerank { query: Seq<char>, texts: Seq<Seq<char>> },
    Fetch { ids: Seq<Seq<char>> },
    Finish,
    Fail { reason: Seq<char> },
}

impl View for SearchAction {
    type V = SearchActionView;

    open spec fn view(&self) -> SearchActionView {
        match *self {
            SearchAction::EmbedQuery { model, text } => SearchActionView::EmbedQuery {
                model: model@,
                text: text@,
            },
            SearchAction::Query { limit, audio_id } => SearchActionView::Query {
                limit,
                audio_id: text::optional(audio_id),
            },
            SearchAction::Rerank { query, texts } => SearchActionView::Rerank {
                query: query@,
                texts: text::texts(texts@),
            },
            SearchAction::Fetch { ids } => SearchActionView::Fetch { ids: text::texts(ids@) },
            SearchAction::Finish => SearchActionView::Finish,
            SearchAction::Fail { reason } => SearchActionView::Fail { reason: reason@ },
        }
    }
}

/// What came of an action.
#[derive(Debug)]
pub enum SearchEvent {
    /// How many vectors came back for the query.
    Embedded { vectors: usize },
    Results { hits: Vec<ChunkHit> },
    /// The scores of the reranker, `None` where it failed.
    Reranked { scores: Option<Vec<Binary32>> },
    /// The points that exist and can be read.
    Fetched { chunks: Vec<ChunkPayload> },
    Error { reason: String },
}

/// `SearchEvent` with texts by their characters.
#[verifier::ext_equal]
pub enum SearchEventView {
    Embedded { vectors: usize },
    Results { hits: Seq<ChunkHitView> },
    Reranked { scores: Option<Seq<Binary32>> },
    Fetched { chunks: Seq<ChunkPayloadView> },
    Error { reason: Seq<char> },
}

pub open spec fn payloads_view(v: Seq<ChunkPayload>) -> Seq<ChunkPayloadView> {
    v.map_values(|c: ChunkPayload| c@)
}

impl View for SearchEvent {
    type V = SearchEventView;

    open spec fn view(&self) -> SearchEventView {
        match *self {
            SearchEvent::Embedded { vectors } => SearchEventView::Embedded { vectors },
            SearchEvent::Results { hits } => SearchEventView::Results {
                hits: order::hits_view(hits@),
            },
            SearchEvent::Reranked { scores } => SearchEventView::Reranked {
                scores: reranker::scores_view(scores),
            },
            SearchEvent::Fetched { chunks } => SearchEventView::Fetched {
                chunks: payloads_view(chunks@),
            },
            SearchEvent::Error { reason } => SearchEventView::Error { reason: reason@ },
        }
    }
}

/// One search.
#[derive(Debug)]
pub struct SearchRun {
    pub model: String,
    pub query: String,
    pub scope: SearchScope,
    pub top_k: u64,
    pub pool: u64,
    pub step: SearchStep,
}

/// `SearchRun` with texts by their characters.
#[verifier::ext_equal]
pub struct SearchRunView {
    pub model: Seq<char>,
    pub query: Seq<char>,
    pub scope: SearchScopeView,
    pub top_k: u64,
    pub pool: u64,
    pub step: SearchStepView,
}

impl View for SearchRun {
    type V = SearchRunView;

    open spec fn view(&self) -> SearchRunView {
        SearchRunView {
            model: self.model@,
            query: self.query@,
            scope: self.scope@,
            top_k: self.top_k,
            pool: self.pool,
            step: self.step@,
        }
    }
}

/// The first `top_k` hits.
pub open spec fn truncated(hits: Seq<ChunkHitView>, top_k: u64) -> Seq<ChunkHitView> {
    if top_k < hits.len() {
        hits.take(top_k as int)
    } else {
        hits
    }
}

/// Chunks that came along with hits, without a score.
pub open spec fn unscored(chunks: Seq<ChunkPayloadView>) -> Seq<ChunkHitView> {
    chunks.map_values(|c: ChunkPayloadView| ChunkHitView { chunk: c, score: None })
}

/// The identifiers of the points of these chunks.
pub open spec fn point_ids(keys: Seq<(Seq<char>, int)>) -> Seq<Seq<char>> {
    keys.map_values(
        |k: (Seq<char>, int)| ids::name_uuid(embeddings::point_name(k.0, k.1 as nat)),
    )
}

/// The texts of hits.
pub open spec fn texts_of(hits: Seq<ChunkHitView>) -> Seq<Seq<char>> {
    hits.map_values(|h: ChunkHitView| h.chunk.text)
}

/// The state once the hits are chosen: their neighbours are fetched, if there are any.
pub open spec fn chosen(hits: Seq<ChunkHitView>) -> SearchStepView {
    let keys = neighbours(hits, hits.len() as int);
    if keys.len() == 0 {
        SearchStepView::Finished { hits: order::sorted::<ByPlace>(hits) }
    } else {
        SearchStepView::Neighbours { hits, keys }
    }
}

/// What is said where the model gave no vector for the query.
pub open spec fn no_query_vector() -> Seq<char> {
    "Ollama no devolvió ningún embedding para la query"@
}

impl SearchRunView {
    pub open spec fn at(self, step: SearchStepView) -> SearchRunView {
        SearchRunView { step, ..self }
    }

    /// What is to be done in this state.
    pub open spec fn action(self) -> SearchActionView {
        match self.step {
            SearchStepView::EmbedQuery => SearchActionView::EmbedQuery {
                model: self.model,
                text: self.query,
            },
            SearchStepView::Query => SearchActionView::Query {
                limit: self.scope.fetch_k(self.top_k, self.pool),
                audio_id: self.scope.filter(),
            },
            SearchStepView::Rerank { hits } => SearchActionView::Rerank {
                query: self.query,
                texts: texts_of(hits),
            },
            SearchStepView::Neighbours { hits, keys } => SearchActionView::Fetch {
                ids: point_ids(keys),
            },
            SearchStepView::Finished { hits } => SearchActionView::Finish,
            SearchStepView::Failed { reason } => SearchActionView::Fail { reason },
        }
    }

    /// The chunks of the event can be numbered on.
    pub open spec fn fits(self, event: SearchEventView) -> bool {
        event matches SearchEventView::Results { hits } ==> numbered(hits)
    }

    /// The state after the event. An event that answers nothing changes nothing.
    pub open spec fn after(self, event: SearchEventView) -> SearchRunView {
        match (self.step, event) {
            (SearchStepView::Finished { hits }, _) => self,
            (SearchStepView::Failed { reason }, _) => self,
            (_, SearchEventView::Error { reason }) => self.at(SearchStepView::Failed { reason }),
            (SearchStepView::EmbedQuery, SearchEventView::Embedded { vectors }) => self.at(
                if vectors == 0 {
                    SearchStepView::Failed { reason: no_query_vector() }
                } else {
                    SearchStepView::Query
                },
            ),
            (SearchStepView::Query, SearchEventView::Results { hits }) => self.at(
                if self.scope is AllCorpus {
                    if hits.len() > 1 {
                        SearchStepView::Rerank { hits }
                    } else {
                        chosen(truncated(hits, self.top_k))
                    }
                } else {
                    chosen(hits)
                },
            ),
            (SearchStepView::Rerank { hits }, SearchEventView::Reranked { scores }) => self.at(
                chosen(truncated(reranker::reranked(hits, scores), self.top_k)),
            ),
            (SearchStepView::Neighbours { hits, keys }, SearchEventView::Fetched { chunks }) =>
                self.at(
                    SearchStepView::Finished {
                        hits: order::sorted::<ByPlace>(hits + unscored(chunks)),
                    },
                ),
            _ => self,
        }
    }

    /// Hits that are still to be numbered on can be.
    pub open spec fn wf(self) -> bool {
        self.step matches SearchStepView::Rerank { hits } ==> numbered(hits)
    }
}

/// Starts a search.
pub fn search(query: &str, scope: SearchScope, top_k: u64, rag: &RagConfig) -> (r: SearchRun)
    ensures
        r@ == (SearchRunView {
            model: rag.embedding_model@,
            query: query@,
            scope: scope@,
            top_k,
            pool: rag.rerank_candidate_pool,
            step: SearchStepView::EmbedQuery,
        }),
        r@.wf(),
        r.model@ == rag.embedding_model@,
        r.query@ == query@,
        r.scope == scope,
        r.scope@ == scope@,
        r.top_k == top_k,
        r.pool == rag.rerank_candidate_pool,
{
    SearchRun {
        model: rag.embedding_model.clone(),
        query: query.to_owned(),
        scope,
        top_k,
        pool: rag.rerank_candidate_pool,
        step: SearchStep::EmbedQuery,
    }
}

fn truncate_hits(hits: Vec<ChunkHit>, top_k: u64) -> (r: Vec<ChunkHit>)
    ensures
        order::hits_view(r@) == truncated(order::hits_view(hits@), top_k),
{
    let mut hits = hits;
    let ghost all = order::hits_view(hits@);
    if top_k < hits.len() as u64 {
        hits.truncate(top_k as usize);
        assert(order::hits_view(hits@) =~= all.take(top_k as int));
    }
    hits
}

fn choose_hits(hits: Vec<ChunkHit>) -> (r: SearchStep)
    requires
        numbered(order::hits_view(hits@)),
    ensures
        r@ == chosen(order::hits_view(hits@)),
{
    let keys = neighbour_keys(&hits);
    assert(keys_view(keys@).len() == keys@.len());
    if keys.len() == 0 {
        SearchStep::Finished { hits: stable_sort::<ByPlace>(hits) }
    } else {
        SearchStep::Neighbours { hits, keys }
    }
}

fn with_neighbours(hits: Vec<ChunkHit>, chunks: Vec<ChunkPayload>) -> (r: Vec<ChunkHit>)
    ensures
        order::hits_view(r@) == order::sorted::<ByPlace>(
            order::hits_view(hits@) + unscored(payloads_view(chunks@)),
        ),
{
    let ghost start = order::hits_view(hits@);
    let ghost all = payloads_view(chunks@);
    let mut hits = hits;
    let mut chunks = chunks;
    assert(start + unscored(all.take(0)) =~= start);
    assert(payloads_view(chunks@) =~= all.skip(0));
    while chunks.len() > 0
        invariant
            chunks@.len() <= all.len(),
            payloads_view(chunks@) == all.skip(all.len() - chunks@.len()),
            order::hits_view(hits@) == start + unscored(all.take(all.len() - chunks@.len())),
        decreases chunks@.len(),
    {
        let ghost done = all.len() - chunks@.len();
        let ghost whole = chunks@;
        let ghost before = order::hits_view(hits@);
        let chunk = chunks.remove(0);
        assert(payloads_view(whole)[0] == all[done]);
        assert forall|k: int| 0 <= k < chunks@.len() implies #[trigger] payloads_view(chunks@)[k]
            == all.skip(done + 1)[k] by {
            assert(chunks@[k] == whole[k + 1]);
            assert(payloads_view(whole)[k + 1] == all.skip(done)[k + 1]);
        }
        assert(payloads_view(chunks@) =~= all.skip(done + 1));
        hits.push(ChunkHit { chunk, score: None });
        assert(order::hits_view(hits@) =~= before.push(
            ChunkHitView { chunk: chunk@, score: None },
        ));
        assert(unscored(all.take(done + 1)) =~= unscored(all.take(done)).push(
            ChunkHitView { chunk: chunk@, score: None },
        ));
        assert(order::hits_view(hits@) =~= start + unscored(all.take(done + 1)));
    }
    assert(all.take(all.len() as int) == all);
    stable_sort::<ByPlace>(hits)
}

proof fn lemma_numbered_truncated(hits: Seq<ChunkHitView>, top_k: u64)
    requires
        numbered(hits),
    ensures
        numbered(truncated(hits, top_k)),
{
    let t = truncated(hits, top_k);
    assert forall|i: int| 0 <= i < t.len() implies (#[trigger] t[i]).chunk.chunk_id < usize::MAX by {
        assert(t[i] == hits[i]);
    }
}

proof fn lemma_numbered_reranked(hits: Seq<ChunkHitView>, scores: Option<Seq<Binary32>>)
    requires
        numbered(hits),
    ensures
        numbered(reranker::reranked(hits, scores)),
{
    broadcast use vstd::seq_lib::group_to_multiset_ensures;

    let out = reranker::reranked(hits, scores);
    reranker::reranking_keeps_every_chunk(hits, scores);
    let before = reranker::chunks_of(hits);
    let after = reranker::chunks_of(out);
    assert forall|i: int| 0 <= i < out.len() implies (#[trigger] out[i]).chunk.chunk_id
        < usize::MAX by {
        assert(after[i] == out[i].chunk);
        assert(after.contains(after[i]));
        assert(after.to_multiset().count(after[i]) > 0);
        assert(before.contains(after[i]));
        let k = choose|k: int| 0 <= k < before.len() && before[k] == after[i];
        assert(hits[k].chunk == out[i].chunk);
    }
}

impl SearchRun {
    /// What is to be done next.
    pub fn action(&self) -> (r: SearchAction)
        ensures
            r@ == self@.action(),
            self.step matches SearchStep::Neighbours { hits: _, keys } ==> {
                &&& r matches SearchAction::Fetch { ids }
                &&& ids@.len() == keys@.len()
                &&& forall|i: int|
                    0 <= i < keys@.len() ==> (#[trigger] text::texts(ids@)[i]) == ids::name_uuid(
                        keys@[i].audio_id@.push(':') + text::decimal(keys@[i].chunk_id as nat),
                    )
            },
            self.step matches SearchStep::Rerank { hits } ==> {
                &&& r matches SearchAction::Rerank { query, texts }
                &&& query@ == self.query@
                &&& texts@.len() == hits@.len()
                &&& forall|i: int|
                    0 <= i < hits@.len() ==> (#[trigger] text::texts(texts@)[i])
                        == hits@[i].chunk.text@
            },
    {
        match &self.step {
            SearchStep::EmbedQuery => SearchAction::EmbedQuery {
                model: self.model.clone(),
                text: self.query.clone(),
            },
            SearchStep::Query => {
                let limit: u64 = if self.scope.covers_all() && self.top_k < self.pool {
                    self.pool
                } else {
                    self.top_k
                };
                SearchAction::Query { limit, audio_id: self.scope.filter() }
            },
            SearchStep::Rerank { hits } => {
                let ghost all = order::hits_view(hits@);
                let mut texts: Vec<String> = Vec::new();
                let mut i: usize = 0;
                assert(text::texts(texts@) =~= texts_of(all.take(0)));
                while i < hits.len()
                    invariant
                        i <= hits@.len(),
                        all == order::hits_view(hits@),
                        text::texts(texts@) == texts_of(all.take(i as int)),
                    decreases hits@.len() - i,
                {
                    let ghost before = text::texts(texts@);
                    texts.push(hits[i].chunk.text.clone());
                    assert(all[i as int] == hits@[i as int]@);
                    assert(text::texts(texts@) =~= before.push(hits@[i as int]@.chunk.text));
                    assert(texts_of(all.take(i + 1)) =~= before.push(all[i as int].chunk.text));
                    i = i + 1;
                }
                assert(all.take(i as int) == all);
                assert(text::texts(texts@).len() == texts@.len());
                assert forall|k: int| 0 <= k < hits@.len() implies (#[trigger] text::texts(
                    texts@,
                )[k]) == hits@[k].chunk.text@ by {
                    assert(all[k] == hits@[k]@);
                }
                SearchAction::Rerank { query: self.query.clone(), texts }
            },
            SearchStep::Neighbours { hits: _, keys } => {
                let ghost all = keys_view(keys@);
                let mut ids: Vec<String> = Vec::new();
                let mut i: usize = 0;
                assert(text::texts(ids@) =~= point_ids(all.take(0)));
                while i < keys.len()
                    invariant
                        i <= keys@.len(),
                        all == keys_view(keys@),
                        text::texts(ids@) == point_ids(all.take(i as int)),
                    decreases keys@.len() - i,
                {
                    let ghost before = text::texts(ids@);
                    let id = embeddings::deterministic_point_id(
                        keys[i].audio_id.as_str(),
                        keys[i].chunk_id,
                    );
                    ids.push(id);
                    assert(all[i as int] == keys@[i as int]@);
                    assert(text::texts(ids@) =~= before.push(id@));
                    assert(point_ids(all.take(i + 1)) =~= before.push(
                        ids::name_uuid(
                            embeddings::point_name(all[i as int].0, all[i as int].1 as nat),
                        ),
                    ));
                    i = i + 1;
                }
                assert(all.take(i as int) == all);
                assert(text::texts(ids@).len() == ids@.len());
                assert forall|k: int| 0 <= k < keys@.len() implies (#[trigger] text::texts(
                    ids@,
                )[k]) == ids::name_uuid(
                    keys@[k].audio_id@.push(':') + text::decimal(keys@[k].chunk_id as nat),
                ) by {
                    assert(all[k] == keys@[k]@);
                }
                SearchAction::Fetch { ids }
            },
            SearchStep::Finished { hits: _ } => SearchAction::Finish,
            SearchStep::Failed { reason } => SearchAction::Fail { reason: reason.clone() },
        }
    }

    /// Whether the chunks of the event can be numbered on.
    pub fn can_advance(&self, event: &SearchEvent) -> (r: bool)
        ensures
            r == self@.fits(event@),
    {
        match event {
            SearchEvent::Results { hits } => {
                let ghost all = order::hits_view(hits@);
                let mut i: usize = 0;
                while i < hits.len()
                    invariant
                        i <= hits@.len(),
                        all == order::hits_view(hits@),
                        event@ == (SearchEventView::Results { hits: all }),
                        forall|k: int|
                            0 <= k < i ==> (#[trigger] all[k]).chunk.chunk_id < usize::MAX,
                    decreases hits@.len() - i,
                {
                    assert(all[i as int] == hits@[i as int]@);
                    if hits[i].chunk.chunk_id == usize::MAX {
                        assert(!(all[i as int].chunk.chunk_id < usize::MAX));
                        assert(!numbered(all));
                        return false;
                    }
                    i = i + 1;
                }
                true
            },
            _ => true,
        }
    }

    /// Takes in what came of the action.
    pub fn advance(&mut self, event: SearchEvent)
        requires
            old(self)@.wf(),
            old(self)@.fits(event@),
        ensures
            final(self)@ == old(self)@.after(event@),
            final(self)@.wf(),
    {
        let ghost start = self@;
        let mut step = SearchStep::Query;
        std::mem::swap(&mut step, &mut self.step);
        let next = match (step, event) {
            (SearchStep::Finished { hits }, _) => SearchStep::Finished { hits },
            (SearchStep::Failed { reason }, _) => SearchStep::Failed { reason },
            (_, SearchEvent::Error { reason }) => SearchStep::Failed { reason },
            (SearchStep::EmbedQuery, SearchEvent::Embedded { vectors }) => if vectors == 0 {
                SearchStep::Failed {
                    reason: "Ollama no devolvió ningún embedding para la query".to_owned(),
                }
            } else {
                SearchStep::Query
            },
            (SearchStep::Query, SearchEvent::Results { hits }) => {
                if self.scope.covers_all() {
                    if hits.len() > 1 {
                        SearchStep::Rerank { hits }
                    } else {
                        proof {
                            lemma_numbered_truncated(order::hits_view(hits@), self.top_k);
                        }
                        choose_hits(truncate_hits(hits, self.top_k))
                    }
                } else {
                    choose_hits(hits)
                }
            },
            (SearchStep::Rerank { hits }, SearchEvent::Reranked { scores }) => {
                proof {
                    let all = order::hits_view(hits@);
                    let given = reranker::scores_view(scores);
                    lemma_numbered_reranked(all, given);
                    lemma_numbered_truncated(reranker::reranked(all, given), self.top_k);
                }
                choose_hits(truncate_hits(reranker::rerank(hits, scores), self.top_k))
            },
            (SearchStep::Neighbours { hits, keys: _ }, SearchEvent::Fetched { chunks }) =>
                SearchStep::Finished { hits: with_neighbours(hits, chunks) },
            (step, _) => step,
        };
        self.step = next;
        assert(self@ == start.after(event@));
    }

    /// The hits, once the search is finished.
    pub fn finish(self) -> (r: Result<Vec<ChunkHit>, String>)
        ensures
            match self.step {
                SearchStep::Finished { hits } => r matches Ok(h) && h == hits,
                SearchStep::Failed { reason } => r matches Err(e) && e == reason,
                _ => r is Err,
            },
    {
        match self.step {
            SearchStep::Finished { hits } => Ok(hits),
            SearchStep::Failed { reason } => Err(reason),
            _ => Err(String::new()),
        }
    }
}

/// These hits are all of one recording.
pub open spec fn all_in(hits: Seq<ChunkHitView>, audio_id: Seq<char>) -> bool {
    forall|i: int| 0 <= i < hits.len() ==> (#[trigger] hits[i]).chunk.audio_id == audio_id
}

impl SearchStepView {
    /// Whatever the state holds is of one recording. Within one nothing is reranked.
    pub open spec fn confined(self, audio_id: Seq<char>) -> bool {
        match self {
            SearchStepView::Rerank { hits } => false,
            SearchStepView::Neighbours { hits, keys } => {
                &&& all_in(hits, audio_id)
                &&& forall|i: int| 0 <= i < keys.len() ==> (#[trigger] keys[i]).0 == audio_id
            },
            SearchStepView::Finished { hits } => all_in(hits, audio_id),
            _ => true,
        }
    }
}

impl SearchEventView {
    /// Whatever came back is of one recording.
    pub open spec fn confined(self, audio_id: Seq<char>) -> bool {
        match self {
            SearchEventView::Results { hits } => all_in(hits, audio_id),
            SearchEventView::Fetched { chunks } => all_in(unscored(chunks), audio_id),
            _ => true,
        }
    }
}

proof fn lemma_sorted_all_in(hits: Seq<ChunkHitView>, audio_id: Seq<char>)
    requires
        all_in(hits, audio_id),
    ensures
        all_in(order::sorted::<ByPlace>(hits), audio_id),
{
    let sorted = order::sorted::<ByPlace>(hits);
    order::sorting_is_stable::<ByPlace>(hits);
    assert forall|i: int| 0 <= i < sorted.len() implies (#[trigger] sorted[i]).chunk.audio_id
        == audio_id by {
        assert(sorted.contains(sorted[i]));
        sorted.to_multiset_ensures();
        hits.to_multiset_ensures();
        assert(hits.to_multiset().count(sorted[i]) > 0);
        assert(hits.contains(sorted[i]));
    }
}

/// A search in one recording stays in it: it asks for points of that recording, and for
/// neighbours of that recording, and nothing else; so if what comes back is of the recording, so
/// is the answer.
pub proof fn search_stays_in_its_recording(
    run: SearchRunView,
    event: SearchEventView,
    audio_id: Seq<char>,
)
    requires
        run.scope == SearchScopeView::Audio(audio_id),
        run.step.confined(audio_id),
        event.confined(audio_id),
    ensures
        run.action() matches SearchActionView::Query { limit, audio_id: asked } ==> asked == Some(
            audio_id,
        ),
        run.after(event).scope == run.scope,
        run.after(event).step.confined(audio_id),
{
    match (run.step, event) {
        (SearchStepView::Query, SearchEventView::Results { hits }) => {
            let n = hits.len() as int;
            let keys = neighbours(hits, n);
            neighbours_are_adjacent(hits, n);
            assert forall|i: int| 0 <= i < keys.len() implies (#[trigger] keys[i]).0 == audio_id by {
                assert(keys.contains(keys[i]));
                assert(is_neighbour(hits, n, keys[i]));
            }
            lemma_sorted_all_in(hits, audio_id);
        },
        (SearchStepView::Neighbours { hits, keys }, SearchEventView::Fetched { chunks }) => {
            let all = hits + unscored(chunks);
            assert(all_in(all, audio_id)) by {
                assert forall|i: int| 0 <= i < all.len() implies (#[trigger] all[i]).chunk.audio_id
                    == audio_id by {
                    if i >= hits.len() {
                        assert(all[i] == unscored(chunks)[i - hits.len()]);
                    }
                }
            }
            lemma_sorted_all_in(all, audio_id);
        },
        _ => {},
    }
}

/// Only a search over everything is reranked.
pub proof fn one_recording_is_never_reranked(run: SearchRunView, event: SearchEventView)
    requires
        run.scope is Audio,
        !(run.step is Rerank),
    ensures
        run.after(event).scope is Audio,
        !(run.after(event).step is Rerank),
{
}

/// A failing reranker costs the search its order, not its answer: the hits of the vector search
/// go on in their own order.
pub proof fn failed_reranking_keeps_the_order(run: SearchRunView, hits: Seq<ChunkHitView>)
    requires
        run.step == (SearchStepView::Rerank { hits }),
    ensures
        run.after(SearchEventView::Reranked { scores: None }).step == chosen(
            truncated(hits, run.top_k),
        ),
{
}

/// What a finished search answers is in the order of recordings and places, and holds exactly the
/// chosen hits with their scores and the fetched neighbours without.
pub proof fn answer_is_in_order_of_place(
    hits: Seq<ChunkHitView>,
    chunks: Seq<ChunkPayloadView>,
)
    ensures
        ({
            let answer = order::sorted::<ByPlace>(hits + unscored(chunks));
            &&& order::in_order::<ByPlace>(answer)
            &&& answer.len() == hits.len() + chunks.len()
            &&& answer.to_multiset() == (hits + unscored(chunks)).to_multiset()
        }),
{
    order::sorting_is_stable::<ByPlace>(hits + unscored(chunks));
}

/// A search over everything goes on with at most `top_k` hits.
pub proof fn at_most_top_k_are_chosen(hits: Seq<ChunkHitView>, scores: Option<Seq<Binary32>>, top_k: u64)
    ensures
        truncated(reranker::reranked(hits, scores), top_k).len() <= top_k,
        truncated(hits, top_k).len() <= top_k,
        hits.len() <= top_k ==> truncated(reranker::reranked(hits, scores), top_k).len() == hits.len(),
{
    reranker::reranking_keeps_every_chunk(hits, scores);
}

impl SearchStepView {
    /// The hits that a state goes on with or answers.
    pub open spec fn held(self) -> Seq<ChunkHitView> {
        match self {
            SearchStepView::Neighbours { hits, keys } => hits,
            SearchStepView::Finished { hits } => hits,
            _ => Seq::empty(),
        }
    }
}

/// What a search asks for first: the vector of its own query, by its own model; then the points
/// nearest to it, of its own recording if it has one, as many as are wanted, or over everything
/// the whole pool for the reranker if that is more.
pub proof fn search_asks_for_its_own_query(run: SearchRunView)
    ensures
        run.step is EmbedQuery ==> run.action() == (SearchActionView::EmbedQuery {
            model: run.model,
            text: run.query,
        }),
        run.step is Query ==> {
            &&& run.action() matches SearchActionView::Query { limit, audio_id }
            &&& run.scope matches SearchScopeView::Audio(a) ==> audio_id == Some(a) && limit
                == run.top_k
            &&& run.scope is AllCorpus ==> audio_id is None && limit >= run.top_k && limit
                >= run.pool && (limit == run.top_k || limit == run.pool)
        },
{
}

/// The reranker is asked about the query and the text of every hit, in the order of the hits.
pub proof fn reranker_sees_every_hit(run: SearchRunView, hits: Seq<ChunkHitView>)
    requires
        run.step == (SearchStepView::Rerank { hits }),
    ensures
        ({
            &&& run.action() matches SearchActionView::Rerank { query, texts }
            &&& query == run.query
            &&& texts.len() == hits.len()
            &&& forall|i: int| 0 <= i < hits.len() ==> #[trigger] texts[i] == hits[i].chunk.text
        }),
{
}

/// The identifiers that are asked for are those under which the neighbours are stored: the `i`-th
/// is made of the recording and the number of the `i`-th neighbour, and is the one under which the
/// embeddings of that recording store that chunk.
pub proof fn neighbours_are_fetched_by_their_own_points(
    run: SearchRunView,
    hits: Seq<ChunkHitView>,
    keys: Seq<(Seq<char>, int)>,
    i: int,
    storing: embeddings::EmbeddingRunView,
    point: embeddings::PointView,
)
    requires
        run.step == (SearchStepView::Neighbours { hits, keys }),
        0 <= i < keys.len(),
        keys[i].1 >= 0,
        storing.action() == (embeddings::EmbeddingActionView::Upsert { point }),
    ensures
        ({
            &&& run.action() matches SearchActionView::Fetch { ids }
            &&& ids.len() == keys.len()
            &&& ids[i] == ids::name_uuid(keys[i].0.push(':') + text::decimal(keys[i].1 as nat))
            &&& storing.audio_id == keys[i].0 && point.chunk_id == keys[i].1 ==> ids[i] == point.id
        }),
{
}

/// The chunk `n` of the recording `audio` stands directly before or behind one of the hits, and is
/// no hit itself.
pub open spec fn stands_beside(hits: Seq<ChunkHitView>, audio: Seq<char>, n: int) -> bool {
    &&& n >= 0
    &&& forall|j: int|
        0 <= j < hits.len() ==> !((#[trigger] hits[j]).chunk.audio_id == audio
            && hits[j].chunk.chunk_id == n)
    &&& exists|j: int|
        0 <= j < hits.len() && (#[trigger] hits[j]).chunk.audio_id == audio && (
        hits[j].chunk.chunk_id == n + 1 || hits[j].chunk.chunk_id + 1 == n)
}

proof fn lemma_stands_beside(hits: Seq<ChunkHitView>, key: (Seq<char>, int))
    ensures
        is_neighbour(hits, hits.len() as int, key) <==> stands_beside(hits, key.0, key.1),
{
    let keys = keys_of(hits);
    assert(keys.contains(key) <==> exists|j: int|
        0 <= j < hits.len() && (#[trigger] hits[j]).chunk.audio_id == key.0
            && hits[j].chunk.chunk_id == key.1) by {
        if keys.contains(key) {
            let j = choose|j: int| 0 <= j < keys.len() && keys[j] == key;
            assert(hits[j].chunk.audio_id == key.0 && hits[j].chunk.chunk_id == key.1);
        }
        if exists|j: int|
            0 <= j < hits.len() && (#[trigger] hits[j]).chunk.audio_id == key.0
                && hits[j].chunk.chunk_id == key.1 {
            let j = choose|j: int|
                0 <= j < hits.len() && (#[trigger] hits[j]).chunk.audio_id == key.0
                    && hits[j].chunk.chunk_id == key.1;
            assert(keys[j] == key);
        }
    }
    if is_neighbour(hits, hits.len() as int, key) {
        let j = choose|j: int| 0 <= j < hits.len() && beside(key, key_of(#[trigger] hits[j]));
        assert(hits[j].chunk.audio_id == key.0);
    }
    if stands_beside(hits, key.0, key.1) {
        let j = choose|j: int|
            0 <= j < hits.len() && (#[trigger] hits[j]).chunk.audio_id == key.0 && (
            hits[j].chunk.chunk_id == key.1 + 1 || hits[j].chunk.chunk_id + 1 == key.1);
        assert(beside(key, key_of(hits[j])));
    }
}

/// The same hits, in whatever order.
pub open spec fn same_hits(a: Seq<ChunkHitView>, b: Seq<ChunkHitView>) -> bool {
    a.to_multiset() == b.to_multiset()
}

/// Hits in the order of their recordings, and within one in the order of their chunks.
pub open spec fn by_place(hits: Seq<ChunkHitView>) -> bool {
    forall|i: int, j: int|
        #![trigger hits[i], hits[j]]
        0 <= i < j < hits.len() ==> text::at_most(hits[i].chunk.audio_id, hits[j].chunk.audio_id)
            && (hits[i].chunk.audio_id == hits[j].chunk.audio_id ==> hits[i].chunk.chunk_id
            <= hits[j].chunk.chunk_id)
}

proof fn lemma_by_place(hits: Seq<ChunkHitView>)
    ensures
        by_place(order::sorted::<ByPlace>(hits)),
        same_hits(order::sorted::<ByPlace>(hits), hits),
        order::sorted::<ByPlace>(hits).len() == hits.len(),
{
    order::sorting_is_stable::<ByPlace>(hits);
    let out = order::sorted::<ByPlace>(hits);
    assert forall|i: int, j: int|
        #![trigger out[i], out[j]]
        0 <= i < j < out.len() implies text::at_most(out[i].chunk.audio_id, out[j].chunk.audio_id)
        && (out[i].chunk.audio_id == out[j].chunk.audio_id ==> out[i].chunk.chunk_id
        <= out[j].chunk.chunk_id) by {
        assert(<ByPlace as order::HitOrder>::le(out[i], out[j]));
        if out[i].chunk.audio_id == out[j].chunk.audio_id {
            text::at_most_is_total(out[i].chunk.audio_id, out[j].chunk.audio_id);
        }
    }
}

/// The identifier is that of a chunk beside one of the hits.
pub open spec fn names_a_neighbour(hits: Seq<ChunkHitView>, id: Seq<char>) -> bool {
    exists|audio: Seq<char>, n: nat|
        stands_beside(hits, audio, n as int) && id == #[trigger] ids::name_uuid(
            audio.push(':') + text::decimal(n),
        )
}

/// What is done once the hits are picked: the chunks beside them are asked for, all of them and no
/// other, in their own recordings; where there are none, the hits are the answer, in order of
/// place.
pub open spec fn settles(run: SearchRunView, picked: Seq<ChunkHitView>) -> bool {
    match run.action() {
        SearchActionView::Fetch { ids } => {
            &&& run.step.held() == picked
            &&& forall|audio: Seq<char>, n: nat|
                stands_beside(picked, audio, n as int) ==> ids.contains(
                    #[trigger] ids::name_uuid(audio.push(':') + text::decimal(n)),
                )
            &&& forall|i: int| 0 <= i < ids.len() ==> names_a_neighbour(picked, #[trigger] ids[i])
        },
        SearchActionView::Finish => {
            &&& same_hits(run.step.held(), picked)
            &&& by_place(run.step.held())
            &&& forall|audio: Seq<char>, n: int| !#[trigger] stands_beside(picked, audio, n)
        },
        _ => false,
    }
}

proof fn lemma_settles(run: SearchRunView, picked: Seq<ChunkHitView>)
    requires
        run.step == chosen(picked),
    ensures
        settles(run, picked),
{
    let n = picked.len() as int;
    let keys = neighbours(picked, n);
    neighbours_are_adjacent(picked, n);
    if keys.len() == 0 {
        lemma_by_place(picked);
        assert forall|audio: Seq<char>, m: int| !#[trigger] stands_beside(picked, audio, m) by {
            lemma_stands_beside(picked, (audio, m));
            assert(!keys.contains((audio, m)));
        }
    } else {
        let ids = point_ids(keys);
        assert forall|audio: Seq<char>, m: nat| stands_beside(picked, audio, m as int) implies
            ids.contains(#[trigger] ids::name_uuid(audio.push(':') + text::decimal(m))) by {
            lemma_stands_beside(picked, (audio, m as int));
            assert(keys.contains((audio, m as int)));
            let k = choose|k: int| 0 <= k < keys.len() && keys[k] == (audio, m as int);
            assert(ids[k] == ids::name_uuid(audio.push(':') + text::decimal(m)));
        }
        assert(run.action() == (SearchActionView::Fetch { ids }));
        assert forall|i: int| 0 <= i < ids.len() implies names_a_neighbour(
            picked,
            #[trigger] ids[i],
        ) by {
            let key = keys[i];
            assert(keys.contains(key));
            assert(is_neighbour(picked, n, key));
            lemma_stands_beside(picked, key);
            assert(ids[i] == ids::name_uuid(key.0.push(':') + text::decimal(key.1 as nat)));
            assert(stands_beside(picked, key.0, (key.1 as nat) as int));
        }
    }
}

/// A search in one recording goes on with every hit the store gave, as they came; a search over
/// everything that found at most one goes on with it, if any is wanted at all. Either asks for the
/// chunks beside its hits, in the hits' own recordings, and for no other.
pub proof fn found_hits_are_taken_with_their_neighbours(
    run: SearchRunView,
    hits: Seq<ChunkHitView>,
)
    requires
        run.step is Query,
    ensures
        ({
            let next = run.after(SearchEventView::Results { hits });
            &&& run.scope is Audio ==> settles(next, hits)
            &&& run.scope is AllCorpus && hits.len() <= 1 && run.top_k >= 1 ==> settles(next, hits)
            &&& run.scope is AllCorpus && hits.len() <= 1 && run.top_k == 0 ==> settles(
                next,
                Seq::empty(),
            )
            &&& run.scope is AllCorpus && hits.len() > 1 ==> next.step == (SearchStepView::Rerank {
                hits,
            })
        }),
{
    let next = run.after(SearchEventView::Results { hits });
    if run.scope is Audio || hits.len() <= 1 && run.top_k >= 1 {
        lemma_settles(next, hits);
    } else if hits.len() <= 1 {
        assert(truncated(hits, run.top_k) =~= Seq::<ChunkHitView>::empty());
        lemma_settles(next, Seq::empty());
    }
}

/// Over everything, the search goes on with the `top_k` hits the reranker liked best, or with all
/// where there are no more: each is one of the hits with the score given for it, and no hit that
/// was left out has a higher score than one that was taken.
pub proof fn best_hits_are_taken(run: SearchRunView, hits: Seq<ChunkHitView>, scores: Seq<Binary32>)
    requires
        run.step == (SearchStepView::Rerank { hits }),
        hits.len() > 1,
        scores.len() == hits.len(),
    ensures
        ({
            let next = run.after(SearchEventView::Reranked { scores: Some(scores) });
            exists|all: Seq<ChunkHitView>, picked: Seq<ChunkHitView>|
                #![trigger settles(next, picked), all.len()]
                {
                    &&& settles(next, picked)
                    &&& all.len() == hits.len()
                    &&& picked.len() == (if run.top_k < hits.len() {
                        run.top_k as int
                    } else {
                        hits.len() as int
                    })
                    &&& picked == all.take(picked.len() as int)
                    &&& forall|i: int|
                        0 <= i < hits.len() ==> all.contains(
                            ChunkHitView {
                                chunk: (#[trigger] hits[i]).chunk,
                                score: Some(scores[i]),
                            },
                        )
                    &&& forall|i: int, j: int|
                        0 <= i < j < all.len() ==> (#[trigger] all[i]).score->0.total_rank() >= (
                        #[trigger] all[j]).score->0.total_rank()
                }
        }),
{
    let next = run.after(SearchEventView::Reranked { scores: Some(scores) });
    let all = reranker::reranked(hits, Some(scores));
    let picked = truncated(all, run.top_k);
    reranker::scores_go_to_their_own_hits(hits, scores);
    lemma_settles(next, picked);
    assert(picked == all.take(picked.len() as int));
    assert(settles(next, picked) && all.len() == hits.len());
}

/// Where the reranker failed, the search goes on with the first `top_k` hits as the store ordered
/// them.
pub proof fn failed_reranker_takes_the_first_hits(run: SearchRunView, hits: Seq<ChunkHitView>)
    requires
        run.step == (SearchStepView::Rerank { hits }),
    ensures
        ({
            let next = run.after(SearchEventView::Reranked { scores: None });
            &&& run.top_k < hits.len() ==> settles(next, hits.take(run.top_k as int))
            &&& run.top_k >= hits.len() ==> settles(next, hits)
        }),
{
    lemma_settles(
        run.after(SearchEventView::Reranked { scores: None }),
        truncated(hits, run.top_k),
    );
}

/// The answer of a search is its hits with their scores and the chunks that were fetched beside
/// them without one, each as it is, in the order of recordings and chunks.
pub proof fn answer_is_the_hits_and_their_neighbours(
    run: SearchRunView,
    hits: Seq<ChunkHitView>,
    keys: Seq<(Seq<char>, int)>,
    chunks: Seq<ChunkPayloadView>,
)
    requires
        run.step == (SearchStepView::Neighbours { hits, keys }),
    ensures
        ({
            let next = run.after(SearchEventView::Fetched { chunks });
            &&& next.step matches SearchStepView::Finished { hits: answer }
            &&& answer.len() == hits.len() + chunks.len()
            &&& by_place(answer)
            &&& forall|i: int| 0 <= i < hits.len() ==> answer.contains(#[trigger] hits[i])
            &&& forall|i: int|
                0 <= i < chunks.len() ==> answer.contains(
                    ChunkHitView { chunk: #[trigger] chunks[i], score: None },
                )
            &&& forall|j: int|
                0 <= j < answer.len() ==> hits.contains(#[trigger] answer[j]) || (
                answer[j].score is None && chunks.contains(answer[j].chunk))
        }),
{
    broadcast use vstd::seq_lib::group_to_multiset_ensures;

    let all = hits + unscored(chunks);
    let answer = order::sorted::<ByPlace>(all);
    lemma_by_place(all);
    assert forall|i: int| 0 <= i < hits.len() implies answer.contains(#[trigger] hits[i]) by {
        assert(all[i] == hits[i]);
        assert(all.to_multiset().count(all[i]) > 0);
    }
    assert forall|i: int| 0 <= i < chunks.len() implies answer.contains(
        ChunkHitView { chunk: #[trigger] chunks[i], score: None },
    ) by {
        let k = hits.len() + i;
        assert(all[k] == (ChunkHitView { chunk: chunks[i], score: None }));
        assert(all.to_multiset().count(all[k]) > 0);
    }
    assert forall|j: int| 0 <= j < answer.len() implies hits.contains(#[trigger] answer[j]) || (
    answer[j].score is None && chunks.contains(answer[j].chunk)) by {
        assert(answer.to_multiset().count(answer[j]) > 0);
        assert(all.contains(answer[j]));
        let k = choose|k: int| 0 <= k < all.len() && all[k] == answer[j];
        if k < hits.len() {
            assert(hits[k] == answer[j]);
        } else {
            assert(chunks[k - hits.len()] == answer[j].chunk);
        }
    }
}

/// A search that lost a service fails with its reason, and stays failed; without a vector for the
/// query nothing is searched.
pub proof fn failed_searches_say_why(run: SearchRunView, reason: Seq<char>, later: SearchEventView)
    requires
        !(run.step is Finished),
        !(run.step is Failed),
    ensures
        ({
            let failed = run.after(SearchEventView::Error { reason });
            &&& failed.action() == (SearchActionView::Fail { reason })
            &&& failed.after(later).action() == (SearchActionView::Fail { reason })
        }),
        run.step is EmbedQuery ==> run.after(
            SearchEventView::Embedded { vectors: 0 },
        ).action() == (SearchActionView::Fail {
            reason: "Ollama no devolvió ningún embedding para la query"@,
        }),
        run.step is EmbedQuery ==> forall|n: usize|
            n > 0 ==> (#[trigger] run.after(SearchEventView::Embedded { vectors: n })).step is Query,
{
}

/// Every event is taken in, unless a hit has the largest number there is, which no chunk can
/// follow.
pub proof fn searches_take_in_all_but_the_last_number(
    run: SearchRunView,
    event: SearchEventView,
)
    ensures
        run.fits(event) <==> (event matches SearchEventView::Results { hits } ==> forall|i: int|
            0 <= i < hits.len() ==> (#[trigger] hits[i]).chunk.chunk_id != usize::MAX),
{
    if let SearchEventView::Results { hits } = event {
        if forall|i: int| 0 <= i < hits.len() ==> (#[trigger] hits[i]).chunk.chunk_id
            != usize::MAX {
            assert(numbered(hits));
        }
        if numbered(hits) {
            assert forall|i: int| 0 <= i < hits.len() implies (#[trigger] hits[i]).chunk.chunk_id
                != usize::MAX by {
                assert(hits[i].chunk.chunk_id < usize::MAX);
            }
        }
    }
}

} // verus!
