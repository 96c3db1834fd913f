use speech_to_text::audio_pipeline::embeddings::{
    deterministic_point_id, ensure_collection, run_embedding_phase, EmbeddingAction, EmbeddingEvent,
    EmbeddingRun,
};
use speech_to_text::audio_pipeline::models::TranscriptEntry;
use speech_to_text::binary32::Binary32;
use speech_to_text::config::{Config, Environment, RagConfig};
use speech_to_text::handlers::rag_handler::{
    buscar_handler, question_answer, rag_answer_handler, search_answer, RagAnswerRequest,
    SearchRequest,
};
use speech_to_text::mcp::{rag_answer as tool_rag_answer, search_transcript, SearchTranscriptRequest};
use speech_to_text::rag::generation::{assemble_context, rag_answer, rag_search, RagAnswer};
use speech_to_text::rag::order::{stable_sort, ByPlace, ByScore};
use speech_to_text::rag::reranker::rerank;
use speech_to_text::rag::retrieval::{
    neighbour_keys, search, ChunkHit, ChunkPayload, ScopeArg, SearchAction, SearchEvent, SearchRun,
    SearchScope, Seconds,
};

fn num(x: f32) -> Binary32 {
    Binary32 { bits: x.to_bits() }
}

fn rag() -> RagConfig {
    Config::load(&Environment { vars: Vec::new() }).unwrap().rag
}

fn seconds(x: f32) -> Seconds {
    Seconds { value: num(x), shown: format!("{x:.1}") }
}

fn chunk(audio: &str, id: usize) -> ChunkPayload {
    ChunkPayload {
        audio_id: audio.to_string(),
        chunk_id: id,
        start: seconds(id as f32 * 28.0),
        end: seconds(id as f32 * 28.0 + 30.0),
        text: format!("{audio}{id}"),
        speaker: "unknown".to_string(),
        avg_logprob: num(-0.1),
    }
}

fn hit(audio: &str, id: usize, score: Option<f32>) -> ChunkHit {
    ChunkHit { chunk: chunk(audio, id), score: score.map(num) }
}

fn shown(hits: &[ChunkHit]) -> Vec<(String, Option<f32>)> {
    hits.iter()
        .map(|h| (h.chunk.text.clone(), h.score.map(|s| f32::from_bits(s.bits))))
        .collect()
}

fn texts(hits: &[ChunkHit]) -> Vec<String> {
    hits.iter().map(|h| h.chunk.text.clone()).collect()
}

#[test]
fn point_identifiers_depend_on_recording_and_chunk_alone() {
    assert_eq!(deterministic_point_id("test-audio", 3), "018a1af4-89ff-5499-96ae-024d02f395c5");
    assert_eq!(deterministic_point_id("test-audio", 3), deterministic_point_id("test-audio", 3));
    assert_ne!(deterministic_point_id("test-audio", 3), deterministic_point_id("test-audio", 4));
    assert_ne!(deterministic_point_id("a:1", 2), deterministic_point_id("a", 12));
    let wanted = uuid::Uuid::new_v5(&uuid::Uuid::NAMESPACE_OID, b"x:17").to_string();
    assert_eq!(deterministic_point_id("x", 17), wanted);
}

#[test]
fn collection_is_created_as_planned() {
    let plan = ensure_collection();
    assert_eq!((plan.name.as_str(), plan.vector_size), ("transcripts", 1024));
    assert!(plan.cosine_distance && plan.vectors_on_disk && plan.payload_on_disk);
    assert_eq!(plan.indexed_field, "audio_id");
}

fn entry(chunk: usize, text: &str) -> TranscriptEntry {
    TranscriptEntry {
        chunk,
        start: num(0.0),
        end: num(30.0),
        text: text.to_string(),
        avg_logprob: num(-0.2),
    }
}

fn line(n: usize) -> EmbeddingEvent {
    EmbeddingEvent::Line { line: format!("{{{n}}}") }
}

fn reading() -> EmbeddingRun {
    let mut run = run_embedding_phase("bge-m3", "aud", "t.jsonl");
    assert!(matches!(run.action(), EmbeddingAction::CheckCollection));
    run.advance(EmbeddingEvent::Exists { exists: true });
    assert!(matches!(run.action(), EmbeddingAction::OpenTranscript { path } if path == "t.jsonl"));
    run.advance(EmbeddingEvent::Done);
    run
}

#[test]
fn missing_collection_is_created_and_indexed_first() {
    let mut run = run_embedding_phase("bge-m3", "aud", "t.jsonl");
    run.advance(EmbeddingEvent::Exists { exists: false });
    assert!(matches!(run.action(), EmbeddingAction::CreateCollection));
    run.advance(EmbeddingEvent::Done);
    assert!(matches!(run.action(), EmbeddingAction::CreateIndex));
    run.advance(EmbeddingEvent::Done);
    assert!(matches!(run.action(), EmbeddingAction::OpenTranscript { .. }));
}

/// Embeds a transcript of these texts, where `None` stands for a blank line, and tells of each
/// request its text and whether it frees the model, and of each point its chunk and its text.
fn embedded(texts: &[Option<&str>]) -> (Vec<(String, bool)>, Vec<(usize, String)>) {
    let mut run = reading();
    let mut next = 0;
    let mut asked = Vec::new();
    let mut stored = Vec::new();
    loop {
        let event = match run.action() {
            EmbeddingAction::ReadLine if next == texts.len() => EmbeddingEvent::NoMoreLines,
            EmbeddingAction::ReadLine => {
                next += 1;
                match texts[next - 1] {
                    None => EmbeddingEvent::Line { line: "  ".to_string() },
                    Some(_) => line(next - 1),
                }
            }
            EmbeddingAction::Parse { line } => {
                assert_eq!(line, format!("{{{}}}", next - 1));
                EmbeddingEvent::Parsed { entry: entry(next - 1, texts[next - 1].unwrap()) }
            }
            EmbeddingAction::Embed { model, text, unload } => {
                assert_eq!(model, "bge-m3");
                asked.push((text, unload));
                EmbeddingEvent::Embedded { vectors: 1 }
            }
            EmbeddingAction::Upsert { point } => {
                assert_eq!(point.id, deterministic_point_id("aud", point.chunk_id));
                assert_eq!(point.speaker, "unknown");
                assert_eq!(point.audio_id, "aud");
                stored.push((point.chunk_id, point.text));
                EmbeddingEvent::Done
            }
            EmbeddingAction::Finish => return (asked, stored),
            other => panic!("{other:?}"),
        };
        run.advance(event);
    }
}

#[test]
fn silent_chunks_and_blank_lines_are_not_embedded() {
    let (asked, stored) = embedded(&[None, Some("Hola."), Some(" "), Some("Chau.")]);
    assert_eq!(asked, [("Hola.".to_string(), false), ("Chau.".to_string(), true)]);
    assert_eq!(stored, [(1, "Hola.".to_string()), (3, "Chau.".to_string())]);
    assert_eq!(embedded(&[]), (vec![], vec![]));
    assert_eq!(embedded(&[None, Some("")]), (vec![], vec![]));
}

#[test]
fn model_is_freed_though_the_transcript_ends_in_silence() {
    let (asked, stored) = embedded(&[Some("uno"), Some("dos"), Some(""), Some("\u{a0}"), None]);
    assert_eq!(asked, [("uno".to_string(), false), ("dos".to_string(), true)]);
    assert_eq!(stored.len(), 2);
    let (asked, _) = embedded(&[Some("solo"), Some("")]);
    assert_eq!(asked, [("solo".to_string(), true)]);
}

#[test]
fn an_unreadable_line_fails_the_phase_behind_the_entries_before_it() {
    let mut run = reading();
    run.advance(line(0));
    run.advance(EmbeddingEvent::Parsed { entry: entry(0, "Hola.") });
    assert!(matches!(run.action(), EmbeddingAction::ReadLine));
    run.advance(line(1));
    run.advance(EmbeddingEvent::Error { reason: "no es JSON".to_string() });
    assert!(matches!(run.action(), EmbeddingAction::Embed { text, unload: true, .. } if text == "Hola."));
    run.advance(EmbeddingEvent::Embedded { vectors: 1 });
    assert!(matches!(run.action(), EmbeddingAction::Upsert { point } if point.chunk_id == 0));
    run.advance(EmbeddingEvent::Done);
    assert!(matches!(run.action(), EmbeddingAction::Fail { reason } if reason == "no es JSON"));
}

#[test]
fn an_entry_without_a_vector_fails_the_phase() {
    let mut run = reading();
    run.advance(line(0));
    run.advance(EmbeddingEvent::Parsed { entry: entry(12, "x") });
    run.advance(EmbeddingEvent::NoMoreLines);
    run.advance(EmbeddingEvent::Embedded { vectors: 0 });
    match run.action() {
        EmbeddingAction::Fail { reason } => {
            assert_eq!(reason, "Ollama no devolvió ningún embedding para el chunk 12");
        }
        other => panic!("{other:?}"),
    }
}

fn started(scope: SearchScope, top_k: u64) -> SearchRun {
    let mut run = search("¿qué?", scope, top_k, &rag());
    match run.action() {
        SearchAction::EmbedQuery { model, text } => {
            assert_eq!((model.as_str(), text.as_str()), ("bge-m3", "¿qué?"));
        }
        other => panic!("{other:?}"),
    }
    run.advance(SearchEvent::Embedded { vectors: 1 });
    run
}

#[test]
fn search_in_one_recording_takes_its_hits_and_their_neighbours() {
    let mut run = started(SearchScope::Audio("a".to_string()), 8);
    match run.action() {
        SearchAction::Query { limit, audio_id } => {
            assert_eq!((limit, audio_id.as_deref()), (8, Some("a")));
        }
        other => panic!("{other:?}"),
    }
    let hits = vec![hit("a", 5, Some(0.9)), hit("a", 0, Some(0.8)), hit("a", 6, Some(0.7))];
    assert!(run.can_advance(&SearchEvent::Embedded { vectors: 0 }));
    run.advance(SearchEvent::Results { hits });
    match run.action() {
        SearchAction::Fetch { ids } => {
            let wanted: Vec<String> =
                [4, 1, 7].iter().map(|n| deterministic_point_id("a", *n)).collect();
            assert_eq!(ids, wanted);
        }
        other => panic!("{other:?}"),
    }
    run.advance(SearchEvent::Fetched { chunks: vec![chunk("a", 7), chunk("a", 1)] });
    assert!(matches!(run.action(), SearchAction::Finish));
    assert_eq!(
        shown(&run.finish().unwrap()),
        [
            ("a0".to_string(), Some(0.8)),
            ("a1".to_string(), None),
            ("a5".to_string(), Some(0.9)),
            ("a6".to_string(), Some(0.7)),
            ("a7".to_string(), None),
        ]
    );
}

#[test]
fn search_over_everything_reranks_a_pool_and_cuts_it() {
    let mut run = started(SearchScope::AllCorpus, 2);
    match run.action() {
        SearchAction::Query { limit, audio_id } => assert_eq!((limit, audio_id), (30, None)),
        other => panic!("{other:?}"),
    }
    let hits = vec![hit("b", 10, Some(0.9)), hit("a", 20, Some(0.8)), hit("c", 30, Some(0.7))];
    run.advance(SearchEvent::Results { hits });
    match run.action() {
        SearchAction::Rerank { query, texts } => {
            assert_eq!(query, "¿qué?");
            assert_eq!(texts, ["b10", "a20", "c30"]);
        }
        other => panic!("{other:?}"),
    }
    run.advance(SearchEvent::Reranked { scores: Some(vec![num(0.1), num(0.5), num(0.6)]) });
    match run.action() {
        SearchAction::Fetch { ids } => assert_eq!(ids.len(), 4),
        other => panic!("{other:?}"),
    }
    run.advance(SearchEvent::Fetched { chunks: Vec::new() });
    assert_eq!(
        shown(&run.finish().unwrap()),
        [("a20".to_string(), Some(0.5)), ("c30".to_string(), Some(0.6))]
    );
}

#[test]
fn a_failing_reranker_leaves_the_order_of_the_vector_search() {
    let mut run = started(SearchScope::AllCorpus, 2);
    let hits = vec![hit("b", 10, Some(0.9)), hit("a", 20, Some(0.8)), hit("c", 30, Some(0.7))];
    run.advance(SearchEvent::Results { hits });
    run.advance(SearchEvent::Reranked { scores: None });
    run.advance(SearchEvent::Fetched { chunks: Vec::new() });
    assert_eq!(
        shown(&run.finish().unwrap()),
        [("a20".to_string(), Some(0.8)), ("b10".to_string(), Some(0.9))]
    );
}

#[test]
fn a_single_hit_is_not_reranked() {
    let mut run = started(SearchScope::AllCorpus, 2);
    run.advance(SearchEvent::Results { hits: vec![hit("b", 0, Some(0.9))] });
    assert!(matches!(run.action(), SearchAction::Fetch { ids } if ids.len() == 1));
}

#[test]
fn large_top_k_is_asked_for_as_it_is() {
    let run = started(SearchScope::AllCorpus, 40);
    assert!(matches!(run.action(), SearchAction::Query { limit: 40, audio_id: None }));
}

#[test]
fn search_fails_without_a_vector_or_a_store() {
    let mut run = search("q", SearchScope::AllCorpus, 2, &rag());
    run.advance(SearchEvent::Embedded { vectors: 0 });
    assert_eq!(run.finish().unwrap_err(), "Ollama no devolvió ningún embedding para la query");
    let mut run = started(SearchScope::AllCorpus, 2);
    run.advance(SearchEvent::Error { reason: "sin red".to_string() });
    assert!(matches!(run.action(), SearchAction::Fail { reason } if reason == "sin red"));
}

#[test]
fn nothing_found_is_an_empty_answer() {
    let mut run = started(SearchScope::Audio("a".to_string()), 8);
    run.advance(SearchEvent::Results { hits: Vec::new() });
    assert!(run.finish().unwrap().is_empty());
}

#[test]
fn chunks_without_a_successor_are_told_beforehand() {
    let run = started(SearchScope::Audio("a".to_string()), 8);
    let mut last = hit("a", 0, None);
    last.chunk.chunk_id = usize::MAX;
    assert!(!run.can_advance(&SearchEvent::Results { hits: vec![last] }));
}

#[test]
fn neighbours_are_taken_once_and_never_from_the_hits() {
    let hits = vec![hit("a", 1, None), hit("a", 3, None), hit("b", 0, None), hit("a", 4, None)];
    let keys: Vec<(String, usize)> =
        neighbour_keys(&hits).into_iter().map(|k| (k.audio_id, k.chunk_id)).collect();
    let wanted = [("a", 0), ("a", 2), ("b", 1), ("a", 5)];
    let wanted: Vec<(String, usize)> = wanted.iter().map(|(a, n)| (a.to_string(), *n)).collect();
    assert_eq!(keys, wanted);
}

#[test]
fn sorting_is_stable_like_the_standard_sort() {
    let make = || {
        let mut hits = Vec::new();
        for (i, (a, n)) in [("b", 2), ("a", 9), ("b", 2), ("á", 0), ("a", 1), ("", 7), ("B", 1), ("ab", 0)]
            .iter()
            .enumerate()
        {
            let mut h = hit(a, *n, Some((i % 3) as f32));
            h.chunk.text = format!("{i}");
            hits.push(h);
        }
        hits
    };
    let mut wanted = make();
    wanted.sort_by(|a, b| {
        (&a.chunk.audio_id, a.chunk.chunk_id).cmp(&(&b.chunk.audio_id, b.chunk.chunk_id))
    });
    assert_eq!(texts(&stable_sort::<ByPlace>(make())), texts(&wanted));
    let mut wanted = make();
    wanted.sort_by(|a, b| {
        let x = f32::from_bits(a.score.unwrap().bits);
        let y = f32::from_bits(b.score.unwrap().bits);
        y.total_cmp(&x)
    });
    assert_eq!(texts(&stable_sort::<ByScore>(make())), texts(&wanted));
}

#[test]
fn reranking_replaces_scores_as_far_as_there_are_any() {
    let hits = vec![hit("a", 1, Some(0.9)), hit("a", 2, Some(0.2)), hit("a", 3, None)];
    let out = rerank(hits, Some(vec![num(0.1)]));
    assert_eq!(
        shown(&out),
        [
            ("a2".to_string(), Some(0.2)),
            ("a1".to_string(), Some(0.1)),
            ("a3".to_string(), None),
        ]
    );
    let out = rerank(vec![hit("a", 1, Some(0.9))], Some(vec![num(0.1)]));
    assert_eq!(shown(&out), [("a1".to_string(), Some(0.9))]);
}

#[test]
fn context_names_its_sources_and_marks_doubt() {
    let mut doubtful = hit("aud", 3, None);
    doubtful.chunk.avg_logprob = num(-0.7);
    doubtful.chunk.text = "¿dijo cinco?".to_string();
    let context = assemble_context(&vec![hit("aud", 2, None), doubtful], num(-0.6));
    assert_eq!(
        context,
        "[audio aud | chunk 2 | 56.0s-86.0s]\naud2\n\n\
         [audio aud | chunk 3 | 84.0s-114.0s [BAJA CONFIANZA — posible ruido de fondo o cross-talk]]\n\
         ¿dijo cinco?\n\n"
    );
}

#[test]
fn questions_are_answered_over_the_context() {
    let r = rag();
    match rag_answer("¿cuánto?", &Vec::new(), &r) {
        RagAnswer::Answer { text } => assert_eq!(
            text,
            "No se encontró contexto relevante en la transcripción para responder esta pregunta."
        ),
        other => panic!("{other:?}"),
    }
    match rag_answer("¿cuánto?", &vec![hit("aud", 2, None)], &r) {
        RagAnswer::Ask { request } => {
            assert_eq!(request.user, "¿cuánto?");
            let system = request.system.unwrap();
            assert!(system.starts_with("Sos un asistente que responde preguntas"));
            assert!(system.ends_with("\n\nContexto:\n[audio aud | chunk 2 | 56.0s-86.0s]\naud2\n\n"));
            assert_eq!((request.num_ctx, request.num_predict, request.unload), (4096, None, true));
        }
        other => panic!("{other:?}"),
    }
}

#[test]
fn requests_choose_scope_and_number_of_hits() {
    let r = rag();
    let q = |scope| SearchRequest { query: "q".to_string(), scope };
    let run = buscar_handler(q(ScopeArg::AllCorpus), &r);
    assert_eq!((run.top_k, &run.scope), (8, &SearchScope::AllCorpus));
    let run = buscar_handler(q(ScopeArg::Audio { audio_id: "a".to_string() }), &r);
    assert_eq!(run.scope, SearchScope::Audio("a".to_string()));
    assert_eq!(run.scope.clone(), run.scope);
    let question = RagAnswerRequest { question: "q".to_string(), scope: ScopeArg::AllCorpus };
    assert_eq!(rag_answer_handler(&question, &r).top_k, 6);
    assert_eq!(rag_search("q", SearchScope::AllCorpus, &r).query, "q");
    let tool = SearchTranscriptRequest { query: "q".to_string(), scope: ScopeArg::AllCorpus };
    assert_eq!(search_transcript(tool, &r).top_k, 8);
    let run = tool_rag_answer("q", ScopeArg::Audio { audio_id: "a".to_string() }, &r);
    assert_eq!((run.top_k, run.scope), (6, SearchScope::Audio("a".to_string())));
    assert_eq!(search_answer(Err("x".to_string())).unwrap_err().status, 500);
    assert_eq!(search_answer(Ok(vec![hit("a", 1, None)])).unwrap().len(), 1);
    assert_eq!(question_answer(Err("x".to_string())).unwrap_err().status, 500);
    assert_eq!(question_answer(Ok("sí".to_string())).unwrap(), "sí");
}
