use speech_to_text::audio_pipeline::models::TranscriptEntry;
use speech_to_text::binary32::Binary32;
use speech_to_text::config::{Config, Environment, RagConfig};
use speech_to_text::rag::summary::{
    batches_within, build_batches, generate_summary, SummaryAction, SummaryEvent, BATCH_MAX_CHARS,
    BATCH_MAX_CHUNKS, NO_SPEECH_MESSAGE,
};

fn entry(chunk: usize, text: &str) -> TranscriptEntry {
    TranscriptEntry {
        chunk,
        start: Binary32 { bits: (chunk as f32 * 30.0).to_bits() },
        end: Binary32 { bits: ((chunk + 1) as f32 * 30.0).to_bits() },
        text: text.to_string(),
        avg_logprob: Binary32 { bits: (-0.2f32).to_bits() },
    }
}

fn rag() -> RagConfig {
    Config::load(&Environment { vars: Vec::new() }).unwrap().rag
}

#[test]
fn build_batches_saltea_texto_vacio_y_respeta_limite_de_chunks() {
    let mut entries: Vec<TranscriptEntry> = (0..BATCH_MAX_CHUNKS + 5)
        .map(|i| entry(i, "palabra"))
        .collect();
    entries.push(entry(BATCH_MAX_CHUNKS + 5, "")); // silencio, debe saltearse

    let batches = build_batches(entries);

    assert_eq!(
        batches.len(),
        2,
        "debería cerrar el primer lote a los 50 chunks"
    );
    assert_eq!(
        batches[0].split_whitespace().count(),
        BATCH_MAX_CHUNKS,
        "el primer lote debe tener exactamente BATCH_MAX_CHUNKS palabras (una por chunk)"
    );
}

#[test]
fn build_batches_sin_entradas_con_texto_da_lista_vacia() {
    let entries = vec![entry(0, ""), entry(1, "   ")];
    assert!(build_batches(entries).is_empty());
}

#[test]
fn generate_summary_sobre_transcript_vacio_no_llama_a_ollama() {
    let g = generate_summary(&vec![entry(0, "")], &rag());
    match g.action() {
        SummaryAction::Finish { text } => assert_eq!(text, NO_SPEECH_MESSAGE),
        other => panic!("{other:?}"),
    }
}

#[test]
fn batches_are_filled_by_characters_and_never_cut_a_text() {
    let entries = vec![entry(0, " ab "), entry(1, "cd"), entry(2, "ñ"), entry(3, "xxxxxxxx")];
    assert_eq!(batches_within(&entries, 50, 4), ["ab", "cd ñ", "xxxxxxxx"]);
    assert_eq!(batches_within(&entries, 50, 5), ["ab cd", "ñ", "xxxxxxxx"]);
    assert_eq!(batches_within(&entries, 50, 6), ["ab cd", "ñ", "xxxxxxxx"]);
    assert_eq!(batches_within(&entries, 50, 7), ["ab cd ñ", "xxxxxxxx"]);
    assert_eq!(batches_within(&entries, 50, 16), ["ab cd ñ xxxxxxxx"]);
    assert_eq!(batches_within(&entries, 50, 0), ["ab", "cd", "ñ", "xxxxxxxx"]);
    assert_eq!(batches_within(&entries, 1, 1000), ["ab", "cd", "ñ", "xxxxxxxx"]);
    assert_eq!(batches_within(&entries, 0, 1000), ["ab", "cd", "ñ", "xxxxxxxx"]);
}

#[test]
fn batches_joined_are_the_texts_joined() {
    let entries: Vec<TranscriptEntry> = (0..400)
        .map(|i| entry(i, &"palabra ".repeat(i % 90)))
        .collect();
    let wanted = entries
        .iter()
        .map(|e| e.text.trim())
        .filter(|t| !t.is_empty())
        .collect::<Vec<_>>()
        .join(" ");
    let batches = build_batches(entries);
    assert!(batches.len() > 5);
    assert!(batches.iter().all(|b| b.chars().count() <= BATCH_MAX_CHARS));
    assert_eq!(batches.join(" "), wanted);
}

#[test]
fn batch_limit_counts_characters_and_the_space_between_texts() {
    assert_eq!(build_batches(vec![entry(0, &"ñ".repeat(7000)), entry(1, "a")]).len(), 1);
    let long = "a".repeat(6000);
    assert_eq!(build_batches(vec![entry(0, &long), entry(1, &long)]).len(), 2);
    let full = build_batches(vec![entry(0, &long), entry(1, &"ñ".repeat(5999))]);
    assert_eq!(full.len(), 1);
    assert_eq!(full[0].chars().count(), BATCH_MAX_CHARS);
    let over = "a".repeat(BATCH_MAX_CHARS + 1);
    assert_eq!(build_batches(vec![entry(0, "b"), entry(1, &over), entry(2, "c")]).len(), 3);
}

#[test]
fn one_batch_takes_one_call_that_frees_the_model() {
    let mut g = generate_summary(&vec![entry(0, "Hola.")], &rag());
    match g.action() {
        SummaryAction::Chat { request } => {
            assert_eq!(request.model, "qcwind/qwen2.5-7b-instruct-Q4_K_M:latest");
            assert!(request.user.starts_with("Resumí brevemente"));
            assert!(request.user.ends_with("\n\nFragmento:\nHola."));
            assert_eq!((request.num_ctx, request.num_predict), (8192, Some(300)));
            assert!(request.unload);
            assert!(request.system.is_none());
        }
        other => panic!("{other:?}"),
    }
    g.advance(SummaryEvent::Reply { text: "Saludo.".to_string() });
    assert!(matches!(g.action(), SummaryAction::Finish { text } if text == "Saludo."));
}

#[test]
fn several_batches_are_consolidated_by_the_last_call() {
    let entries: Vec<TranscriptEntry> = (0..51).map(|i| entry(i, "palabra")).collect();
    let mut g = generate_summary(&entries, &rag());
    for reply in ["uno", "dos"] {
        match g.action() {
            SummaryAction::Chat { request } => assert!(!request.unload),
            other => panic!("{other:?}"),
        }
        g.advance(SummaryEvent::Reply { text: reply.to_string() });
    }
    match g.action() {
        SummaryAction::Chat { request } => {
            assert!(request.unload);
            assert_eq!(request.num_predict, Some(500));
            assert!(request.user.starts_with("A continuación tenés varios resúmenes"));
            assert!(request.user.ends_with("Resúmenes parciales:\nuno\n\ndos"));
        }
        other => panic!("{other:?}"),
    }
    g.advance(SummaryEvent::Reply { text: "todo".to_string() });
    assert!(matches!(g.action(), SummaryAction::Finish { text } if text == "todo"));
}

#[test]
fn a_failing_call_fails_the_summary() {
    let mut g = generate_summary(&vec![entry(0, "Hola.")], &rag());
    g.advance(SummaryEvent::Error { reason: "sin red".to_string() });
    assert!(matches!(g.action(), SummaryAction::Fail { reason } if reason == "sin red"));
}
