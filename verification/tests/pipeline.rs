use speech_to_text::audio_pipeline::models::{Checkpoint, JobMetadata, JobStatus, SummaryStatus};
use speech_to_text::audio_pipeline::pipeline::{
    actualizar_contador_repeticion, normalizar_texto, run_pipeline, ChunkSpan, LoopBreaker,
    PipelineAction, PipelineEvent, PipelineRun, REPETICIONES_PARA_LOOP,
};
use speech_to_text::audio_pipeline::whisper_runner::ChunkTranscription;
use speech_to_text::binary32::Binary32;

fn num(x: f32) -> Binary32 {
    Binary32 { bits: x.to_bits() }
}

#[test]
fn normalizar_texto_colapsa_espacios_y_saltos_de_linea() {
    assert_eq!(
        normalizar_texto("  Este es el canal\nde los estudiantes.  "),
        "Este es el canal de los estudiantes."
    );
}

#[test]
fn tres_chunks_identicos_alcanzan_el_umbral_de_loop() {
    let texto = "Este es el canal de la reunión de los estudiantes.";
    let mut anterior = String::new();
    let mut contador = 0;

    contador = actualizar_contador_repeticion(&anterior, texto, contador);
    assert_eq!(contador, 1);
    anterior = texto.to_string();

    contador = actualizar_contador_repeticion(&anterior, texto, contador);
    assert_eq!(contador, 2);

    contador = actualizar_contador_repeticion(&anterior, texto, contador);
    assert_eq!(contador, 3);
    assert!(contador >= REPETICIONES_PARA_LOOP);
}

#[test]
fn dos_chunks_identicos_no_alcanzan_el_umbral() {
    let texto = "por favor.";
    let mut contador = actualizar_contador_repeticion("", texto, 0);
    contador = actualizar_contador_repeticion(texto, texto, contador);
    assert_eq!(contador, 2);
    assert!(contador < REPETICIONES_PARA_LOOP);
}

#[test]
fn texto_distinto_resetea_el_contador() {
    let contador = actualizar_contador_repeticion("¡Suscríbete!", "Gracias por venir.", 5);
    assert_eq!(contador, 1);
}

#[test]
fn texto_vacio_nunca_cuenta_como_repeticion() {
    assert_eq!(actualizar_contador_repeticion("", "", 0), 0);
    assert_eq!(actualizar_contador_repeticion("algo", "", 5), 0);
}

#[test]
fn normalizar_agrees_with_split_whitespace() {
    for s in [
        "",
        " ",
        "\u{a0}\u{2003}x\u{3000}y\u{85}",
        "uno",
        " uno  dos\ttres\r\n",
        "á é\u{1680}í",
        "\u{200b}no es espacio\u{200b}",
        "\u{1c}\u{1f}",
    ] {
        let wanted = s.split_whitespace().collect::<Vec<_>>().join(" ");
        assert_eq!(normalizar_texto(s), wanted, "{s:?}");
        assert_eq!(normalizar_texto(&wanted), wanted);
    }
}

#[test]
fn white_space_is_the_unicode_property() {
    for n in 0..0x11_0000u32 {
        if let Some(c) = char::from_u32(n) {
            let wanted = (0x9..=0xd).contains(&n)
                || [0x20, 0x85, 0xa0, 0x1680, 0x2028, 0x2029, 0x202f, 0x205f, 0x3000].contains(&n)
                || (0x2000..=0x200a).contains(&n);
            assert_eq!(c.is_whitespace(), wanted, "{n:x}");
        }
    }
}

#[test]
fn breaker_needs_three_in_a_row_and_ignores_silence() {
    let mut b = LoopBreaker::new();
    let said = ["hola", " hola ", "hola", "hola\n", "", "", "", "chau", "hola", "hola"];
    let looping = [false, false, true, true, false, false, false, false, false, false];
    for (t, wanted) in said.iter().zip(looping) {
        assert_eq!(b.observe(t), wanted, "{t:?}");
    }
}

fn metadata() -> JobMetadata {
    JobMetadata {
        job_id: "id".to_string(),
        audio_path: "./jobs/id/audio.wav".to_string(),
        transcript_path: "./jobs/id/transcript.jsonl".to_string(),
        checkpoint_path: "./jobs/id/checkpoint.json".to_string(),
        status: JobStatus::Pending,
        created_at: "1".to_string(),
        transcript_ready: false,
        processing_started_at: None,
        transcript_ready_at: None,
        completed_at: None,
        summary_status: SummaryStatus::NotStarted,
        original_filename: None,
        duration_seconds: None,
        title: None,
        callback_url: None,
    }
}

fn opened(checkpoint: Checkpoint) -> PipelineRun {
    let mut run = run_pipeline(&metadata());
    assert!(matches!(run.action(), PipelineAction::OpenDecoder { path } if path == "./jobs/id/audio.wav"));
    run.advance(PipelineEvent::Done);
    assert!(matches!(run.action(), PipelineAction::OpenTranscript { path } if path == "./jobs/id/transcript.jsonl"));
    run.advance(PipelineEvent::Done);
    assert!(matches!(run.action(), PipelineAction::OpenMetrics { path } if path == "./jobs/id/metrics.jsonl"));
    run.advance(PipelineEvent::Done);
    assert!(matches!(run.action(), PipelineAction::LoadCheckpoint { path } if path == "./jobs/id/checkpoint.json"));
    run.advance(PipelineEvent::Loaded { checkpoint });
    run
}

fn transcription(text: &str) -> ChunkTranscription {
    ChunkTranscription {
        text: text.to_string(),
        avg_logprob: num(-0.5),
        no_speech_prob: num(0.25),
        entropy: num(3.0),
        segment_count: 2,
    }
}

fn span(index: usize) -> ChunkSpan {
    ChunkSpan {
        index,
        start_sec: num(index as f32 * 28.0),
        end_sec: num(index as f32 * 28.0 + 30.0),
        decode_ms: 5,
    }
}

#[test]
fn run_continues_behind_its_checkpoint() {
    let run = opened(Checkpoint { last_chunk: 4, processed_seconds: num(142.0) });
    match run.action() {
        PipelineAction::Seek { seconds, resume_from_chunk } => {
            assert_eq!(seconds, num(142.0));
            assert_eq!(resume_from_chunk, 5);
        }
        other => panic!("{other:?}"),
    }
}

#[test]
fn chunk_is_written_before_its_checkpoint_and_its_metrics_last() {
    let mut run = opened(Checkpoint::default());
    run.advance(PipelineEvent::Done);
    assert!(matches!(run.action(), PipelineAction::LoadModel));
    run.advance(PipelineEvent::Done);
    assert!(matches!(run.action(), PipelineAction::NextChunk));
    run.advance(PipelineEvent::Chunk { span: span(0) });
    assert!(matches!(run.action(), PipelineAction::Transcribe { force_fresh_context: false }));
    run.advance(PipelineEvent::Transcribed {
        transcription: transcription(" Añá "),
        score: num(0.6),
        whisper_ms: 7,
    });
    match run.action() {
        PipelineAction::Append { entry } => {
            assert_eq!(entry.chunk, 0);
            assert_eq!(entry.text, " Añá ");
            assert_eq!(entry.end, num(30.0));
        }
        other => panic!("{other:?}"),
    }
    run.advance(PipelineEvent::Done);
    match run.action() {
        PipelineAction::Save { checkpoint } => {
            assert_eq!(checkpoint, Checkpoint { last_chunk: 0, processed_seconds: num(30.0) });
        }
        other => panic!("{other:?}"),
    }
    run.advance(PipelineEvent::Saved { persist_ms: 11 });
    match run.action() {
        PipelineAction::AppendMetrics { metrics } => {
            assert_eq!((metrics.decode_ms, metrics.whisper_ms, metrics.persist_ms), (5, 7, 11));
            assert_eq!(metrics.total_ms, 23);
            assert_eq!(metrics.text_len, 5);
            assert_eq!(metrics.segment_count, 2);
            assert_eq!(metrics.score, num(0.6));
            assert!(!metrics.loop_suppressed);
        }
        other => panic!("{other:?}"),
    }
    run.advance(PipelineEvent::Done);
    run.advance(PipelineEvent::NoMoreChunks);
    assert!(matches!(run.action(), PipelineAction::Finish));
    run.advance(PipelineEvent::Error { reason: "tarde".to_string() });
    assert!(matches!(run.action(), PipelineAction::Finish));
}

#[test]
fn third_repetition_is_blanked_and_forces_a_fresh_context() {
    let mut run = opened(Checkpoint::default());
    run.advance(PipelineEvent::Done);
    run.advance(PipelineEvent::Done);
    let mut texts = Vec::new();
    let mut fresh = Vec::new();
    for i in 0..4 {
        run.advance(PipelineEvent::Chunk { span: span(i) });
        match run.action() {
            PipelineAction::Transcribe { force_fresh_context } => fresh.push(force_fresh_context),
            other => panic!("{other:?}"),
        }
        run.advance(PipelineEvent::Transcribed {
            transcription: transcription(if i < 3 { "Gracias." } else { "Otra cosa." }),
            score: num(1.0),
            whisper_ms: 0,
        });
        match run.action() {
            PipelineAction::Append { entry } => texts.push(entry.text),
            other => panic!("{other:?}"),
        }
        run.advance(PipelineEvent::Done);
        run.advance(PipelineEvent::Saved { persist_ms: 0 });
        match run.action() {
            PipelineAction::AppendMetrics { metrics } => {
                assert_eq!(metrics.loop_suppressed, i == 2);
                assert_eq!(metrics.text_len, if i < 3 { 8 } else { 10 });
            }
            other => panic!("{other:?}"),
        }
        run.advance(PipelineEvent::Done);
    }
    assert_eq!(texts, ["Gracias.", "Gracias.", "", "Otra cosa."]);
    assert_eq!(fresh, [false, false, false, true]);
}

#[test]
fn errors_end_the_run_with_their_reason() {
    let mut run = run_pipeline(&metadata());
    run.advance(PipelineEvent::Error { reason: "sin audio".to_string() });
    assert!(matches!(run.action(), PipelineAction::Fail { reason } if reason == "sin audio"));
}

#[test]
fn events_that_answer_nothing_change_nothing() {
    let mut run = run_pipeline(&metadata());
    run.advance(PipelineEvent::NoMoreChunks);
    run.advance(PipelineEvent::Saved { persist_ms: 1 });
    assert!(matches!(run.action(), PipelineAction::OpenDecoder { .. }));
}

#[test]
fn numbers_out_of_range_are_told_beforehand() {
    let mut run = run_pipeline(&metadata());
    run.advance(PipelineEvent::Done);
    run.advance(PipelineEvent::Done);
    run.advance(PipelineEvent::Done);
    let far = Checkpoint { last_chunk: usize::MAX, processed_seconds: num(1.0) };
    assert!(!run.can_advance(&PipelineEvent::Loaded { checkpoint: far }));
    assert!(run.can_advance(&PipelineEvent::Loaded { checkpoint: Checkpoint::default() }));
}

/// Runs over `total` chunks and stops after `limit` actions. Gives the numbers of the entries it
/// wrote and the last checkpoint it left.
fn cut_off(checkpoint: Option<Checkpoint>, total: usize, limit: usize) -> (Vec<usize>, Option<Checkpoint>) {
    let mut run = run_pipeline(&metadata());
    let mut next = 0;
    let mut written = Vec::new();
    let mut left = checkpoint;
    for _ in 0..limit {
        let event = match run.action() {
            PipelineAction::LoadCheckpoint { .. } => {
                PipelineEvent::Loaded { checkpoint: checkpoint.unwrap_or_default() }
            }
            PipelineAction::Seek { seconds, resume_from_chunk } => {
                if f32::from_bits(seconds.bits) > 0.0 {
                    next = resume_from_chunk;
                }
                PipelineEvent::Done
            }
            PipelineAction::NextChunk if next == total => PipelineEvent::NoMoreChunks,
            PipelineAction::NextChunk => {
                next += 1;
                PipelineEvent::Chunk { span: span(next - 1) }
            }
            PipelineAction::Transcribe { .. } => PipelineEvent::Transcribed {
                transcription: transcription(&format!("chunk {next}")),
                score: num(0.5),
                whisper_ms: 1,
            },
            PipelineAction::Append { entry } => {
                written.push(entry.chunk);
                PipelineEvent::Done
            }
            PipelineAction::Save { checkpoint } => {
                left = Some(checkpoint);
                PipelineEvent::Saved { persist_ms: 1 }
            }
            PipelineAction::Finish => break,
            _ => PipelineEvent::Done,
        };
        run.advance(event);
    }
    (written, left)
}

#[test]
fn resuming_repeats_at_most_one_chunk_and_misses_none() {
    for limit in 0..40 {
        let (first, left) = cut_off(None, 5, limit);
        let (second, end) = cut_off(left, 5, 1000);
        let mut all = first.clone();
        all.extend(second);
        let resumed = left.map_or(0, |c| c.last_chunk + 1);
        for n in 0..5 {
            let times = all.iter().filter(|c| **c == n).count();
            let twice = n == resumed && first.contains(&n);
            assert_eq!(times, if twice { 2 } else { 1 }, "{limit} {n}");
        }
        assert_eq!(end.unwrap().last_chunk, 4);
    }
}

#[test]
fn metrics_that_cannot_be_written_do_not_hold_up_the_run() {
    for (opens, writes) in [(true, true), (true, false), (false, false)] {
        let outcome = |good: bool| {
            if good {
                PipelineEvent::Done
            } else {
                PipelineEvent::Error { reason: "disco lleno".to_string() }
            }
        };
        let mut run = run_pipeline(&metadata());
        let mut next = 0;
        let mut written = Vec::new();
        let mut saved = Vec::new();
        let mut finished = false;
        for _ in 0..100 {
            let event = match run.action() {
                PipelineAction::OpenMetrics { .. } => outcome(opens),
                PipelineAction::AppendMetrics { .. } => outcome(writes),
                PipelineAction::LoadCheckpoint { .. } => {
                    PipelineEvent::Loaded { checkpoint: Checkpoint::default() }
                }
                PipelineAction::NextChunk if next == 3 => PipelineEvent::NoMoreChunks,
                PipelineAction::NextChunk => {
                    next += 1;
                    PipelineEvent::Chunk { span: span(next - 1) }
                }
                PipelineAction::Transcribe { .. } => PipelineEvent::Transcribed {
                    transcription: transcription(&format!("chunk {next}")),
                    score: num(0.5),
                    whisper_ms: 1,
                },
                PipelineAction::Append { entry } => {
                    written.push((entry.chunk, entry.text));
                    PipelineEvent::Done
                }
                PipelineAction::Save { checkpoint } => {
                    saved.push(checkpoint.last_chunk);
                    PipelineEvent::Saved { persist_ms: 1 }
                }
                PipelineAction::Finish => {
                    finished = true;
                    break;
                }
                PipelineAction::Fail { reason } => panic!("{reason}"),
                _ => PipelineEvent::Done,
            };
            run.advance(event);
        }
        assert!(finished);
        let wanted: Vec<_> = (0..3).map(|n| (n, format!("chunk {}", n + 1))).collect();
        assert_eq!(written, wanted);
        assert_eq!(saved, [0, 1, 2]);
    }
}
