use speech_to_text::audio_pipeline::decoder::{fades, NextChunk, StreamingDecoder, Window};
use speech_to_text::audio_pipeline::extraer_texto_aislado;
use speech_to_text::audio_pipeline::jsonl_writer::{JsonlWriter, LineReader};
use speech_to_text::audio_pipeline::whisper_runner::{
    transcribe_chunk, Sampling, Segment, WhisperRunner,
};
use speech_to_text::binary32::Binary32;
use speech_to_text::config::{ChunkingConfig, Config, Environment, Real};
use speech_to_text::text;

fn num(x: f32) -> Binary32 {
    Binary32 { bits: x.to_bits() }
}

fn span(seconds: f32) -> Real {
    Real {
        value: num(seconds),
        shown: seconds.to_string(),
        samples: (seconds * 16_000.0).round() as i64,
    }
}

fn cut(chunk: f32, overlap: f32) -> ChunkingConfig {
    ChunkingConfig {
        chunk_seconds: span(chunk),
        overlap_seconds: span(overlap),
        resampler_chunk_size: 1024,
    }
}

fn decoder() -> StreamingDecoder {
    StreamingDecoder::new("a.wav", &cut(30.0, 2.0)).unwrap()
}

fn window(index: usize, start: u64, end: u64) -> NextChunk {
    NextChunk::Chunk { window: Window { index, start, end } }
}

#[test]
fn primer_chunk_de_un_decoder_nuevo_arranca_en_index_0() {
    assert_eq!(decoder().next_chunk(480_000, false), window(0, 0, 480_000));
}

#[test]
fn seek_seconds_retoma_la_numeracion_de_chunk_desde_resume_from_chunk() {
    let mut d = decoder();
    d.seek_seconds(num(58.0), 58 * 16_000, 2);
    assert_eq!(d.next_chunk(2_000_000, false), window(2, 928_000, 1_408_000));
}

#[test]
fn seek_a_cero_en_decoder_nuevo_es_no_op_e_ignora_resume_from_chunk() {
    let mut d = decoder();
    d.seek_seconds(num(0.0), 0, 1);
    d.seek_seconds(num(-0.0), 5, 1);
    d.seek_seconds(num(-3.0), 5, 1);
    assert_eq!(d.next_chunk(480_000, false), window(0, 0, 480_000));
}

#[test]
fn overlap_below_zero_repeats_nothing() {
    let mut d = StreamingDecoder::new("a.wav", &cut(1.0, -2.0)).unwrap();
    assert_eq!(d.next_chunk(40_000, true), window(0, 0, 16_000));
    assert_eq!(d.next_chunk(40_000, true), window(1, 16_000, 32_000));
    assert_eq!(d.next_chunk(40_000, true), window(2, 32_000, 40_000));
    assert_eq!(d.next_chunk(40_000, true), NextChunk::EndOfAudio);
    assert!(StreamingDecoder::new("a.wav", &cut(-1.0, -2.0)).is_err());
    assert!(StreamingDecoder::new("a.wav", &cut(0.0, -2.0)).is_err());
}

#[test]
fn numbering_continues_behind_a_seek() {
    for (seconds, index) in [(58.0, 7), (0.5, 7), (0.0, 0), (-1.0, 0)] {
        for (available, ended) in [(2_000_000, false), (2_000_000, true), (930_000, true)] {
            let mut d = decoder();
            d.seek_seconds(num(seconds), (seconds * 16_000.0) as u64, 7);
            match d.next_chunk(available, ended) {
                NextChunk::Chunk { window } => assert_eq!(window.index, index, "{seconds}"),
                other => panic!("{other:?}"),
            }
        }
    }
}

#[test]
fn a_seek_may_continue_with_any_number() {
    let mut d = decoder();
    d.seek_seconds(num(1.0), 16_000, usize::MAX);
    assert_eq!(d.next_chunk(20_000, true), window(usize::MAX, 16_000, 20_000));
}

/// Which borders of the chunks are faded, in a recording of so many samples that is cut from
/// `seconds` on.
fn faded(seconds: f32, total: u64) -> Vec<(bool, bool)> {
    let mut d = decoder();
    d.seek_seconds(num(seconds), (seconds * 16_000.0) as u64, 1);
    let mut all = Vec::new();
    while let NextChunk::Chunk { window } = d.next_chunk(total, true) {
        all.push(fades(window, total, true));
    }
    all
}

#[test]
fn only_inner_borders_are_faded() {
    assert_eq!(faded(0.0, 1_000_000), [(false, true), (true, true), (true, false)]);
    assert_eq!(faded(0.0, 480_000), [(false, false)]);
    assert_eq!(faded(0.0, 100), [(false, false)]);
    assert_eq!(faded(30.0, 1_000_000), [(true, true), (true, false)]);
    let first = Window { index: 0, start: 0, end: 480_000 };
    assert_eq!(fades(first, 480_000, false), (false, true));
}

#[test]
fn chunks_overlap_and_the_last_one_is_short() {
    let mut d = decoder();
    assert_eq!(d.next_chunk(479_999, false), NextChunk::NeedMore);
    assert_eq!(d.next_chunk(500_000, false), window(0, 0, 480_000));
    assert_eq!(d.next_chunk(500_000, false), NextChunk::NeedMore);
    assert_eq!(d.next_chunk(500_000, true), window(1, 448_000, 500_000));
    assert_eq!(d.next_chunk(500_000, true), NextChunk::EndOfAudio);
}

#[test]
fn nothing_is_left_where_a_chunk_ends_with_the_audio() {
    let mut d = decoder();
    assert_eq!(d.next_chunk(480_000, true), window(0, 0, 480_000));
    assert_eq!(d.next_chunk(480_000, true), NextChunk::EndOfAudio);
    let mut d = decoder();
    d.seek_seconds(num(30.0), 480_000, 1);
    assert_eq!(d.next_chunk(480_000, true), NextChunk::EndOfAudio);
    assert_eq!(decoder().next_chunk(0, true), NextChunk::EndOfAudio);
}

#[test]
fn chunks_must_be_longer_than_their_overlap() {
    let e = StreamingDecoder::new("a.wav", &cut(2.0, 2.0)).unwrap_err();
    assert_eq!(e, "OVERLAP_SECONDS (2) debe ser menor que CHUNK_SECONDS (2)");
}

#[test]
fn lines_come_back_however_they_are_read() {
    let w = JsonlWriter::new("t.jsonl");
    assert_eq!(w.path, "t.jsonl");
    let values: [&[u8]; 3] = [b"{\"a\":1}", b"{}", "{\"t\":\"ñ\"}".as_bytes()];
    let mut file = Vec::new();
    for v in values {
        file.extend(w.append(v.to_vec()));
    }
    assert_eq!(file, "{\"a\":1}\n{}\n{\"t\":\"ñ\"}\n".as_bytes());
    for size in 1..file.len() + 1 {
        let mut r = LineReader::new();
        let mut lines: Vec<Vec<u8>> = Vec::new();
        for block in file.chunks(size) {
            lines.extend(r.feed(&block.to_vec()));
        }
        assert!(r.finish().is_none());
        assert_eq!(lines, values);
    }
}

#[test]
fn lines_are_those_of_the_standard_library() {
    for file in ["", "\n", "a", "a\r\nb\r", "\r\n", "a\n\nb\n", "x\ry\n"] {
        let mut r = LineReader::new();
        let mut lines = r.feed(&file.as_bytes().to_vec());
        lines.extend(r.finish());
        let wanted: Vec<Vec<u8>> = std::io::BufRead::lines(std::io::Cursor::new(file))
            .map(|l| l.unwrap().into_bytes())
            .collect();
        assert_eq!(lines, wanted, "{file:?}");
    }
}

fn runner(args: &[&str]) -> WhisperRunner {
    let c = Config::load(&Environment { vars: Vec::new() }).unwrap();
    WhisperRunner::new(c.whisper, &args.iter().map(|a| a.to_string()).collect())
}

#[test]
fn decoding_searches_beams_unless_told_to_be_greedy() {
    let p = runner(&["server", "--log"]).build_params(false);
    assert_eq!(p.sampling, Sampling::BeamSearch { beam_size: 5, patience: num(-1.0) });
    assert_eq!(p.language, "es");
    assert!(!p.translate && !p.print_progress && !p.print_special && !p.no_context);
    assert_eq!((p.entropy_thold, p.temperature_inc), (num(2.3), num(0.1)));
    assert!(p.suppress_blank && p.suppress_nst && p.split_on_word);
    assert_eq!(p.n_threads, 8);
    let p = runner(&["server", "--greedy"]).build_params(true);
    assert_eq!(p.sampling, Sampling::Greedy { best_of: 5 });
    assert!(p.no_context);
}

fn segment(text: &str, no_speech: f32, tokens: &[Option<i32>]) -> Option<Segment> {
    Some(Segment {
        text: Ok(text.to_string()),
        no_speech_prob: num(no_speech),
        tokens: tokens.to_vec(),
    })
}

#[test]
fn segments_are_tallied() {
    let t = transcribe_chunk(&vec![
        segment(" Hola", 0.2, &[Some(5), Some(5), None]),
        None,
        segment(" chau.", 0.1, &[Some(7), Some(5)]),
        segment("", f32::NAN, &[]),
    ])
    .unwrap();
    assert_eq!(t.text, " Hola chau.");
    assert_eq!((t.segment_count, t.token_count), (3, 4));
    assert_eq!(t.no_speech_prob, num(0.2));
    assert_eq!(t.token_id_counts.len(), 2);
    assert_eq!((t.token_id_counts[&5], t.token_id_counts[&7]), (3, 1));
    let done = t.finish(num(-0.5), num(0.8));
    assert_eq!((done.avg_logprob, done.entropy), (num(-0.5), num(0.8)));
    assert_eq!(done.segment_count, 3);
}

#[test]
fn chunks_without_tokens_have_no_measure() {
    let t = transcribe_chunk(&Vec::new()).unwrap();
    assert_eq!(t.no_speech_prob, num(0.0));
    let done = t.finish(num(-0.5), num(0.8));
    assert_eq!((done.avg_logprob, done.entropy), (num(0.0), num(0.0)));
    assert_eq!(done.text, "");
}

#[test]
fn unreadable_segments_fail_the_chunk() {
    let bad = |why: &str| {
        Some(Segment { text: Err(why.to_string()), no_speech_prob: num(0.0), tokens: Vec::new() })
    };
    let e = transcribe_chunk(&vec![segment("a", 0.0, &[]), bad("uno"), bad("dos")]).unwrap_err();
    assert_eq!(e, "uno");
}

#[test]
fn fragments_are_trimmed_and_never_blank() {
    let chunks = vec![
        vec![Some(" Hola".to_string()), None, Some("mundo ".to_string())],
        vec![None, Some("  ".to_string())],
        vec![],
        vec![Some("chau".to_string())],
    ];
    assert_eq!(extraer_texto_aislado(&chunks), ["Hola mundo", "chau"]);
}

#[test]
fn texts_are_trimmed_and_ordered_like_the_standard_library() {
    let all = ["", " ", "a", " a b ", "\u{3000}ñ\u{a0}", "\u{feff}x", "B", "ab", "é", "𝄞", "\u{ffff}"];
    for a in all {
        assert_eq!(text::trim(a), a.trim());
        assert_eq!(text::blank(a), a.trim().is_empty());
        for b in all {
            assert_eq!(text::is_at_most(a, b), a <= b, "{a:?} {b:?}");
            assert_eq!(text::same(a, b), a == b);
        }
    }
}
