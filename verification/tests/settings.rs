use speech_to_text::binary32::Binary32;
use speech_to_text::config::{Config, ConfigError, EnvVar, Environment, Real};
use speech_to_text::numbers::{parse_flag, parse_integer32, parse_natural};

fn reading(value: &str) -> Result<Real, String> {
    match value.parse::<f32>() {
        Ok(x) => Ok(Real {
            value: Binary32 { bits: x.to_bits() },
            shown: x.to_string(),
            samples: (x * 16_000.0).round() as i64,
        }),
        Err(e) => Err(e.to_string()),
    }
}

fn env(vars: &[(&str, &str)]) -> Environment {
    Environment {
        vars: vars
            .iter()
            .map(|(k, v)| EnvVar {
                key: k.to_string(),
                value: v.to_string(),
                reading: reading(v),
            })
            .collect(),
    }
}

fn num(x: f32) -> Binary32 {
    Binary32 { bits: x.to_bits() }
}

#[test]
fn defaults_without_variables() {
    let c = Config::load(&env(&[])).unwrap();
    assert_eq!(c.paths.jobs_dir, "./jobs");
    assert_eq!(c.paths.logs_dir, "./logs");
    assert_eq!(c.paths.whisper_model_path, "models/ggml-small-q5_1.bin");
    assert_eq!(c.paths.ffmpeg_bin, "ffmpeg");
    assert_eq!(c.paths.ffprobe_bin, "ffprobe");
    assert_eq!(c.services.ollama_host, "http://127.0.0.1");
    assert_eq!(c.services.ollama_port, 11434);
    assert_eq!(c.services.qdrant_url, "http://localhost:6334");
    assert_eq!(c.services.bind_addr, "0.0.0.0:3000");
    assert_eq!(c.services.client_origin, "http://localhost:4321");
    let w = &c.whisper;
    assert_eq!(w.entropy_thold, num(2.3));
    assert!(w.suppress_blank && w.suppress_nst && w.split_on_word);
    assert!(!w.single_segment && !w.token_timestamps);
    assert_eq!(w.temperature, num(0.0));
    assert_eq!(w.temperature_inc, num(0.1));
    assert_eq!(w.logprob_thold, num(-0.8));
    assert_eq!(w.no_speech_thold, num(0.5));
    assert_eq!((w.n_threads, w.greedy_best_of), (8, 5));
    assert!(w.initial_prompt.starts_with("Transcripción de una reunión"));
    assert_eq!(c.chunking.chunk_seconds.value, num(30.0));
    assert_eq!(c.chunking.chunk_seconds.samples, 480_000);
    assert_eq!(c.chunking.overlap_seconds.value, num(2.0));
    assert_eq!(c.chunking.overlap_seconds.samples, 32_000);
    assert_eq!(c.chunking.resampler_chunk_size, 1024);
    let r = &c.rag;
    assert_eq!(r.embedding_model, "bge-m3");
    assert_eq!(r.generation_model, "qcwind/qwen2.5-7b-instruct-Q4_K_M:latest");
    assert_eq!(r.reranker_model_id, "BAAI/bge-reranker-v2-m3");
    assert_eq!(r.reranker_revision, "main");
    assert_eq!((r.top_k, r.search_top_k, r.rerank_candidate_pool), (6, 8, 30));
    assert_eq!(r.low_confidence_thold, num(-0.6));
    assert_eq!((r.batch_max_chunks, r.batch_max_chars), (50, 12_000));
    assert_eq!((r.batch_num_ctx, r.rag_answer_num_ctx), (8192, 4096));
    assert_eq!((r.batch_num_predict, r.consolidation_num_predict), (300, 500));
    assert_eq!(r.max_segment_seconds.value, num(120.0));
    assert_eq!(r.max_segment_seconds.shown, "120");
    assert!(c.mcp_bearer_token.is_none());
    assert!(c.mcp_allowed_hosts.is_empty());
}

#[test]
fn variables_replace_defaults() {
    let c = Config::load(&env(&[
        ("JOBS_DIR", "/var/jobs"),
        ("OLLAMA_PORT", "+80"),
        ("WHISPER_SUPPRESS_BLANK", "false"),
        ("WHISPER_N_THREADS", "-3"),
        ("WHISPER_TEMPERATURE", "0.25"),
        ("CHUNK_SECONDS", "15"),
        ("OVERLAP_SECONDS", "0.5"),
        ("RAG_TOP_K", "18446744073709551615"),
        ("MCP_BEARER_TOKEN", ""),
        ("MCP_ALLOWED_HOSTS", "192.168.0.7:3000, ,casa.local ,"),
    ]))
    .unwrap();
    assert_eq!(c.paths.jobs_dir, "/var/jobs");
    assert_eq!(c.services.ollama_port, 80);
    assert!(!c.whisper.suppress_blank);
    assert_eq!(c.whisper.n_threads, -3);
    assert_eq!(c.whisper.temperature, num(0.25));
    assert_eq!(c.chunking.chunk_seconds.samples, 240_000);
    assert_eq!(c.chunking.overlap_seconds.samples, 8_000);
    assert_eq!(c.rag.top_k, u64::MAX);
    assert_eq!(c.mcp_bearer_token.as_deref(), Some(""));
    assert_eq!(c.mcp_allowed_hosts, ["192.168.0.7:3000", "casa.local"]);
}

fn message(vars: &[(&str, &str)]) -> String {
    match Config::load(&env(vars)) {
        Ok(_) => panic!("started"),
        Err(e) => e.message(),
    }
}

#[test]
fn unreadable_variables_stop_the_start() {
    assert_eq!(
        message(&[("WHISPER_N_THREADS", "banana")]),
        "variable de entorno WHISPER_N_THREADS='banana' inválida: invalid digit found in string"
    );
    assert_eq!(
        message(&[("OLLAMA_PORT", "65536")]),
        "variable de entorno OLLAMA_PORT='65536' inválida: number too large to fit in target type"
    );
    assert_eq!(
        message(&[("WHISPER_SUPPRESS_NST", "True")]),
        "variable de entorno WHISPER_SUPPRESS_NST='True' inválida: provided string was not `true` or `false`"
    );
    assert_eq!(
        message(&[("RAG_LOW_CONFIDENCE_THOLD", "x")]),
        "variable de entorno RAG_LOW_CONFIDENCE_THOLD='x' inválida: invalid float literal"
    );
}

#[test]
fn the_first_failure_in_order_is_told() {
    assert!(message(&[("RAG_TOP_K", "x"), ("OLLAMA_PORT", "y")]).contains("OLLAMA_PORT"));
    assert!(message(&[("RAG_TOP_K", "x"), ("CHUNK_SECONDS", "1")]).starts_with("OVERLAP_SECONDS ("));
    assert!(message(&[("RESAMPLER_CHUNK_SIZE", "x"), ("CHUNK_SECONDS", "1")]).contains("RESAMPLER"));
}

#[test]
fn chunking_must_fit_the_hop() {
    assert_eq!(
        message(&[("CHUNK_SECONDS", "2")]),
        "OVERLAP_SECONDS (2) debe ser menor que CHUNK_SECONDS (2)"
    );
    assert_eq!(
        message(&[("CHUNK_SECONDS", "29.995")]),
        "CHUNK_SECONDS=29.995 no da un número de samples múltiplo del hop de 10ms de Whisper \
         (160 samples/hop @ 16kHz) — ver 'Context Aware Chunking'"
    );
    assert_eq!(
        message(&[("OVERLAP_SECONDS", "0.005")]),
        "OVERLAP_SECONDS=0.005 no da un número de samples múltiplo del hop de 10ms de Whisper \
         (160 samples/hop @ 16kHz) — ver 'Context Aware Chunking'"
    );
}

#[test]
fn overlap_must_be_a_number_below_the_chunk() {
    for (chunk, overlap) in [("30", "30"), ("NaN", "2"), ("30", "NaN"), ("30", "inf"), ("NaN", "NaN")] {
        assert!(
            matches!(
                Config::load(&env(&[("CHUNK_SECONDS", chunk), ("OVERLAP_SECONDS", overlap)])),
                Err(ConfigError::OverlapTooLong { .. })
            ),
            "{chunk} {overlap}"
        );
    }
}

#[test]
fn lengths_below_zero_must_be_whole_hops_too() {
    let load = |chunk: &str, overlap: &str| {
        Config::load(&env(&[("CHUNK_SECONDS", chunk), ("OVERLAP_SECONDS", overlap)]))
    };
    for (chunk, overlap) in [("30", "2"), ("0.01", "0"), ("0.01", "-0"), ("1", "-0.01"), ("1", "-2")] {
        assert!(load(chunk, overlap).is_ok(), "{chunk} {overlap}");
    }
    for (chunk, overlap) in [("0.005", "0"), ("0", "-1"), ("-1", "-2"), ("inf", "0"), ("-0.01", "-1")] {
        assert!(
            matches!(load(chunk, overlap), Err(ConfigError::ChunkMisaligned { .. })),
            "{chunk} {overlap}"
        );
    }
    for (chunk, overlap) in [("1", "0.005"), ("1", "-0.005"), ("30", "-2.001")] {
        assert!(
            matches!(load(chunk, overlap), Err(ConfigError::OverlapMisaligned { .. })),
            "{chunk} {overlap}"
        );
    }
    match load("1", "-inf") {
        Err(ConfigError::OverlapMisaligned { overlap }) => assert_eq!(overlap, "-inf"),
        other => panic!("{other:?}"),
    }
}

#[test]
fn integers_read_like_the_standard_library() {
    for s in [
        "", "0", "7", "+7", "-7", "+", "-", "++1", "007", "1 ", " 1", "65535", "65536", "4294967296",
        "18446744073709551615", "18446744073709551616", "99999999999999999999x", "x99999999999999999999",
        "-0", "2147483647", "2147483648", "-2147483648", "-2147483649", "-99999999999y", "١", "1_0",
    ] {
        match s.parse::<u64>() {
            Ok(n) => assert_eq!(parse_natural(s, u64::MAX), Ok(n), "{s}"),
            Err(e) => assert_eq!(parse_natural(s, u64::MAX).unwrap_err().message(), e.to_string(), "{s}"),
        }
        match s.parse::<u16>() {
            Ok(n) => assert_eq!(parse_natural(s, 65535), Ok(n as u64), "{s}"),
            Err(e) => assert_eq!(parse_natural(s, 65535).unwrap_err().message(), e.to_string(), "{s}"),
        }
        match s.parse::<i32>() {
            Ok(n) => assert_eq!(parse_integer32(s), Ok(n), "{s}"),
            Err(e) => assert_eq!(parse_integer32(s).unwrap_err().message(), e.to_string(), "{s}"),
        }
        assert_eq!(parse_flag(s), s.parse::<bool>().ok());
    }
    assert_eq!(parse_flag("true"), Some(true));
    assert_eq!(parse_flag("false"), Some(false));
}

#[test]
fn single_precision_order_is_that_of_the_bits() {
    let xs = [
        0.0f32, -0.0, 1.0, -1.0, f32::MIN, f32::MAX, f32::INFINITY, f32::NEG_INFINITY, f32::NAN, -f32::NAN,
        1e-40, -1e-40, -0.6, 120.0,
    ];
    for a in xs {
        for b in xs {
            assert_eq!(num(a).is_below(num(b)), a < b, "{a} {b}");
            assert_eq!(num(a).order() < num(b).order(), a.total_cmp(&b).is_lt(), "{a} {b}");
            assert_eq!(num(a).order() == num(b).order(), a.to_bits() == b.to_bits());
        }
        assert_eq!(num(a).is_nan(), a.is_nan());
    }
    assert_eq!(Binary32::least_finite(), num(f32::MIN));
    assert_eq!(Binary32::zero(), num(0.0));
}
