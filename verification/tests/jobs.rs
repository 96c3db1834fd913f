use speech_to_text::audio_pipeline::checkpoint::{CheckpointManager, StoredCheckpoint};
use speech_to_text::audio_pipeline::job::{
    create_job, job_dir, list_jobs, load_job, loaded_job, new_metadata, ruta_job_json,
    update_job_metadata, updated_job, JobChange, JobError, JobsDirEntry, StoredJob,
};
use speech_to_text::audio_pipeline::jsonl_writer::{JsonlWriter, LineReader};
use speech_to_text::audio_pipeline::models::{
    Checkpoint, ChunkMetrics, JobMetadata, JobStatus, SummaryStatus, TranscriptEntry,
};
use speech_to_text::audio_pipeline::util::{
    epoch_string, epoch_string_of, now_epoch_string, write_atomic, FileAction,
};
use speech_to_text::binary32::Binary32;
use speech_to_text::config::Real;
use speech_to_text::handlers::jobs_handler::{
    construir_transcript_response, leer_jsonl_entries, listar_jobs_handler, obtener_job_handler,
    obtener_metricas_handler, obtener_segmento_audio_handler, obtener_transcript_handler,
    AudioSegmentParams, JobSummary, ListedJob, StoredEntries,
};
use speech_to_text::mcp::{
    allowed_hosts, get_audio_metadata, get_transcript, list_audios, rag_answer_result,
    search_transcript_result, GetAudioMetadataRequest, GetTranscriptRequest, ToolError,
};
use speech_to_text::paths;

const ID: &str = "1b6f5e2a-4c3d-4a11-9e2b-0a1c2d3e4f5a";

fn num(x: f32) -> Binary32 {
    Binary32 { bits: x.to_bits() }
}

fn job() -> JobMetadata {
    new_metadata(
        "./jobs",
        ID.to_string(),
        "mp4",
        "1753700000".to_string(),
        Some("charla.m4a".to_string()),
    )
}

#[test]
fn new_jobs_have_a_random_identifier_and_paths_of_their_own() {
    let a = create_job("./jobs", "wav", None);
    let b = create_job("./jobs", "wav", None);
    assert_ne!(a.job_id, b.job_id);
    let parsed = uuid::Uuid::parse_str(&a.job_id).unwrap();
    assert_eq!(parsed.get_version_num(), 4);
    assert_eq!(parsed.to_string(), a.job_id);
    assert_eq!(a.audio_path, format!("./jobs/{}/audio.wav", a.job_id));
    assert_eq!(a.transcript_path, format!("./jobs/{}/transcript.jsonl", a.job_id));
    assert_eq!(a.checkpoint_path, format!("./jobs/{}/checkpoint.json", a.job_id));
    assert_eq!(a.metrics_path(), format!("./jobs/{}/metrics.jsonl", a.job_id));
    assert_eq!(a.summary_path(), format!("./jobs/{}/summary.txt", a.job_id));
    assert_eq!(a.status, JobStatus::Pending);
    assert_eq!(a.summary_status, SummaryStatus::NotStarted);
    assert!(!a.transcript_ready && a.title.is_none() && a.original_filename.is_none());
    assert!(a.created_at.parse::<u64>().unwrap() > 1_700_000_000);
}

#[test]
fn identifiers_are_checked_before_they_become_paths() {
    for id in [
        ID,
        "1B6F5E2A4C3D4A119E2B0A1C2D3E4F5A",
        "{1b6f5e2a-4c3d-4a11-9e2b-0a1c2d3e4f5a}",
        "URN:uuid:1b6f5e2a-4c3d-4a11-9e2b-0a1c2d3e4f5a",
    ] {
        assert!(uuid::Uuid::parse_str(id).is_ok());
        assert_eq!(load_job("./jobs", id).unwrap(), format!("./jobs/{id}/job.json"));
    }
    for id in [
        "no-es-un-uuid",
        "../../etc",
        "",
        "1b6f5e2a-4c3d-4a11-9e2b-0a1c2d3e4f5",
        "1b6f5e2a-4c3d-4a11-9e2b_0a1c2d3e4f5a",
        "{1b6f5e2a-4c3d-4a11-9e2b-0a1c2d3e4f5a)",
        "urn-uuid:1b6f5e2a-4c3d-4a11-9e2b-0a1c2d3e4f5a",
        "1b6f5e2a-4c3d-4a11-9e2b-0a1c2d3e4f5ñ",
        "1b6f5e2a4c3d4a119e2b0a1c2d3e4f5/",
    ] {
        assert!(uuid::Uuid::parse_str(id).is_err());
        let e = load_job("./jobs", id).unwrap_err();
        assert_eq!(e.message(), "job_id no es un UUID válido");
    }
}

#[test]
fn jobs_that_cannot_be_read_say_why() {
    let e = loaded_job(ID, StoredJob::Unreadable).unwrap_err();
    assert_eq!(e.message(), format!("no se encontró el job '{ID}'"));
    let e = loaded_job(ID, StoredJob::Malformed).unwrap_err();
    assert_eq!(e.message(), format!("job.json inválido para el job '{ID}'"));
    let m = loaded_job(ID, StoredJob::Present { metadata: job() }).unwrap();
    assert_eq!(m.job_id, ID);
    assert_eq!(ruta_job_json("/srv/jobs/", ID), format!("/srv/jobs/{ID}/job.json"));
    assert_eq!(job_dir("jobs", ID), format!("jobs/{ID}"));
}

#[test]
fn changes_touch_what_they_name() {
    let mut m = job();
    update_job_metadata(&mut m, JobChange::Processing { at: "1".to_string() });
    assert_eq!(m.status, JobStatus::Processing);
    assert_eq!(m.processing_started_at.as_deref(), Some("1"));
    update_job_metadata(&mut m, JobChange::TranscriptReady { at: "2".to_string() });
    assert!(m.transcript_ready);
    assert_eq!(m.transcript_ready_at.as_deref(), Some("2"));
    assert_eq!(m.status, JobStatus::Processing);
    update_job_metadata(&mut m, JobChange::Completed { at: "3".to_string() });
    assert_eq!(m.status, JobStatus::Completed);
    assert_eq!(m.completed_at.as_deref(), Some("3"));
    update_job_metadata(&mut m, JobChange::Summary { status: SummaryStatus::Generating });
    assert_eq!(m.summary_status, SummaryStatus::Generating);
    update_job_metadata(&mut m, JobChange::Failed);
    assert_eq!(m.status, JobStatus::Failed);
    assert!(m.transcript_ready);
    let change = JobChange::Upload {
        title: Some("t".to_string()),
        callback_url: None,
        duration_seconds: Some(num(3.5)),
    };
    update_job_metadata(&mut m, change);
    assert_eq!(m.title.as_deref(), Some("t"));
    assert_eq!(m.duration_seconds, Some(num(3.5)));
    assert_eq!(m.audio_path, job().audio_path);
    assert_eq!(m.original_filename.as_deref(), Some("charla.m4a"));
}

#[test]
fn jobs_that_do_not_load_are_not_changed() {
    let change = || JobChange::Completed { at: "9".to_string() };
    let e = updated_job(ID, StoredJob::Unreadable, change()).unwrap_err();
    assert!(matches!(e, JobError::NotFound { job_id } if job_id == ID));
    let e = updated_job(ID, StoredJob::Malformed, change()).unwrap_err();
    assert!(matches!(e, JobError::InvalidJson { job_id } if job_id == ID));
    let m = updated_job(ID, StoredJob::Present { metadata: job() }, change()).unwrap();
    assert_eq!(m.status, JobStatus::Completed);
    assert_eq!(m.completed_at.as_deref(), Some("9"));
    let same = job();
    assert_eq!((m.job_id, m.audio_path, m.created_at), (same.job_id, same.audio_path, same.created_at));
    assert!(!m.transcript_ready && m.processing_started_at.is_none() && m.title.is_none());
    assert_eq!(m.summary_status, SummaryStatus::NotStarted);
}

#[test]
fn changes_of_different_parts_commute() {
    let changes: [fn() -> JobChange; 4] = [
        || JobChange::Completed { at: "1".to_string() },
        || JobChange::TranscriptReady { at: "2".to_string() },
        || JobChange::Summary { status: SummaryStatus::Ready },
        || JobChange::Upload {
            title: Some("t".to_string()),
            callback_url: None,
            duration_seconds: Some(num(2.0)),
        },
    ];
    for i in 0..4 {
        for j in 0..i {
            let (mut a, mut b) = (job(), job());
            update_job_metadata(&mut a, changes[i]());
            update_job_metadata(&mut a, changes[j]());
            update_job_metadata(&mut b, changes[j]());
            update_job_metadata(&mut b, changes[i]());
            assert_eq!(format!("{a:?}"), format!("{b:?}"));
        }
    }
}

#[test]
fn reading_gives_earlier_values_and_new_ones() {
    let w = JsonlWriter::new("t.jsonl");
    let mut file = "{\"a\":1}\r\n\n  \n{\"t\":\"ñ\"}\n".as_bytes().to_vec();
    for v in ["{}", "[\"á é\"]"] {
        file.extend(w.append(v.as_bytes().to_vec()));
    }
    for size in [1, 2, 3, 1000] {
        let mut r = LineReader::new();
        let mut lines = Vec::new();
        for block in file.chunks(size) {
            lines.extend(r.feed(&block.to_vec()));
        }
        lines.extend(r.finish());
        let lines = lines.into_iter().map(|l| String::from_utf8(l).unwrap()).collect();
        assert_eq!(leer_jsonl_entries(&lines), ["{\"a\":1}", "{\"t\":\"ñ\"}", "{}", "[\"á é\"]"]);
    }
}

#[test]
fn listing_passes_over_what_is_no_job() {
    let other = |id: &str| {
        let mut m = job();
        m.job_id = id.to_string();
        m
    };
    let jobs = list_jobs(vec![
        JobsDirEntry { is_dir: true, loaded: Ok(other("a")) },
        JobsDirEntry { is_dir: true, loaded: Err(JobError::InvalidId) },
        JobsDirEntry { is_dir: false, loaded: Ok(other("b")) },
        JobsDirEntry { is_dir: true, loaded: Ok(other("c")) },
    ]);
    let ids: Vec<&str> = jobs.iter().map(|j| j.job_id.as_str()).collect();
    assert_eq!(ids, ["a", "c"]);
}

#[test]
fn files_are_written_beside_their_place_and_renamed() {
    let actions = write_atomic("./jobs/x/job.json", "{}");
    assert_eq!(actions.len(), 2);
    assert!(matches!(&actions[0], FileAction::Write { path, contents }
        if path == "./jobs/x/job.json.tmp" && contents == "{}"));
    assert!(matches!(&actions[1], FileAction::Rename { from, to }
        if from == "./jobs/x/job.json.tmp" && to == "./jobs/x/job.json"));
}

#[test]
fn moments_are_decimal_seconds() {
    assert_eq!(epoch_string(0), "0");
    assert_eq!(epoch_string(1753700000), "1753700000");
    assert_eq!(epoch_string(u64::MAX), u64::MAX.to_string());
    assert_eq!(epoch_string_of(Some(1753700000)), "1753700000");
    assert_eq!(epoch_string_of(Some(0)), "0");
    assert_eq!(epoch_string_of(None), "0");
    let before = std::time::SystemTime::now().duration_since(std::time::UNIX_EPOCH).unwrap().as_secs();
    let now: u64 = now_epoch_string().parse().unwrap();
    assert!(now >= before && now - before < 60);
}

#[test]
fn paths_follow_the_standard_library() {
    let all = [
        "", "a", "/", "/a", "a/", "a/b", "a//b", "a/./b", "./a", ".", "..", "a/..", "./jobs/x/transcript.jsonl",
        "/t.jsonl", "a/b/", "a/b/.", "a/b//.//", "//x", "././.", "a/.hidden", "..a", "a/...", "/.", "x/./",
    ];
    for p in all {
        let wanted = std::path::Path::new(p).with_file_name("metrics.jsonl");
        assert_eq!(paths::with_file_name(p, "metrics.jsonl"), wanted.to_str().unwrap(), "{p:?}");
        for q in ["x", "/x", "x/y", "./x"] {
            let wanted = std::path::Path::new(p).join(q);
            assert_eq!(paths::join(p, q), wanted.to_str().unwrap(), "{p:?} {q:?}");
        }
    }
}

#[test]
fn checkpoint_starts_at_zero_where_there_is_none() {
    let m = CheckpointManager::new("c.json").unwrap();
    let c = m.load(StoredCheckpoint::Missing).unwrap();
    assert_eq!(c, Checkpoint { last_chunk: 0, processed_seconds: num(0.0) });
    let w = m.save(9, num(282.0));
    assert_eq!(w.path, "c.json");
    assert_eq!(m.load(StoredCheckpoint::Present { checkpoint: w.checkpoint }).unwrap(), w.checkpoint);
    assert_eq!(w.checkpoint, Checkpoint { last_chunk: 9, processed_seconds: num(282.0) });
    let e = m.load(StoredCheckpoint::Unreadable { reason: "roto".to_string() }).unwrap_err();
    assert_eq!(e, "roto");
}

#[test]
fn clients_see_a_summary_only_when_it_is_ready() {
    let mut m = job();
    assert!(JobSummary::file_of(&m).is_none());
    assert!(JobSummary::from(&m, Some("viejo".to_string())).summary.is_none());
    m.summary_status = SummaryStatus::Ready;
    m.title = Some("Título".to_string());
    assert_eq!(JobSummary::file_of(&m), Some(format!("./jobs/{ID}/summary.txt")));
    let s = JobSummary::from(&m, Some("texto".to_string()));
    assert_eq!(s.summary.as_deref(), Some("texto"));
    assert_eq!(s.title.as_deref(), Some("Título"));
    assert_eq!(s.original_filename.as_deref(), Some("charla.m4a"));
    assert_eq!(s.created_at, "1753700000");
    assert!(JobSummary::from(&m, None).summary.is_none());
}

#[test]
fn jobs_are_listed_or_the_server_failed() {
    let listed = listar_jobs_handler(Some(vec![
        ListedJob { metadata: job(), stored_summary: None },
        ListedJob { metadata: job(), stored_summary: None },
    ]))
    .unwrap();
    assert_eq!(listed.len(), 2);
    assert_eq!(listed[1].job_id, ID);
    let refusal = listar_jobs_handler(None).unwrap_err();
    assert_eq!((refusal.status, refusal.message.as_str()), (500, "Error interno del servidor"));
}

#[test]
fn job_state_shows_how_far_it_came() {
    let c = Checkpoint { last_chunk: 4, processed_seconds: num(150.0) };
    let s = obtener_job_handler(Ok(job()), None, Ok(c)).unwrap();
    assert_eq!((s.last_chunk, s.processed_seconds), (4, num(150.0)));
    assert_eq!(s.summary.job_id, ID);
    let s = obtener_job_handler(Ok(job()), None, Err("roto".to_string())).unwrap();
    assert_eq!((s.last_chunk, s.processed_seconds), (0, num(0.0)));
    let refusal = obtener_job_handler(Err(JobError::InvalidId), None, Ok(c)).unwrap_err();
    assert_eq!((refusal.status, refusal.message.as_str()), (404, "Job no encontrado"));
}

fn entry(chunk: usize, logprob: f32) -> TranscriptEntry {
    TranscriptEntry {
        chunk,
        start: num(0.0),
        end: num(30.0),
        text: "x".to_string(),
        avg_logprob: num(logprob),
    }
}

#[test]
fn doubtful_entries_are_marked_when_read() {
    let stored = StoredEntries::Present { entries: vec![entry(0, -0.59), entry(1, -0.61), entry(2, f32::NAN)] };
    let t = obtener_transcript_handler(Ok(job()), stored, num(-0.6)).unwrap();
    assert_eq!(t.status, JobStatus::Pending);
    assert!(!t.transcript_ready);
    let seen: Vec<(usize, bool)> = t.entries.iter().map(|e| (e.entry.chunk, e.low_confidence)).collect();
    assert_eq!(seen, [(0, false), (1, true), (2, false)]);
    let again = StoredEntries::Present { entries: vec![entry(0, -0.59)] };
    assert!(construir_transcript_response(&job(), again, num(-0.5)).unwrap().entries[0].low_confidence);
}

#[test]
fn transcript_that_is_not_there_yet_is_empty() {
    let t = obtener_transcript_handler(Ok(job()), StoredEntries::Missing, num(-0.6)).unwrap();
    assert!(t.entries.is_empty());
    let e = obtener_transcript_handler(Ok(job()), StoredEntries::Unreadable, num(-0.6)).unwrap_err();
    assert_eq!(e.status, 500);
    let e = obtener_transcript_handler(Err(JobError::InvalidId), StoredEntries::Missing, num(-0.6)).unwrap_err();
    assert_eq!(e.status, 404);
}

#[test]
fn metrics_are_shown_as_they_are() {
    let m = ChunkMetrics {
        chunk: 1,
        start: num(28.0),
        end: num(58.0),
        decode_ms: 12,
        whisper_ms: 4300,
        persist_ms: 1,
        total_ms: 4313,
        text_len: 540,
        avg_logprob: num(-0.42),
        score: num(0.66),
        no_speech_prob: num(0.02),
        entropy: num(3.1),
        segment_count: 4,
        loop_suppressed: false,
    };
    let r = obtener_metricas_handler(Ok(job()), StoredEntries::Present { entries: vec![m] }).unwrap();
    assert_eq!(r.entries, [m]);
    assert!(obtener_metricas_handler(Ok(job()), StoredEntries::Missing).unwrap().entries.is_empty());
    assert_eq!(obtener_metricas_handler(Ok(job()), StoredEntries::Unreadable).unwrap_err().status, 500);
    assert_eq!(
        obtener_metricas_handler(Err(JobError::InvalidId), StoredEntries::Missing).unwrap_err().status,
        404
    );
}

#[test]
fn blank_lines_hold_no_value() {
    let lines: Vec<String> = ["{}", "", "  ", "{\"a\":1}", "\t"].iter().map(|s| s.to_string()).collect();
    assert_eq!(leer_jsonl_entries(&lines), ["{}", "{\"a\":1}"]);
}

fn stretch(start: f32, end: f32) -> AudioSegmentParams {
    AudioSegmentParams {
        start: num(start),
        end: num(end),
        duration: num(end - start),
        start_shown: start.to_string(),
        end_shown: end.to_string(),
    }
}

fn limit() -> Real {
    Real { value: num(120.0), shown: "120".to_string(), samples: 1_920_000 }
}

#[test]
fn segments_are_cut_by_ffmpeg() {
    let args = obtener_segmento_audio_handler(Ok(job()), stretch(90.0, 120.5), &limit()).unwrap();
    let path = format!("./jobs/{ID}/audio.mp4");
    assert_eq!(
        args,
        ["-v", "error", "-ss", "90", "-to", "120.5", "-i", &path, "-f", "mp3", "-"]
    );
    assert!(obtener_segmento_audio_handler(Ok(job()), stretch(0.0, 120.0), &limit()).is_ok());
    assert!(obtener_segmento_audio_handler(Ok(job()), stretch(-0.0, 1.0), &limit()).is_ok());
}

#[test]
fn bad_segments_are_refused_behind_missing_jobs() {
    for (a, b) in [(10.0, 5.0), (0.0, 999.0), (-1.0, 5.0), (3.0, 3.0), (0.0, 120.01)] {
        let e = obtener_segmento_audio_handler(Ok(job()), stretch(a, b), &limit()).unwrap_err();
        assert_eq!(e.status, 400);
        assert_eq!(
            e.message,
            "Rango inválido: start debe ser >= 0, end > start, y la duración no puede superar 120 segundos"
        );
    }
    let nan = f32::NAN;
    for (a, b) in [(nan, 5.0), (1.0, nan), (nan, nan), (-nan, 5.0), (f32::INFINITY, f32::INFINITY)] {
        let e = obtener_segmento_audio_handler(Ok(job()), stretch(a, b), &limit()).unwrap_err();
        assert_eq!(e.status, 400);
    }
    let unlimited = Real { value: num(nan), shown: "NaN".to_string(), samples: 0 };
    assert!(obtener_segmento_audio_handler(Ok(job()), stretch(0.0, 1.0), &unlimited).is_err());
    let e = obtener_segmento_audio_handler(Err(JobError::InvalidId), stretch(10.0, 5.0), &limit()).unwrap_err();
    assert_eq!(e.status, 404);
}

#[test]
fn tools_tell_missing_jobs_from_failures() {
    let r = GetAudioMetadataRequest { audio_id: "zz".to_string() };
    match get_audio_metadata(&r, Err(JobError::InvalidId)).unwrap_err() {
        ToolError::InvalidParams { message } => assert_eq!(message, "no existe el job 'zz'"),
        other => panic!("{other:?}"),
    }
    assert_eq!(get_audio_metadata(&r, Ok(job())).unwrap().job_id, ID);
    let r = GetTranscriptRequest { audio_id: "zz".to_string() };
    assert!(matches!(
        get_transcript(&r, Err(JobError::InvalidId), StoredEntries::Missing, num(0.0)),
        Err(ToolError::InvalidParams { .. })
    ));
    assert!(matches!(
        get_transcript(&r, Ok(job()), StoredEntries::Unreadable, num(0.0)),
        Err(ToolError::Internal { tool }) if tool == "get_transcript"
    ));
    let t = get_transcript(&r, Ok(job()), StoredEntries::Present { entries: vec![entry(0, -1.0)] }, num(0.0));
    assert!(t.unwrap().entries[0].low_confidence);
    assert!(matches!(list_audios(None), Err(ToolError::Internal { tool }) if tool == "list_audios"));
    assert_eq!(list_audios(Some(vec![job()])).unwrap().len(), 1);
    assert!(matches!(
        search_transcript_result(Err("x".to_string())),
        Err(ToolError::Internal { tool }) if tool == "search_transcript"
    ));
    assert!(matches!(
        rag_answer_result(Err("x".to_string())),
        Err(ToolError::Internal { tool }) if tool == "rag_answer"
    ));
    assert_eq!(rag_answer_result(Ok("sí".to_string())).unwrap(), "sí");
}

#[test]
fn configured_hosts_join_this_machine() {
    let hosts = allowed_hosts(&vec!["192.168.0.7:3000".to_string()]);
    assert_eq!(hosts, ["localhost", "127.0.0.1", "::1", "192.168.0.7:3000"]);
}
