use speech_to_text::audio_pipeline::job::JobChange;
use speech_to_text::audio_pipeline::models::SummaryStatus;
use speech_to_text::binary32::Binary32;
use speech_to_text::handlers::audio_handler::{
    change_at, change_now, lanzar_generacion_resumen, lanzar_procesamiento_job, reanudar_job,
    recibir_y_procesar_audio, sniff_audio_extension, start_message, JobAction, JobOutcome,
    Milestone, SummaryTaskAction, SummaryTaskEvent, Upload, UploadAction, UploadAnswer,
    UploadEvent, UploadJob,
};

#[test]
fn sniff_reconoce_mp3_mp4_y_wav() {
    assert_eq!(sniff_audio_extension(b"ID3\x03\x00\x00\x00"), Some("mp3"));
    assert_eq!(
        sniff_audio_extension(&[0xFF, 0xFB, 0x90, 0x00]),
        Some("mp3")
    );
    assert_eq!(
        sniff_audio_extension(b"\x00\x00\x00\x18ftypmp42"),
        Some("mp4")
    );
    assert_eq!(
        sniff_audio_extension(b"RIFF\x24\x08\x00\x00WAVEfmt "),
        Some("wav")
    );
    assert_eq!(sniff_audio_extension(b"esto no es audio"), None);
}

#[test]
fn sniff_needs_whole_headers() {
    assert_eq!(sniff_audio_extension(b""), None);
    assert_eq!(sniff_audio_extension(b"ID"), None);
    assert_eq!(sniff_audio_extension(&[0xFF]), None);
    assert_eq!(sniff_audio_extension(&[0xFF, 0xDF]), None);
    assert_eq!(sniff_audio_extension(&[0xFF, 0xE0]), Some("mp3"));
    assert_eq!(sniff_audio_extension(b"....fty"), None);
    assert_eq!(sniff_audio_extension(b"RIFF....WAV"), None);
    assert_eq!(sniff_audio_extension(b"RIFF....AVI "), None);
}

const WAV: &[u8] = b"RIFF\x24\x08\x00\x00WAVEfmt ";

fn file_field() -> UploadEvent {
    UploadEvent::Field { name: Some("file".to_string()), filename: Some("a.wav".to_string()) }
}

fn field(name: &str) -> UploadEvent {
    UploadEvent::Field { name: Some(name.to_string()), filename: None }
}

fn text(t: &str) -> UploadEvent {
    UploadEvent::Text { text: t.to_string() }
}

fn created() -> UploadEvent {
    UploadEvent::JobCreated {
        job: UploadJob {
            job_id: "0".to_string(),
            audio_path: "./jobs/0/audio.wav".to_string(),
        },
    }
}

fn refused(u: &Upload) -> (u16, String) {
    match u.action() {
        UploadAction::Answer { answer: UploadAnswer::Refused { refusal } } => {
            (refusal.status, refusal.message)
        }
        other => panic!("{other:?}"),
    }
}

fn until_written() -> Upload {
    let mut u = recibir_y_procesar_audio("./jobs");
    assert!(matches!(u.action(), UploadAction::NextField));
    u.advance(file_field());
    assert!(matches!(u.action(), UploadAction::FirstChunk));
    u.advance(UploadEvent::Chunk { bytes: WAV.to_vec() });
    match u.action() {
        UploadAction::CreateJob { extension, original_filename } => {
            assert_eq!(extension, "wav");
            assert_eq!(original_filename.as_deref(), Some("a.wav"));
        }
        other => panic!("{other:?}"),
    }
    u.advance(created());
    assert!(matches!(u.action(), UploadAction::CreateFile { path } if path == "./jobs/0/audio.wav"));
    u.advance(UploadEvent::Done);
    assert!(matches!(u.action(), UploadAction::WriteChunk));
    u.advance(UploadEvent::Done);
    assert!(matches!(u.action(), UploadAction::NextChunk));
    u
}

#[test]
fn upload_with_title_before_and_callback_behind_the_file() {
    let mut u = recibir_y_procesar_audio("./jobs");
    u.advance(field("title"));
    assert!(matches!(u.action(), UploadAction::ReadText));
    u.advance(text("Reunión de planificación  "));
    u.advance(file_field());
    u.advance(UploadEvent::Chunk { bytes: WAV.to_vec() });
    u.advance(created());
    u.advance(UploadEvent::Done);
    u.advance(UploadEvent::Done);
    u.advance(UploadEvent::Chunk { bytes: vec![1, 2, 3] });
    assert!(matches!(u.action(), UploadAction::WriteChunk));
    u.advance(UploadEvent::Done);
    u.advance(UploadEvent::EndOfField);
    u.advance(field("callback_url"));
    u.advance(text("http://127.0.0.1:9/webhook-test"));
    u.advance(UploadEvent::NoMoreFields);
    assert!(matches!(u.action(), UploadAction::Measure { path } if path == "./jobs/0/audio.wav"));
    let ten = Binary32 { bits: 10.0f32.to_bits() };
    u.advance(UploadEvent::Measured { duration_seconds: Some(ten) });
    match u.action() {
        UploadAction::Persist { job_id, change: JobChange::Upload { title, callback_url, duration_seconds } } => {
            assert_eq!(job_id, "0");
            assert_eq!(title.as_deref(), Some("Reunión de planificación"));
            assert_eq!(callback_url.as_deref(), Some("http://127.0.0.1:9/webhook-test"));
            assert_eq!(duration_seconds, Some(ten));
        }
        other => panic!("{other:?}"),
    }
    u.advance(UploadEvent::Failed);
    assert!(matches!(u.action(), UploadAction::Launch { job_id } if job_id == "0"));
    u.advance(UploadEvent::Done);
    match u.action() {
        UploadAction::Answer { answer: UploadAnswer::Accepted { job_id } } => assert_eq!(job_id, "0"),
        other => panic!("{other:?}"),
    }
}

#[test]
fn file_counts_whatever_its_field_is_called() {
    for name in [Some("title"), Some("callback_url"), Some("x"), None] {
        let mut u = recibir_y_procesar_audio("./jobs");
        u.advance(UploadEvent::Field {
            name: name.map(str::to_string),
            filename: Some("a.wav".to_string()),
        });
        assert!(matches!(u.action(), UploadAction::FirstChunk), "{name:?}");
        u.advance(UploadEvent::Chunk { bytes: WAV.to_vec() });
        assert!(matches!(u.action(), UploadAction::CreateJob { .. }), "{name:?}");
    }
    let mut u = until_written();
    u.advance(UploadEvent::EndOfField);
    u.advance(UploadEvent::Field {
        name: Some("title".to_string()),
        filename: Some("b.wav".to_string()),
    });
    assert!(matches!(u.action(), UploadAction::NextField));
}

#[test]
fn blank_title_counts_as_none() {
    let mut u = until_written();
    u.advance(UploadEvent::EndOfField);
    u.advance(field("title"));
    u.advance(text(" \n "));
    u.advance(UploadEvent::NoMoreFields);
    u.advance(UploadEvent::Measured { duration_seconds: None });
    match u.action() {
        UploadAction::Persist { change: JobChange::Upload { title, .. }, .. } => assert!(title.is_none()),
        other => panic!("{other:?}"),
    }
}

#[test]
fn what_is_no_audio_is_refused_without_a_job() {
    let mut u = recibir_y_procesar_audio("./jobs");
    u.advance(file_field());
    u.advance(UploadEvent::Chunk { bytes: b"esto no es audio, son bytes cualquiera".to_vec() });
    assert_eq!(
        refused(&u),
        (400, "Formato no soportado: solo se aceptan mp3, mp4/m4a y wav".to_string())
    );
}

#[test]
fn forms_without_a_file_and_empty_files_are_refused() {
    let mut u = recibir_y_procesar_audio("./jobs");
    u.advance(UploadEvent::NoMoreFields);
    assert_eq!(refused(&u), (400, "Error al leer el archivo multipart".to_string()));
    let mut u = recibir_y_procesar_audio("./jobs");
    u.advance(UploadEvent::Failed);
    assert_eq!(refused(&u), (400, "Error al leer el archivo multipart".to_string()));
    let mut u = recibir_y_procesar_audio("./jobs");
    u.advance(file_field());
    u.advance(UploadEvent::EndOfField);
    assert_eq!(refused(&u), (400, "Archivo vacío o inválido".to_string()));
}

#[test]
fn job_and_file_that_cannot_be_created_are_server_errors() {
    let mut u = recibir_y_procesar_audio("./jobs");
    u.advance(file_field());
    u.advance(UploadEvent::Chunk { bytes: WAV.to_vec() });
    u.advance(UploadEvent::Failed);
    assert_eq!(refused(&u), (500, "Error interno del servidor".to_string()));
    let mut u = recibir_y_procesar_audio("./jobs");
    u.advance(file_field());
    u.advance(UploadEvent::Chunk { bytes: WAV.to_vec() });
    u.advance(created());
    u.advance(UploadEvent::Failed);
    assert_eq!(refused(&u), (500, "Error interno del servidor".to_string()));
}

#[test]
fn interrupted_uploads_are_removed_and_refused() {
    let mut u = until_written();
    u.advance(UploadEvent::Failed);
    assert!(matches!(u.action(), UploadAction::RemoveDir { path } if path == "./jobs/0"));
    u.advance(UploadEvent::Failed);
    assert_eq!(
        refused(&u),
        (
            400,
            "Error leyendo el archivo subido (¿se cortó la conexión, o el archivo supera el \
             límite de 1024 MiB?)"
                .to_string()
        )
    );
}

#[test]
fn chunks_that_cannot_be_written_remove_the_job() {
    let mut u = until_written();
    u.advance(UploadEvent::Chunk { bytes: vec![0] });
    u.advance(UploadEvent::Failed);
    assert!(matches!(u.action(), UploadAction::RemoveDir { .. }));
    u.advance(UploadEvent::Done);
    assert_eq!(refused(&u), (500, "Error al guardar el archivo".to_string()));
}

fn walk(outcomes: &[JobOutcome]) -> Vec<JobAction> {
    let mut run = lanzar_procesamiento_job();
    let mut seen = Vec::new();
    for o in outcomes {
        seen.push(run.action());
        run.advance(*o);
    }
    seen.push(run.action());
    seen
}

#[test]
fn job_is_completed_behind_transcript_and_embeddings() {
    let done = JobOutcome::Done;
    assert_eq!(
        walk(&[done, done, done, done, done, done, done]),
        [
            JobAction::AcquirePermit,
            JobAction::Update { milestone: Milestone::Processing },
            JobAction::RunPipeline,
            JobAction::Update { milestone: Milestone::TranscriptReady },
            JobAction::RunEmbeddings,
            JobAction::Update { milestone: Milestone::Completed },
            JobAction::LaunchSummary,
            JobAction::End,
        ]
    );
}

#[test]
fn job_fails_with_its_pipeline_or_its_embeddings_only() {
    let (done, failed) = (JobOutcome::Done, JobOutcome::Failed);
    assert_eq!(
        walk(&[done, failed, failed, done])[2..],
        [
            JobAction::RunPipeline,
            JobAction::Update { milestone: Milestone::Failed },
            JobAction::End
        ]
    );
    assert_eq!(
        walk(&[done, failed, done, failed, failed, done])[4..],
        [
            JobAction::RunEmbeddings,
            JobAction::Update { milestone: Milestone::Failed },
            JobAction::End
        ]
    );
}

#[test]
fn milestones_carry_their_moment() {
    assert!(matches!(
        change_at(Milestone::Processing, "17".to_string()),
        JobChange::Processing { at } if at == "17"
    ));
    assert!(matches!(
        change_at(Milestone::Completed, "18".to_string()),
        JobChange::Completed { at } if at == "18"
    ));
    assert!(matches!(change_at(Milestone::Failed, String::new()), JobChange::Failed));
    match change_now(Milestone::TranscriptReady) {
        JobChange::TranscriptReady { at } => {
            let now = std::time::SystemTime::now()
                .duration_since(std::time::UNIX_EPOCH)
                .unwrap()
                .as_secs();
            let at: u64 = at.parse().unwrap();
            assert!(at <= now && now - at < 60);
        }
        other => panic!("{other:?}"),
    }
}

#[test]
fn summary_is_stored_before_it_is_ready_and_made_once() {
    let mut task = lanzar_generacion_resumen();
    assert!(matches!(task.action(), SummaryTaskAction::Load));
    task.advance(SummaryTaskEvent::Loaded { status: SummaryStatus::Ready });
    assert!(matches!(task.action(), SummaryTaskAction::End));

    let mut task = lanzar_generacion_resumen();
    task.advance(SummaryTaskEvent::Loaded { status: SummaryStatus::Failed });
    assert!(matches!(task.action(), SummaryTaskAction::AcquirePermit));
    task.advance(SummaryTaskEvent::Done);
    assert!(matches!(task.action(), SummaryTaskAction::Update { status: SummaryStatus::Generating }));
    task.advance(SummaryTaskEvent::Failed);
    assert!(matches!(task.action(), SummaryTaskAction::Generate));
    task.advance(SummaryTaskEvent::Generated { text: "resumen".to_string() });
    assert!(matches!(task.action(), SummaryTaskAction::Store { text } if text == "resumen"));
    task.advance(SummaryTaskEvent::Done);
    assert!(matches!(task.action(), SummaryTaskAction::Update { status: SummaryStatus::Ready }));
    task.advance(SummaryTaskEvent::Done);
    assert!(matches!(task.action(), SummaryTaskAction::End));
}

#[test]
fn summary_that_cannot_be_made_or_stored_fails() {
    let mut task = lanzar_generacion_resumen();
    task.advance(SummaryTaskEvent::Failed);
    assert!(matches!(task.action(), SummaryTaskAction::End));
    for stored in [false, true] {
        let mut task = lanzar_generacion_resumen();
        task.advance(SummaryTaskEvent::Loaded { status: SummaryStatus::NotStarted });
        task.advance(SummaryTaskEvent::Done);
        task.advance(SummaryTaskEvent::Done);
        if stored {
            task.advance(SummaryTaskEvent::Generated { text: "x".to_string() });
        }
        task.advance(SummaryTaskEvent::Failed);
        assert!(matches!(task.action(), SummaryTaskAction::Update { status: SummaryStatus::Failed }));
    }
}

#[test]
fn resuming_answers_like_an_upload_or_finds_nothing() {
    assert!(matches!(reanudar_job("7", true), UploadAnswer::Accepted { job_id } if job_id == "7"));
    match reanudar_job("7", false) {
        UploadAnswer::Refused { refusal } => {
            assert_eq!((refusal.status, refusal.message.as_str()), (404, "Job no encontrado"));
        }
        other => panic!("{other:?}"),
    }
    assert_eq!(start_message(true), "Resumiendo la transcripción del job");
    assert_eq!(start_message(false), "Transcribiendo el job");
}
