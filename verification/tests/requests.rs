use speech_to_text::audio_pipeline::job::{
    create_job, load_job, loaded_job, update_job_metadata, JobError, StoredJob,
};
use speech_to_text::audio_pipeline::models::JobMetadata;
use speech_to_text::binary32::Binary32;
use speech_to_text::config::{Config, Environment};
use speech_to_text::handlers::audio_handler::{
    reanudar_job, recibir_y_procesar_audio, Upload, UploadAction, UploadAnswer, UploadEvent,
    UploadJob,
};
use speech_to_text::handlers::jobs_handler::{
    listar_jobs_handler, obtener_job_handler, obtener_metricas_handler,
    obtener_segmento_audio_handler, obtener_transcript_handler, AudioSegmentParams, ListedJob,
    StoredEntries,
};
use speech_to_text::router::{
    cors_layer, cors_layer_permisivo, crear_router, healthcheck, CorsOrigin,
};

fn config() -> Config {
    Config::load(&Environment { vars: Vec::new() }).unwrap()
}

/// A job that is looked for where there is none.
fn missing(job_id: &str) -> Result<JobMetadata, JobError> {
    load_job("./jobs", job_id)?;
    loaded_job(job_id, StoredJob::Unreadable)
}

fn unknown() -> String {
    uuid::Uuid::new_v4().to_string()
}

#[test]
fn ruta_desconocida_devuelve_404() {
    assert!(crear_router().iter().all(|r| r.path != "/no-existe"));
}

#[test]
fn get_health_devuelve_ok_sin_autenticacion() {
    let routes = crear_router();
    let route = routes.iter().find(|r| r.path == "/health").unwrap();
    assert!(!route.protected);
    let answer = healthcheck(1, false, &None, &config().rag);
    assert_eq!(answer.status, "ok");
    assert!(!answer.heavy_compute_busy);
    let services = answer.services;
    for value in [services.qdrant, services.ollama_embeddings, services.ollama_model] {
        assert!(value == "ok" || value == "error");
    }
}

#[test]
fn preflight_cors_responde_con_headers_de_acceso() {
    let origin = config().services.client_origin;
    match cors_layer(&Vec::new(), &origin).origin {
        CorsOrigin::Only { origin: allowed } => assert_eq!(allowed, origin),
        other => panic!("{other:?}"),
    }
}

#[test]
fn cors_layer_permisivo_acepta_cualquier_origen() {
    assert!(matches!(cors_layer_permisivo().origin, CorsOrigin::Any));
}

fn resumed(job_id: &str) -> (u16, String) {
    match reanudar_job(job_id, missing(job_id).is_ok()) {
        UploadAnswer::Refused { refusal } => (refusal.status, refusal.message),
        other => panic!("{other:?}"),
    }
}

#[test]
fn resume_de_job_inexistente_devuelve_404() {
    assert_eq!(resumed(&unknown()), (404, "Job no encontrado".to_string()));
}

#[test]
fn resume_con_job_id_no_uuid_devuelve_404_sin_tocar_disco_fuera_de_jobs() {
    assert!(load_job("./jobs", "no-es-un-uuid").is_err());
    assert_eq!(resumed("no-es-un-uuid").0, 404);
}

#[test]
fn get_job_inexistente_devuelve_404() {
    let e = obtener_job_handler(missing(&unknown()), None, Ok(Default::default())).unwrap_err();
    assert_eq!(e.status, 404);
}

#[test]
fn get_job_con_job_id_no_uuid_devuelve_404() {
    let e = obtener_job_handler(missing("no-es-un-uuid"), None, Ok(Default::default()));
    assert_eq!(e.unwrap_err().status, 404);
}

#[test]
fn get_transcript_de_job_inexistente_devuelve_404() {
    let threshold = config().rag.low_confidence_thold;
    let e = obtener_transcript_handler(missing(&unknown()), StoredEntries::Missing, threshold);
    assert_eq!(e.unwrap_err().status, 404);
}

#[test]
fn get_transcript_de_job_recien_creado_devuelve_entries_vacio() {
    let metadata = create_job("./jobs", "wav", None);
    let threshold = config().rag.low_confidence_thold;
    let answer = obtener_transcript_handler(Ok(metadata), StoredEntries::Missing, threshold);
    let answer = answer.unwrap();
    assert!(!answer.transcript_ready);
    assert_eq!(answer.entries.len(), 0);
}

#[test]
fn get_metrics_de_job_inexistente_devuelve_404() {
    let e = obtener_metricas_handler(missing(&unknown()), StoredEntries::Missing).unwrap_err();
    assert_eq!(e.status, 404);
}

#[test]
fn get_metrics_de_job_recien_creado_devuelve_entries_vacio() {
    let metadata = create_job("./jobs", "wav", None);
    let answer = obtener_metricas_handler(Ok(metadata), StoredEntries::Missing).unwrap();
    assert_eq!(answer.entries.len(), 0);
}

fn stretch(start: f32, end: f32) -> AudioSegmentParams {
    AudioSegmentParams {
        start: Binary32 { bits: start.to_bits() },
        end: Binary32 { bits: end.to_bits() },
        duration: Binary32 { bits: (end - start).to_bits() },
        start_shown: start.to_string(),
        end_shown: end.to_string(),
    }
}

#[test]
fn get_audio_segment_de_job_inexistente_devuelve_404() {
    let max = config().rag.max_segment_seconds;
    let e = obtener_segmento_audio_handler(missing(&unknown()), stretch(0.0, 10.0), &max);
    assert_eq!(e.unwrap_err().status, 404);
}

#[test]
fn get_audio_segment_con_rango_invalido_devuelve_400() {
    let max = config().rag.max_segment_seconds;
    for (start, end) in [(10.0, 5.0), (0.0, 999.0)] {
        let metadata = create_job("./jobs", "wav", None);
        let e = obtener_segmento_audio_handler(Ok(metadata), stretch(start, end), &max);
        assert_eq!(e.unwrap_err().status, 400);
    }
}

#[test]
fn get_jobs_devuelve_array_json_valido() {
    assert!(listar_jobs_handler(Some(Vec::new())).unwrap().is_empty());
    let metadata = create_job("./jobs", "wav", None);
    let job_id = metadata.job_id.clone();
    let listed = listar_jobs_handler(Some(vec![ListedJob { metadata, stored_summary: None }]));
    assert_eq!(listed.unwrap()[0].job_id, job_id);
}

/// One field of a form: its name, the client's name for a file, and what it holds.
type Sent<'a> = (&'a str, Option<&'a str>, &'a [u8]);

/// Carries an upload out, with a disk on which everything succeeds. Gives the answer and the job,
/// as it is then stored, where one was created.
fn carried_out(fields: &[Sent]) -> (UploadAnswer, Option<JobMetadata>) {
    let mut upload: Upload = recibir_y_procesar_audio("./jobs");
    let mut next = 0;
    let mut read = false;
    let mut stored = None;
    loop {
        let event = match upload.action() {
            UploadAction::NextField if next == fields.len() => UploadEvent::NoMoreFields,
            UploadAction::NextField => {
                next += 1;
                read = false;
                let (name, filename, _) = fields[next - 1];
                UploadEvent::Field {
                    name: Some(name.to_string()),
                    filename: filename.map(str::to_string),
                }
            }
            UploadAction::ReadText => UploadEvent::Text {
                text: String::from_utf8(fields[next - 1].2.to_vec()).unwrap(),
            },
            UploadAction::FirstChunk | UploadAction::NextChunk if read => UploadEvent::EndOfField,
            UploadAction::FirstChunk | UploadAction::NextChunk => {
                read = true;
                UploadEvent::Chunk { bytes: fields[next - 1].2.to_vec() }
            }
            UploadAction::CreateJob { extension, original_filename } => {
                let metadata = create_job("./jobs", &extension, original_filename);
                let job = UploadJob {
                    job_id: metadata.job_id.clone(),
                    audio_path: metadata.audio_path.clone(),
                };
                stored = Some(metadata);
                UploadEvent::JobCreated { job }
            }
            UploadAction::Measure { .. } => UploadEvent::Measured { duration_seconds: None },
            UploadAction::Persist { change, .. } => {
                update_job_metadata(stored.as_mut().unwrap(), change);
                UploadEvent::Done
            }
            UploadAction::Answer { answer } => return (answer, stored),
            _ => UploadEvent::Done,
        };
        upload.advance(event);
    }
}

#[test]
fn upload_de_archivo_invalido_es_rechazado_sin_crear_job() {
    let junk: &[u8] = b"esto no es audio, son bytes cualquiera";
    let (answer, stored) = carried_out(&[("file", Some("campo_basura.bin"), junk)]);
    match answer {
        UploadAnswer::Refused { refusal } => assert_eq!(refusal.status, 400),
        other => panic!("{other:?}"),
    }
    assert!(stored.is_none());
}

#[test]
fn upload_con_title_antes_del_archivo_lo_persiste_en_job_json() {
    let (answer, stored) = carried_out(&[
        ("title", None, "Reunión de planificación  ".as_bytes()),
        ("file", Some("audio.wav"), b"RIFF\x24\x08\x00\x00WAVEfmt "),
    ]);
    let metadata = stored.unwrap();
    match answer {
        UploadAnswer::Accepted { job_id } => assert_eq!(job_id, metadata.job_id),
        other => panic!("{other:?}"),
    }
    assert_eq!(metadata.title.as_deref(), Some("Reunión de planificación"));
}

#[test]
fn upload_con_callback_url_lo_persiste_en_job_json() {
    let wav_minimo: &[u8] = b"RIFF\x24\x08\x00\x00WAVEfmt \x10\x00\x00\x00\x01\x00\x01\x00\
         \x80\xBB\x00\x00\x00\xEE\x02\x00\x02\x00\x10\x00data\x00\x08\x00\x00";
    let (answer, stored) = carried_out(&[
        ("file", Some("callback.wav"), wav_minimo),
        ("callback_url", None, b"http://127.0.0.1:9/webhook-test"),
    ]);
    assert!(matches!(answer, UploadAnswer::Accepted { .. }));
    let metadata = stored.unwrap();
    assert_eq!(metadata.callback_url.as_deref(), Some("http://127.0.0.1:9/webhook-test"));
    assert_eq!(metadata.original_filename.as_deref(), Some("callback.wav"));
}
