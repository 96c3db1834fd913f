use speech_to_text::config::{Config, Environment, RagConfig};
use speech_to_text::router::{
    cors_layer, cors_layer_origen_unico, cors_layer_permisivo, crear_router, crear_router_protegido,
    exigir_bearer_token, healthcheck, modelo_instalado, CorsOrigin, McpAuthState, RouteMethod,
    UPLOAD_BODY_LIMIT_BYTES,
};

fn rag() -> RagConfig {
    Config::load(&Environment { vars: Vec::new() }).unwrap().rag
}

fn names(v: &[&str]) -> Vec<String> {
    v.iter().map(|s| s.to_string()).collect()
}

#[test]
fn models_may_carry_the_latest_tag() {
    let installed = names(&["bge-m3:latest", "otro:7b"]);
    assert!(modelo_instalado(&installed, "bge-m3"));
    assert!(modelo_instalado(&installed, "bge-m3:latest"));
    assert!(modelo_instalado(&installed, "otro:7b"));
    assert!(!modelo_instalado(&installed, "otro"));
    assert!(!modelo_instalado(&installed, "bge"));
    assert!(!modelo_instalado(&names(&["bge-m3"]), "bge-m3:latest"));
    assert!(!modelo_instalado(&Vec::new(), ""));
}

#[test]
fn health_tells_each_service_apart() {
    let h = healthcheck(1, true, &Some(names(&["bge-m3:latest"])), &rag());
    assert_eq!(h.status, "ok");
    assert!(!h.heavy_compute_busy);
    assert_eq!(
        (h.services.qdrant, h.services.ollama_embeddings, h.services.ollama_model),
        ("ok", "ok", "error")
    );
    let h = healthcheck(0, false, &None, &rag());
    assert!(h.heavy_compute_busy);
    assert_eq!(
        (h.services.qdrant, h.services.ollama_embeddings, h.services.ollama_model),
        ("error", "error", "error")
    );
    let both = names(&["bge-m3", "qcwind/qwen2.5-7b-instruct-Q4_K_M:latest"]);
    let h = healthcheck(3, true, &Some(both), &rag());
    assert_eq!(h.services.ollama_model, "ok");
}

fn passes(token: Option<&str>, header: Option<&[u8]>) -> bool {
    exigir_bearer_token(
        &McpAuthState { token: token.map(|t| t.to_string()) },
        &header.map(|h| h.to_vec()),
    )
}

#[test]
fn only_the_exact_token_passes() {
    assert!(passes(None, None));
    assert!(passes(None, Some(b"Bearer x")));
    assert!(passes(Some("abc"), Some(b"Bearer abc")));
    assert!(passes(Some(""), Some(b"Bearer ")));
    for h in ["Bearer ab", "Bearer abcd", "bearer abc", "Bearer  abc", "abc", "", "Bearer abc "] {
        assert!(!passes(Some("abc"), Some(h.as_bytes())), "{h}");
    }
    assert!(!passes(Some("abc"), None));
    assert!(!passes(Some("ñ"), Some("Bearer ñ".as_bytes())));
}

#[test]
fn malformed_origins_fall_back() {
    for origin in [
        "http://localhost:4321", "https://a.b", "", "tab\there", "ñ", "a\nb", "\u{7f}", "x\0", "\u{1f}", "~",
    ] {
        let valid = axum::http::HeaderValue::from_str(origin).is_ok();
        match cors_layer_origen_unico(origin).origin {
            CorsOrigin::Only { origin: used } => {
                assert_eq!(used, if valid { origin } else { "http://localhost:4321" }, "{origin:?}");
            }
            other => panic!("{other:?}"),
        }
    }
}

#[test]
fn any_origin_only_on_demand() {
    let p = cors_layer(&names(&["server", "--cors-allow-all"]), "http://x");
    assert!(matches!(p.origin, CorsOrigin::Any));
    assert_eq!(p.methods, ["GET", "POST"]);
    assert_eq!(p.headers, ["authorization", "content-type"]);
    let p = cors_layer(&names(&["server"]), "http://x");
    assert!(matches!(p.origin, CorsOrigin::Only { origin } if origin == "http://x"));
    assert!(matches!(cors_layer_permisivo().origin, CorsOrigin::Any));
}

#[test]
fn routes_that_read_transcripts_are_protected() {
    let protected: Vec<(RouteMethod, &str)> =
        crear_router_protegido().iter().map(|r| (r.method, r.path)).collect();
    assert_eq!(
        protected,
        [
            (RouteMethod::Any, "/mcp"),
            (RouteMethod::Get, "/api/jobs"),
            (RouteMethod::Get, "/api/jobs/{job_id}"),
            (RouteMethod::Get, "/api/jobs/{job_id}/transcript"),
            (RouteMethod::Get, "/api/jobs/{job_id}/metrics"),
            (RouteMethod::Get, "/api/jobs/{job_id}/audio-segment"),
            (RouteMethod::Post, "/api/search"),
            (RouteMethod::Post, "/api/rag/answer"),
        ]
    );
    let all = crear_router();
    assert_eq!(all.len(), 11);
    let open: Vec<&str> = all.iter().filter(|r| !r.protected).map(|r| r.path).collect();
    assert_eq!(open, ["/api/jobs/{job_id}/resume", "/api/upload-audio", "/health"]);
    for r in &all {
        let wanted = if r.path == "/api/upload-audio" { Some(1 << 30) } else { None };
        assert_eq!(r.body_limit, wanted);
    }
    assert_eq!(UPLOAD_BODY_LIMIT_BYTES, 1024 * 1024 * 1024);
}
