//! Routes, who may use them, and the health of the services behind them.
use crate::config::RagConfig;
use crate::text;
use vstd::prelude::*;
use vstd::slice::*;
use vstd::string::*;

verus! {

/// Largest upload that is read: 1 GiB.
pub const UPLOAD_BODY_LIMIT_BYTES: usize = 1024 * 1024 * 1024;

/// Seconds that a service has to show that it is well.
pub const HEALTH_CHECK_TIMEOUT_SECONDS: u64 = 3;

/// Whether each service the server needs is well: `ok` or `error`.
#[derive(Debug)]
pub struct ServiceStatus {
    pub qdrant: &'static str,
    pub ollama_embeddings: &'static str,
    pub ollama_model: &'static str,
}

/// How the server is.
#[derive(Debug)]
pub struct HealthResponse {
    pub status: &'static str,
    pub heavy_compute_busy: bool,
    pub services: ServiceStatus,
}

/// How a service is said to be.
pub open spec fn condition(well: bool) -> Seq<char> {
    if well {
        "ok"@
    } else {
        "error"@
    }
}

fn say(well: bool) -> (r: &'static str)
    ensures
        r@ == condition(well),
{
    if well {
        "ok"
    } else {
        "error"
    }
}

/// The installed model is the configured one, with or without the tag `latest`.
pub open spec fn is_model(installed: Seq<char>, configured: Seq<char>) -> bool {
    installed == configured || installed == configured + ":latest"@
}

/// Some installed model is the configured one.
pub open spec fn installed_among(installed: Seq<Seq<char>>, configured: Seq<char>) -> bool {
    exists|i: int| 0 <= i < installed.len() && is_model(#[trigger] installed[i], configured)
}

/// Whether the configured model is among the installed ones. Where no tag is configured, the
/// installed name may carry the tag `latest`.
pub fn modelo_instalado(modelos: &Vec<String>, nombre_configurado: &str) -> (r: bool)
    ensures
        r == installed_among(text::texts(modelos@), nombre_configurado@),
{
    let ghost names = text::texts(modelos@);
    let mut tagged = nombre_configurado.to_owned();
    tagged.push_str(":latest");
    let mut i: usize = 0;
    while i < modelos.len()
        invariant
            i <= modelos@.len(),
            names == text::texts(modelos@),
            tagged@ == nombre_configurado@ + ":latest"@,
            forall|k: int| 0 <= k < i ==> !is_model(#[trigger] names[k], nombre_configurado@),
        decreases modelos@.len() - i,
    {
        assert(names[i as int] == modelos@[i as int]@);
        if text::same(modelos[i].as_str(), nombre_configurado) || text::same(
            modelos[i].as_str(),
            tagged.as_str(),
        ) {
            assert(is_model(names[i as int], nombre_configurado@));
            return true;
        }
        i = i + 1;
    }
    false
}

/// The state of the server: busy when no permit for heavy work is left; a model is well where it
/// is installed, and no model is where the list of models could not be had.
pub fn healthcheck(
    available_permits: usize,
    qdrant_ok: bool,
    modelos: &Option<Vec<String>>,
    rag: &RagConfig,
) -> (r: HealthResponse)
    ensures
        r.status@ == "ok"@,
        r.heavy_compute_busy == (available_permits == 0),
        r.services.qdrant@ == condition(qdrant_ok),
        r.services.ollama_embeddings@ == condition(
            modelos matches Some(v) && installed_among(text::texts(v@), rag.embedding_model@),
        ),
        r.services.ollama_model@ == condition(
            modelos matches Some(v) && installed_among(text::texts(v@), rag.generation_model@),
        ),
        r.services.qdrant@ == (if qdrant_ok {
            "ok"@
        } else {
            "error"@
        }),
        modelos is None ==> r.services.ollama_embeddings@ == "error"@ && r.services.ollama_model@
            == "error"@,
{
    let (embeddings_ok, model_ok) = match modelos {
        Some(v) => (
            modelo_instalado(v, rag.embedding_model.as_str()),
            modelo_instalado(v, rag.generation_model.as_str()),
        ),
        None => (false, false),
    };
    HealthResponse {
        status: "ok",
        heavy_compute_busy: available_permits == 0,
        services: ServiceStatus {
            qdrant: say(qdrant_ok),
            ollama_embeddings: say(embeddings_ok),
            ollama_model: say(model_ok),
        },
    }
}

/// The token that protects the routes, if there is one.
#[derive(Debug)]
pub struct McpAuthState {
    pub token: Option<String>,
}

/// A byte that a header may show: printable ASCII or a tab.
pub open spec fn is_visible(b: u8) -> bool {
    32 <= b < 127 || b == 9
}

/// All bytes of the header can be shown.
pub open spec fn all_visible(header: Seq<u8>) -> bool {
    forall|i: int| 0 <= i < header.len() ==> is_visible(#[trigger] header[i])
}

/// The header that carries this token.
pub open spec fn bearer(token: Seq<char>) -> Seq<u8> {
    vstd::utf8::encode_utf8("Bearer "@ + token)
}

/// A request with this `Authorization` header may pass: always without a token, and else only
/// with that very token.
pub open spec fn may_pass(token: Option<Seq<char>>, authorization: Option<Seq<u8>>) -> bool {
    match token {
        None => true,
        Some(t) => match authorization {
            None => false,
            Some(h) => all_visible(h) && h == bearer(t),
        },
    }
}

pub open spec fn header_view(h: Option<Vec<u8>>) -> Option<Seq<u8>> {
    match h {
        Some(v) => Some(v@),
        None => None,
    }
}

/// Whether a request with this `Authorization` header may pass.
pub fn exigir_bearer_token(auth: &McpAuthState, authorization: &Option<Vec<u8>>) -> (r: bool)
    ensures
        r == may_pass(text::optional(auth.token), header_view(*authorization)),
{
    let token = match &auth.token {
        None => return true,
        Some(t) => t,
    };
    let header = match authorization {
        None => return false,
        Some(h) => h,
    };
    let mut expected = "Bearer ".to_owned();
    expected.push_str(token.as_str());
    let wanted: &[u8] = expected.as_str().as_bytes();
    assert(wanted@ == bearer(token@));
    if header.len() != wanted.len() {
        return false;
    }
    let mut i: usize = 0;
    while i < header.len()
        invariant
            i <= header@.len(),
            header@.len() == wanted@.len(),
            header_view(*authorization) == Some(header@),
            text::optional(auth.token) == Some(token@),
            wanted@ == bearer(token@),
            forall|k: int| 0 <= k < i ==> header@[k] == wanted@[k] && is_visible(#[trigger] header@[k]),
        decreases header@.len() - i,
    {
        let b: u8 = header[i];
        if b != wanted[i] {
            return false;
        }
        if !((32 <= b && b < 127) || b == 9) {
            assert(!is_visible(header@[i as int]));
            return false;
        }
        i = i + 1;
    }
    assert(header@ =~= wanted@);
    true
}

/// Without a token every request passes; with one, a request passes with exactly one header, if
/// with any.
pub proof fn only_the_token_passes(token: Seq<char>, authorization: Option<Seq<u8>>)
    ensures
        may_pass(None, authorization),
        !may_pass(Some(token), None),
        may_pass(Some(token), authorization) ==> authorization == Some(bearer(token)),
        all_visible(bearer(token)) ==> may_pass(Some(token), Some(bearer(token))),
{
}

/// Different tokens open to different headers.
pub proof fn tokens_do_not_stand_for_each_other(a: Seq<char>, b: Seq<char>, header: Seq<u8>)
    requires
        may_pass(Some(a), Some(header)),
        may_pass(Some(b), Some(header)),
    ensures
        a == b,
{
    vstd::utf8::encode_utf8_decode_utf8("Bearer "@ + a);
    vstd::utf8::encode_utf8_decode_utf8("Bearer "@ + b);
    let n = "Bearer "@.len() as int;
    assert(("Bearer "@ + a).skip(n) =~= a);
    assert(("Bearer "@ + b).skip(n) =~= b);
}

/// A character that the value of a header may hold: a tab, or anything from the space on but the
/// delete character.
pub open spec fn fits_header(c: char) -> bool {
    (c as u32 >= 32 && c as u32 != 127) || c as u32 == 9
}

/// `axum::http::HeaderValue::from_str`, kept to whether it succeeds: it does when no byte of the
/// text is a control character other than a tab. A character beyond ASCII takes only bytes that
/// pass, so the same holds of characters.
#[verifier::external_body]
pub(crate) fn is_header_value(s: &str) -> (r: bool)
    ensures
        r == (forall|i: int| 0 <= i < s@.len() ==> fits_header(#[trigger] s@[i])),
{
    axum::http::HeaderValue::from_str(s).is_ok()
}

/// Where browsers may call from.
#[derive(Debug)]
pub enum CorsOrigin {
    Any,
    Only { origin: String },
}

/// Which calls browsers may make.
#[derive(Debug)]
pub struct CorsPolicy {
    pub origin: CorsOrigin,
    pub methods: Vec<String>,
    pub headers: Vec<String>,
}

/// The origin that is used: the configured one, or the default where that cannot be a header.
pub open spec fn usable_origin(configured: Seq<char>) -> Seq<char> {
    if forall|i: int| 0 <= i < configured.len() ==> fits_header(#[trigger] configured[i]) {
        configured
    } else {
        "http://localhost:4321"@
    }
}

impl CorsPolicy {
    /// Browsers may read and post, and send a token and a content type.
    pub open spec fn usual(self) -> bool {
        &&& text::texts(self.methods@) == seq!["GET"@, "POST"@]
        &&& text::texts(self.headers@) == seq!["authorization"@, "content-type"@]
    }

    fn with_origin(origin: CorsOrigin) -> (r: CorsPolicy)
        ensures
            r.usual(),
            r.origin == origin,
    {
        let mut methods: Vec<String> = Vec::new();
        methods.push("GET".to_owned());
        methods.push("POST".to_owned());
        let mut headers: Vec<String> = Vec::new();
        headers.push("authorization".to_owned());
        headers.push("content-type".to_owned());
        assert(text::texts(methods@) =~= seq!["GET"@, "POST"@]);
        assert(text::texts(headers@) =~= seq!["authorization"@, "content-type"@]);
        CorsPolicy { origin, methods, headers }
    }
}

/// One origin may call: the configured one, or the default where that is malformed.
pub fn cors_layer_origen_unico(client_origin: &str) -> (r: CorsPolicy)
    ensures
        r.usual(),
        r.origin matches CorsOrigin::Only { origin } && origin@ == usable_origin(client_origin@),
{
    let origin = if is_header_value(client_origin) {
        client_origin.to_owned()
    } else {
        "http://localhost:4321".to_owned()
    };
    CorsPolicy::with_origin(CorsOrigin::Only { origin })
}

/// Any origin may call.
pub fn cors_layer_permisivo() -> (r: CorsPolicy)
    ensures
        r.usual(),
        r.origin is Any,
{
    CorsPolicy::with_origin(CorsOrigin::Any)
}

/// Which origins may call: any with `--cors-allow-all` among the arguments, else one.
pub fn cors_layer(args: &Vec<String>, client_origin: &str) -> (r: CorsPolicy)
    ensures
        r.usual(),
        if text::texts(args@).contains("--cors-allow-all"@) {
            r.origin is Any
        } else {
            r.origin matches CorsOrigin::Only { origin } && origin@ == usable_origin(
                client_origin@,
            )
        },
{
    if text::any_is(args, "--cors-allow-all") {
        cors_layer_permisivo()
    } else {
        cors_layer_origen_unico(client_origin)
    }
}

/// The method of a route.
#[derive(Debug, Clone, Copy, PartialEq, Eq, Structural)]
pub enum RouteMethod {
    Get,
    Post,
    Any,
}

/// One route.
#[derive(Debug)]
pub struct Route {
    pub method: RouteMethod,
    pub path: &'static str,
    /// Only requests that may pass reach it.
    pub protected: bool,
    /// Largest body that is read, where it differs from the usual limit.
    pub body_limit: Option<usize>,
}

/// `Route` with its path by its characters.
#[verifier::ext_equal]
pub struct RouteView {
    pub method: RouteMethod,
    pub path: Seq<char>,
    pub protected: bool,
    pub body_limit: Option<usize>,
}

impl View for Route {
    type V = RouteView;

    open spec fn view(&self) -> RouteView {
        RouteView {
            method: self.method,
            path: self.path@,
            protected: self.protected,
            body_limit: self.body_limit,
        }
    }
}

pub open spec fn routes_view(v: Seq<Route>) -> Seq<RouteView> {
    v.map_values(|r: Route| r@)
}

pub open spec fn guarded(method: RouteMethod, path: Seq<char>) -> RouteView {
    RouteView { method, path, protected: true, body_limit: None }
}

pub open spec fn unguarded(method: RouteMethod, path: Seq<char>, body_limit: Option<usize>) -> RouteView {
    RouteView { method, path, protected: false, body_limit }
}

/// The routes that read transcripts.
pub open spec fn protected_routes() -> Seq<RouteView> {
    seq![
        guarded(RouteMethod::Any, "/mcp"@),
        guarded(RouteMethod::Get, "/api/jobs"@),
        guarded(RouteMethod::Get, "/api/jobs/{job_id}"@),
        guarded(RouteMethod::Get, "/api/jobs/{job_id}/transcript"@),
        guarded(RouteMethod::Get, "/api/jobs/{job_id}/metrics"@),
        guarded(RouteMethod::Get, "/api/jobs/{job_id}/audio-segment"@),
        guarded(RouteMethod::Post, "/api/search"@),
        guarded(RouteMethod::Post, "/api/rag/answer"@),
    ]
}

/// The routes that take work in, and the one that tells how the server is.
pub open spec fn open_routes() -> Seq<RouteView> {
    seq![
        unguarded(RouteMethod::Post, "/api/jobs/{job_id}/resume"@, None),
        unguarded(RouteMethod::Post, "/api/upload-audio"@, Some(UPLOAD_BODY_LIMIT_BYTES)),
        unguarded(RouteMethod::Get, "/health"@, None),
    ]
}

fn guard(method: RouteMethod, path: &'static str) -> (r: Route)
    ensures
        r@ == guarded(method, path@),
{
    Route { method, path, protected: true, body_limit: None }
}

/// The routes that read transcripts.
pub fn crear_router_protegido() -> (r: Vec<Route>)
    ensures
        routes_view(r@) == protected_routes(),
{
    let mut out: Vec<Route> = Vec::new();
    out.push(guard(RouteMethod::Any, "/mcp"));
    out.push(guard(RouteMethod::Get, "/api/jobs"));
    out.push(guard(RouteMethod::Get, "/api/jobs/{job_id}"));
    out.push(guard(RouteMethod::Get, "/api/jobs/{job_id}/transcript"));
    out.push(guard(RouteMethod::Get, "/api/jobs/{job_id}/metrics"));
    out.push(guard(RouteMethod::Get, "/api/jobs/{job_id}/audio-segment"));
    out.push(guard(RouteMethod::Post, "/api/search"));
    out.push(guard(RouteMethod::Post, "/api/rag/answer"));
    assert(routes_view(out@) =~= protected_routes());
    out
}

/// All routes of the server.
pub fn crear_router() -> (r: Vec<Route>)
    ensures
        routes_view(r@) == open_routes() + protected_routes(),
        r@.len() == 11,
        forall|i: int|
            0 <= i < r@.len() ==> ((#[trigger] r@[i]).protected <==> r@[i].path@ != "/health"@
                && r@[i].path@ != "/api/upload-audio"@ && r@[i].path@
                != "/api/jobs/{job_id}/resume"@),
{
    let mut out: Vec<Route> = Vec::new();
    out.push(
        Route {
            method: RouteMethod::Post,
            path: "/api/jobs/{job_id}/resume",
            protected: false,
            body_limit: None,
        },
    );
    out.push(
        Route {
            method: RouteMethod::Post,
            path: "/api/upload-audio",
            protected: false,
            body_limit: Some(UPLOAD_BODY_LIMIT_BYTES),
        },
    );
    out.push(
        Route { method: RouteMethod::Get, path: "/health", protected: false, body_limit: None },
    );
    assert(routes_view(out@) =~= open_routes());
    let ghost before = out@;
    let mut rest = crear_router_protegido();
    let ghost others = rest@;
    out.append(&mut rest);
    assert(out@ =~= before + others);
    assert(routes_view(out@) =~= routes_view(before) + routes_view(others));
    proof {
        only_uploads_resumes_and_health_are_open();
        let all = open_routes() + protected_routes();
        assert forall|i: int| 0 <= i < out@.len() implies ((#[trigger] out@[i]).protected
            <==> out@[i].path@ != "/health"@ && out@[i].path@ != "/api/upload-audio"@
            && out@[i].path@ != "/api/jobs/{job_id}/resume"@) by {
            assert(routes_view(out@)[i] == out@[i]@);
            assert(all[i] == out@[i]@);
        }
    }
    out
}

/// Whether a request to a route is served: an open route always, a protected one only with the
/// right header.
pub open spec fn served(
    route: RouteView,
    token: Option<Seq<char>>,
    authorization: Option<Seq<u8>>,
) -> bool {
    !route.protected || may_pass(token, authorization)
}

/// With a token, no route that reads transcripts is served without it.
pub proof fn transcripts_are_never_open(
    i: int,
    token: Seq<char>,
    authorization: Option<Seq<u8>>,
)
    requires
        0 <= i < protected_routes().len(),
        served(protected_routes()[i], Some(token), authorization),
    ensures
        authorization == Some(bearer(token)),
{
}

/// Only three routes are open: the one that takes files, the one that resumes a job, and the one
/// that tells how the server is. Files are sent to the first, and only there is a larger body read.
/// What is sent along is posted: files, resumptions, searches and questions. The tools take any
/// method, and everything else is only read.
pub proof fn only_uploads_resumes_and_health_are_open()
    ensures
        ({
            let all = open_routes() + protected_routes();
            &&& all.len() == 11
            &&& forall|i: int|
                0 <= i < all.len() ==> ((#[trigger] all[i]).protected <==> all[i].path
                    != "/health"@ && all[i].path != "/api/upload-audio"@ && all[i].path
                    != "/api/jobs/{job_id}/resume"@)
            &&& forall|i: int|
                0 <= i < all.len() ==> ((#[trigger] all[i]).body_limit is Some <==> all[i].path
                    == "/api/upload-audio"@)
            &&& forall|i: int|
                0 <= i < all.len() ==> ((#[trigger] all[i]).body_limit matches Some(n) ==> n
                    == 1073741824)
            &&& forall|i: int|
                0 <= i < all.len() ==> ((#[trigger] all[i]).method is Post <==> all[i].path
                    == "/api/upload-audio"@ || all[i].path == "/api/jobs/{job_id}/resume"@
                    || all[i].path == "/api/search"@ || all[i].path == "/api/rag/answer"@)
            &&& forall|i: int|
                0 <= i < all.len() ==> ((#[trigger] all[i]).method is Any <==> all[i].path
                    == "/mcp"@)
        }),
{
    reveal_strlit("/mcp");
    reveal_strlit("/api/jobs");
    reveal_strlit("/api/jobs/{job_id}");
    reveal_strlit("/api/jobs/{job_id}/transcript");
    reveal_strlit("/api/jobs/{job_id}/metrics");
    reveal_strlit("/api/jobs/{job_id}/audio-segment");
    reveal_strlit("/api/search");
    reveal_strlit("/api/rag/answer");
    reveal_strlit("/api/jobs/{job_id}/resume");
    reveal_strlit("/api/upload-audio");
    reveal_strlit("/health");
    let all = open_routes() + protected_routes();
    assert(all[0].path.len() == 25);
    assert(all[1].path.len() == 17);
    assert(all[2].path.len() == 7);
    assert(all[3].path.len() == 4);
    assert(all[4].path.len() == 9);
    assert(all[5].path.len() == 18);
    assert(all[6].path.len() == 29);
    assert(all[7].path.len() == 26);
    assert(all[8].path.len() == 32);
    assert(all[9].path.len() == 11);
    assert(all[10].path.len() == 15);
}

/// A token travels behind the word `Bearer` and a space, and nothing else opens a protected route.
pub proof fn token_travels_as_bearer(token: Seq<char>, header: Seq<u8>, route: RouteView)
    ensures
        route.protected ==> (served(route, Some(token), Some(header)) <==> header
            == vstd::utf8::encode_utf8("Bearer "@ + token) && forall|i: int|
            0 <= i < header.len() ==> 32 <= #[trigger] header[i] < 127 || header[i] == 9),
        route.protected ==> !served(route, Some(token), None),
        !route.protected ==> served(route, Some(token), None),
{
    if forall|i: int| 0 <= i < header.len() ==> 32 <= #[trigger] header[i] < 127 || header[i] == 9 {
        assert(all_visible(header));
    }
    if all_visible(header) {
        assert forall|i: int| 0 <= i < header.len() implies 32 <= #[trigger] header[i] < 127
            || header[i] == 9 by {
            assert(is_visible(header[i]));
        }
    }
}

/// A model is installed exactly if its name is among the installed ones, as it is or with the tag
/// `latest`.
pub proof fn models_go_by_their_name(installed: Seq<Seq<char>>, configured: Seq<char>)
    ensures
        installed_among(installed, configured) <==> installed.contains(configured)
            || installed.contains(configured + ":latest"@),
{
    if installed_among(installed, configured) {
        let i = choose|i: int|
            0 <= i < installed.len() && is_model(#[trigger] installed[i], configured);
        assert(installed.contains(installed[i]));
    }
    if installed.contains(configured) {
        let i = choose|i: int| 0 <= i < installed.len() && installed[i] == configured;
        assert(is_model(installed[i], configured));
    }
    if installed.contains(configured + ":latest"@) {
        let i = choose|i: int|
            0 <= i < installed.len() && installed[i] == configured + ":latest"@;
        assert(is_model(installed[i], configured));
    }
}

/// A configured origin is used as it is, unless it holds a control character.
pub proof fn good_origins_are_used_as_they_are(configured: Seq<char>)
    ensures
        (forall|i: int|
            0 <= i < configured.len() ==> (#[trigger] configured[i] as u32 >= 32
                && configured[i] as u32 != 127) || configured[i] as u32 == 9) ==> usable_origin(
            configured,
        ) == configured,
        usable_origin(configured) == configured || usable_origin(configured)
            == "http://localhost:4321"@,
{
    if forall|i: int|
        0 <= i < configured.len() ==> (#[trigger] configured[i] as u32 >= 32
            && configured[i] as u32 != 127) || configured[i] as u32 == 9 {
        assert forall|i: int| 0 <= i < configured.len() implies fits_header(
            #[trigger] configured[i],
        ) by {}
    }
}

} // verus!
