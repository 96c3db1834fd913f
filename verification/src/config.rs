//! Process settings, read once from environment variables. A variable that is not set leaves its
//! default; one that is set and does not read stops the start.
use crate::binary32::Binary32;
use crate::numbers;
use crate::text;
use vstd::prelude::*;
use vstd::string::*;

verus! {

/// Samples in one hop of the speech model: 10 ms at 16 kHz. Chunks and overlaps are whole hops.
pub const WHISPER_HOP_SAMPLES: usize = 160;

/// A single precision number with its decimal form and, read as seconds, the samples it spans at
/// 16 kHz: rounded to a whole number, and below zero where the number is.
#[derive(Debug)]
pub struct Real {
    pub value: Binary32,
    pub shown: String,
    pub samples: i64,
}

/// `Real` with its decimal form by its characters.
#[verifier::ext_equal]
pub struct RealView {
    pub value: Binary32,
    pub shown: Seq<char>,
    pub samples: i64,
}

impl View for Real {
    type V = RealView;

    open spec fn view(&self) -> RealView {
        RealView { value: self.value, shown: self.shown@, samples: self.samples }
    }
}

impl Real {
    pub fn copy(&self) -> (r: Real)
        ensures
            r@ == self@,
            r.value == self.value,
            r.shown@ == self.shown@,
            r.samples == self.samples,
    {
        Real { value: self.value, shown: self.shown.clone(), samples: self.samples }
    }
}

/// One environment variable: its text, and what it reads as where a number is wanted, or why it
/// does not.
#[derive(Debug)]
pub struct EnvVar {
    pub key: String,
    pub value: String,
    pub reading: Result<Real, String>,
}

/// `EnvVar` with texts by their characters.
#[verifier::ext_equal]
pub struct EnvVarView {
    pub key: Seq<char>,
    pub value: Seq<char>,
    pub reading: Result<RealView, Seq<char>>,
}

impl View for EnvVar {
    type V = EnvVarView;

    open spec fn view(&self) -> EnvVarView {
        EnvVarView {
            key: self.key@,
            value: self.value@,
            reading: match self.reading {
                Ok(x) => Ok(x@),
                Err(e) => Err(e@),
            },
        }
    }
}

/// The variables of the process.
#[derive(Debug)]
pub struct Environment {
    pub vars: Vec<EnvVar>,
}

impl View for Environment {
    type V = Seq<EnvVarView>;

    open spec fn view(&self) -> Seq<EnvVarView> {
        self.vars@.map_values(|v: EnvVar| v@)
    }
}

/// The first variable of that name.
pub open spec fn lookup(env: Seq<EnvVarView>, key: Seq<char>) -> Option<EnvVarView>
    decreases env.len(),
{
    if env.len() == 0 {
        None
    } else if env[0].key == key {
        Some(env[0])
    } else {
        lookup(env.drop_first(), key)
    }
}

impl Environment {
    pub fn get(&self, key: &str) -> (r: Option<&EnvVar>)
        ensures
            match r {
                Some(v) => lookup(self@, key@) == Some(v@),
                None => lookup(self@, key@) is None,
            },
    {
        let n: usize = self.vars.len();
        let mut i: usize = 0;
        assert(self@.skip(0) == self@);
        while i < n
            invariant
                n == self.vars@.len(),
                i <= n,
                lookup(self@, key@) == lookup(self@.skip(i as int), key@),
            decreases n - i,
        {
            assert(self@.skip(i as int)[0] == self.vars@[i as int]@);
            if text::same(self.vars[i].key.as_str(), key) {
                return Some(&self.vars[i]);
            }
            assert(self@.skip(i as int).drop_first() == self@.skip(i + 1));
            i = i + 1;
        }
        None
    }
}

/// What a variable has to read as.
pub enum Kind {
    Real,
    Flag,
    Natural(int),
    Integer32,
}

/// Why the process cannot start with these variables.
#[derive(Debug)]
pub enum ConfigError {
    Invalid { key: String, value: String, reason: String },
    OverlapTooLong { overlap: String, chunk: String },
    ChunkMisaligned { chunk: String },
    OverlapMisaligned { overlap: String },
}

/// `ConfigError` with texts by their characters.
#[verifier::ext_equal]
pub enum ConfigErrorView {
    Invalid { key: Seq<char>, value: Seq<char>, reason: Seq<char> },
    OverlapTooLong { overlap: Seq<char>, chunk: Seq<char> },
    ChunkMisaligned { chunk: Seq<char> },
    OverlapMisaligned { overlap: Seq<char> },
}

impl View for ConfigError {
    type V = ConfigErrorView;

    open spec fn view(&self) -> ConfigErrorView {
        match *self {
            ConfigError::Invalid { key, value, reason } => ConfigErrorView::Invalid {
                key: key@,
                value: value@,
                reason: reason@,
            },
            ConfigError::OverlapTooLong { overlap, chunk } => ConfigErrorView::OverlapTooLong {
                overlap: overlap@,
                chunk: chunk@,
            },
            ConfigError::ChunkMisaligned { chunk } => ConfigErrorView::ChunkMisaligned {
                chunk: chunk@,
            },
            ConfigError::OverlapMisaligned { overlap } => ConfigErrorView::OverlapMisaligned {
                overlap: overlap@,
            },
        }
    }
}

impl ConfigErrorView {
    /// The message for the operator.
    pub open spec fn text(self) -> Seq<char> {
        match self {
            ConfigErrorView::Invalid { key, value, reason } => "variable de entorno "@ + key
                + "='"@ + value + "' inválida: "@ + reason,
            ConfigErrorView::OverlapTooLong { overlap, chunk } => "OVERLAP_SECONDS ("@ + overlap
                + ") debe ser menor que CHUNK_SECONDS ("@ + chunk + ")"@,
            ConfigErrorView::ChunkMisaligned { chunk } => "CHUNK_SECONDS="@ + chunk + misaligned(),
            ConfigErrorView::OverlapMisaligned { overlap } => "OVERLAP_SECONDS="@ + overlap
                + misaligned(),
        }
    }
}

/// What is said of a length that is not a whole number of hops.
pub open spec fn misaligned() -> Seq<char> {
    " no da un número de samples múltiplo del hop de 10ms de Whisper (160 samples/hop @ 16kHz) — ver 'Context Aware Chunking'"@
}

impl ConfigError {
    /// The message for the operator.
    pub fn message(&self) -> (r: String)
        ensures
            r@ == self@.text(),
    {
        let mut out = String::new();
        match self {
            ConfigError::Invalid { key, value, reason } => {
                out.push_str("variable de entorno ");
                out.push_str(key.as_str());
                out.push_str("='");
                out.push_str(value.as_str());
                out.push_str("' inválida: ");
                out.push_str(reason.as_str());
            },
            ConfigError::OverlapTooLong { overlap, chunk } => {
                out.push_str("OVERLAP_SECONDS (");
                out.push_str(overlap.as_str());
                out.push_str(") debe ser menor que CHUNK_SECONDS (");
                out.push_str(chunk.as_str());
                out.push_str(")");
            },
            ConfigError::ChunkMisaligned { chunk } => {
                out.push_str("CHUNK_SECONDS=");
                out.push_str(chunk.as_str());
                out.push_str(
                    " no da un número de samples múltiplo del hop de 10ms de Whisper (160 samples/hop @ 16kHz) — ver 'Context Aware Chunking'",
                );
            },
            ConfigError::OverlapMisaligned { overlap } => {
                out.push_str("OVERLAP_SECONDS=");
                out.push_str(overlap.as_str());
                out.push_str(
                    " no da un número de samples múltiplo del hop de 10ms de Whisper (160 samples/hop @ 16kHz) — ver 'Context Aware Chunking'",
                );
            },
        }
        assert(out@ == self@.text());
        out
    }
}

/// Why the variable does not read as `kind`, if it does not.
pub open spec fn complaint(v: EnvVarView, kind: Kind) -> Option<Seq<char>> {
    match kind {
        Kind::Real => match v.reading {
            Ok(_) => None,
            Err(e) => Some(e),
        },
        Kind::Flag => match numbers::flag(v.value) {
            Some(_) => None,
            None => Some("provided string was not `true` or `false`"@),
        },
        Kind::Natural(max) => match numbers::natural(v.value, max) {
            Ok(_) => None,
            Err(e) => Some(e.text()),
        },
        Kind::Integer32 => match numbers::integer32(v.value) {
            Ok(_) => None,
            Err(e) => Some(e.text()),
        },
    }
}

/// What is wrong with the variable `key`: it is set and does not read.
pub open spec fn bad(env: Seq<EnvVarView>, key: Seq<char>, kind: Kind) -> Option<ConfigErrorView> {
    match lookup(env, key) {
        None => None,
        Some(v) => match complaint(v, kind) {
            None => None,
            Some(reason) => Some(ConfigErrorView::Invalid { key, value: v.value, reason }),
        },
    }
}

/// The first of two failures.
pub open spec fn first(a: Option<ConfigErrorView>, b: Option<ConfigErrorView>) -> Option<
    ConfigErrorView,
> {
    if a is Some {
        a
    } else {
        b
    }
}

/// The text of the variable, or its default.
pub open spec fn text_value(env: Seq<EnvVarView>, key: Seq<char>, default: Seq<char>) -> Seq<char> {
    match lookup(env, key) {
        None => default,
        Some(v) => v.value,
    }
}

/// What the variable reads as, or its default.
pub open spec fn real_value(env: Seq<EnvVarView>, key: Seq<char>, default: RealView) -> RealView {
    match lookup(env, key) {
        None => default,
        Some(v) => v.reading->Ok_0,
    }
}

/// What the variable reads as, or its default.
pub open spec fn flag_value(env: Seq<EnvVarView>, key: Seq<char>, default: bool) -> bool {
    match lookup(env, key) {
        None => default,
        Some(v) => numbers::flag(v.value)->0,
    }
}

/// What the variable reads as, or its default.
pub open spec fn natural_value(env: Seq<EnvVarView>, key: Seq<char>, max: int, default: int) -> int {
    match lookup(env, key) {
        None => default,
        Some(v) => numbers::natural(v.value, max)->Ok_0,
    }
}

/// What the variable reads as, or its default.
pub open spec fn integer_value(env: Seq<EnvVarView>, key: Seq<char>, default: int) -> int {
    match lookup(env, key) {
        None => default,
        Some(v) => numbers::integer32(v.value)->Ok_0,
    }
}

fn env_text(env: &Environment, key: &str, default: &str) -> (r: String)
    ensures
        r@ == text_value(env@, key@, default@),
{
    match env.get(key) {
        None => default.to_owned(),
        Some(v) => v.value.clone(),
    }
}

fn env_real(env: &Environment, key: &str, default: Real) -> (r: Result<Real, ConfigError>)
    ensures
        match r {
            Ok(x) => bad(env@, key@, Kind::Real) is None && x@ == real_value(
                env@,
                key@,
                default@,
            ),
            Err(e) => bad(env@, key@, Kind::Real) == Some(e@),
        },
{
    match env.get(key) {
        None => Ok(default),
        Some(v) => match &v.reading {
            Ok(x) => Ok(x.copy()),
            Err(e) => Err(
                ConfigError::Invalid {
                    key: key.to_owned(),
                    value: v.value.clone(),
                    reason: e.clone(),
                },
            ),
        },
    }
}

fn env_flag(env: &Environment, key: &str, default: bool) -> (r: Result<bool, ConfigError>)
    ensures
        match r {
            Ok(x) => bad(env@, key@, Kind::Flag) is None && x == flag_value(env@, key@, default),
            Err(e) => bad(env@, key@, Kind::Flag) == Some(e@),
        },
{
    match env.get(key) {
        None => Ok(default),
        Some(v) => match numbers::parse_flag(v.value.as_str()) {
            Some(b) => Ok(b),
            None => Err(
                ConfigError::Invalid {
                    key: key.to_owned(),
                    value: v.value.clone(),
                    reason: "provided string was not `true` or `false`".to_owned(),
                },
            ),
        },
    }
}

fn env_natural(env: &Environment, key: &str, max: u64, default: u64) -> (r: Result<u64, ConfigError>)
    requires
        default <= max,
    ensures
        match r {
            Ok(x) => {
                &&& bad(env@, key@, Kind::Natural(max as int)) is None
                &&& x == natural_value(env@, key@, max as int, default as int)
                &&& x <= max
            },
            Err(e) => bad(env@, key@, Kind::Natural(max as int)) == Some(e@),
        },
{
    match env.get(key) {
        None => Ok(default),
        Some(v) => match numbers::parse_natural(v.value.as_str(), max) {
            Ok(n) => Ok(n),
            Err(e) => Err(
                ConfigError::Invalid {
                    key: key.to_owned(),
                    value: v.value.clone(),
                    reason: e.message(),
                },
            ),
        },
    }
}

fn env_integer(env: &Environment, key: &str, default: i32) -> (r: Result<i32, ConfigError>)
    ensures
        match r {
            Ok(x) => bad(env@, key@, Kind::Integer32) is None && x == integer_value(
                env@,
                key@,
                default as int,
            ),
            Err(e) => bad(env@, key@, Kind::Integer32) == Some(e@),
        },
{
    match env.get(key) {
        None => Ok(default),
        Some(v) => match numbers::parse_integer32(v.value.as_str()) {
            Ok(n) => Ok(n),
            Err(e) => Err(
                ConfigError::Invalid {
                    key: key.to_owned(),
                    value: v.value.clone(),
                    reason: e.message(),
                },
            ),
        },
    }
}

/// A number given by its bits, its decimal form and the samples it spans.
pub open spec fn given(bits: u32, shown: Seq<char>, samples: i64) -> RealView {
    RealView { value: Binary32 { bits }, shown, samples }
}

fn make_real(bits: u32, shown: &str, samples: i64) -> (r: Real)
    ensures
        r@ == given(bits, shown@, samples),
{
    Real { value: Binary32 { bits }, shown: shown.to_owned(), samples }
}

/// Where files and tools are.
#[derive(Debug)]
pub struct PathsConfig {
    pub jobs_dir: String,
    pub logs_dir: String,
    pub whisper_model_path: String,
    pub ffmpeg_bin: String,
    pub ffprobe_bin: String,
}

impl PathsConfig {
    /// Every field is what its variable reads as, or its default.
    pub open spec fn reads(self, env: Seq<EnvVarView>) -> bool {
        &&& self.jobs_dir@ == text_value(env, "JOBS_DIR"@, "./jobs"@)
        &&& self.logs_dir@ == text_value(env, "LOGS_DIR"@, "./logs"@)
        &&& self.whisper_model_path@ == text_value(env, "WHISPER_MODEL_PATH"@, "models/ggml-small-q5_1.bin"@)
        &&& self.ffmpeg_bin@ == text_value(env, "FFMPEG_BIN"@, "ffmpeg"@)
        &&& self.ffprobe_bin@ == text_value(env, "FFPROBE_BIN"@, "ffprobe"@)
    }

    fn load(env: &Environment) -> (r: PathsConfig)
        ensures
            r.reads(env@),
    {
        let jobs_dir = env_text(env, "JOBS_DIR", "./jobs");
        let logs_dir = env_text(env, "LOGS_DIR", "./logs");
        let whisper_model_path = env_text(env, "WHISPER_MODEL_PATH", "models/ggml-small-q5_1.bin");
        let ffmpeg_bin = env_text(env, "FFMPEG_BIN", "ffmpeg");
        let ffprobe_bin = env_text(env, "FFPROBE_BIN", "ffprobe");
        PathsConfig { jobs_dir, logs_dir, whisper_model_path, ffmpeg_bin, ffprobe_bin }
    }
}

/// The services around the server, and where it listens.
#[derive(Debug)]
pub struct ServicesConfig {
    pub ollama_host: String,
    pub ollama_port: u16,
    pub qdrant_url: String,
    pub bind_addr: String,
    /// The origin browsers may call from.
    pub client_origin: String,
}

impl ServicesConfig {
    /// Every field is what its variable reads as, or its default.
    pub open spec fn reads(self, env: Seq<EnvVarView>) -> bool {
        &&& self.ollama_host@ == text_value(env, "OLLAMA_HOST"@, "http://127.0.0.1"@)
        &&& self.ollama_port == natural_value(env, "OLLAMA_PORT"@, 65535, 11434)
        &&& self.qdrant_url@ == text_value(env, "QDRANT_URL"@, "http://localhost:6334"@)
        &&& self.bind_addr@ == text_value(env, "SERVER_BIND_ADDR"@, "0.0.0.0:3000"@)
        &&& self.client_origin@ == text_value(env, "CLIENT_ORIGIN"@, "http://localhost:4321"@)
    }

    /// The first of these variables that does not read.
    pub open spec fn failure(env: Seq<EnvVarView>) -> Option<ConfigErrorView> {
        bad(env, "OLLAMA_PORT"@, Kind::Natural(65535))
    }

    fn load(env: &Environment) -> (r: Result<ServicesConfig, ConfigError>)
        ensures
            match r {
                Ok(c) => Self::failure(env@) is None && c.reads(env@),
                Err(e) => Self::failure(env@) == Some(e@),
            },
    {
        let ollama_host = env_text(env, "OLLAMA_HOST", "http://127.0.0.1");
        let ollama_port: u16 = match env_natural(env, "OLLAMA_PORT", 65535, 11434) {
            Ok(x) => x as u16,
            Err(e) => return Err(e),
        };
        let qdrant_url = env_text(env, "QDRANT_URL", "http://localhost:6334");
        let bind_addr = env_text(env, "SERVER_BIND_ADDR", "0.0.0.0:3000");
        let client_origin = env_text(env, "CLIENT_ORIGIN", "http://localhost:4321");
        Ok(ServicesConfig { ollama_host, ollama_port, qdrant_url, bind_addr, client_origin })
    }
}

/// How the speech model decodes.
#[derive(Debug)]
pub struct WhisperConfig {
    pub entropy_thold: Binary32,
    pub suppress_blank: bool,
    pub suppress_nst: bool,
    pub temperature: Binary32,
    pub temperature_inc: Binary32,
    pub logprob_thold: Binary32,
    pub no_speech_thold: Binary32,
    pub single_segment: bool,
    pub token_timestamps: bool,
    pub split_on_word: bool,
    pub n_threads: i32,
    /// Text the model is primed with.
    pub initial_prompt: String,
    pub greedy_best_of: i32,
}

impl WhisperConfig {
    /// Every field is what its variable reads as, or its default.
    pub open spec fn reads(self, env: Seq<EnvVarView>) -> bool {
        &&& self.entropy_thold == real_value(env, "WHISPER_ENTROPY_THOLD"@, given(0x4013_3333, "2.3"@, 36800)).value
        &&& self.suppress_blank == flag_value(env, "WHISPER_SUPPRESS_BLANK"@, true)
        &&& self.suppress_nst == flag_value(env, "WHISPER_SUPPRESS_NST"@, true)
        &&& self.temperature == real_value(env, "WHISPER_TEMPERATURE"@, given(0, "0"@, 0)).value
        &&& self.temperature_inc == real_value(env, "WHISPER_TEMPERATURE_INC"@, given(0x3dcc_cccd, "0.1"@, 1600)).value
        &&& self.logprob_thold == real_value(env, "WHISPER_LOGPROB_THOLD"@, given(0xbf4c_cccd, "-0.8"@, -12800 as i64)).value
        &&& self.no_speech_thold == real_value(env, "WHISPER_NO_SPEECH_THOLD"@, given(0x3f00_0000, "0.5"@, 8000)).value
        &&& self.single_segment == flag_value(env, "WHISPER_SINGLE_SEGMENT"@, false)
        &&& self.token_timestamps == flag_value(env, "WHISPER_TOKEN_TIMESTAMPS"@, false)
        &&& self.split_on_word == flag_value(env, "WHISPER_SPLIT_ON_WORD"@, true)
        &&& self.n_threads == integer_value(env, "WHISPER_N_THREADS"@, 8)
        &&& self.initial_prompt@ == text_value(env, "WHISPER_INITIAL_PROMPT"@, "Transcripción de una reunión de trabajo en español, conversación natural."@)
        &&& self.greedy_best_of == integer_value(env, "WHISPER_GREEDY_BEST_OF"@, 5)
    }

    /// The first of these variables that does not read.
    pub open spec fn failure(env: Seq<EnvVarView>) -> Option<ConfigErrorView> {
        first(bad(env, "WHISPER_ENTROPY_THOLD"@, Kind::Real), first(bad(env, "WHISPER_SUPPRESS_BLANK"@, Kind::Flag), first(bad(env, "WHISPER_SUPPRESS_NST"@, Kind::Flag), first(bad(env, "WHISPER_TEMPERATURE"@, Kind::Real), first(bad(env, "WHISPER_TEMPERATURE_INC"@, Kind::Real), first(bad(env, "WHISPER_LOGPROB_THOLD"@, Kind::Real), first(bad(env, "WHISPER_NO_SPEECH_THOLD"@, Kind::Real), first(bad(env, "WHISPER_SINGLE_SEGMENT"@, Kind::Flag), first(bad(env, "WHISPER_TOKEN_TIMESTAMPS"@, Kind::Flag), first(bad(env, "WHISPER_SPLIT_ON_WORD"@, Kind::Flag), first(bad(env, "WHISPER_N_THREADS"@, Kind::Integer32), bad(env, "WHISPER_GREEDY_BEST_OF"@, Kind::Integer32))))))))))))
    }

    fn load(env: &Environment) -> (r: Result<WhisperConfig, ConfigError>)
        ensures
            match r {
                Ok(c) => Self::failure(env@) is None && c.reads(env@),
                Err(e) => Self::failure(env@) == Some(e@),
            },
    {
        let entropy_thold: Binary32 = match env_real(env, "WHISPER_ENTROPY_THOLD", make_real(0x4013_3333, "2.3", 36800)) {
            Ok(x) => x.value,
            Err(e) => return Err(e),
        };
        let suppress_blank: bool = match env_flag(env, "WHISPER_SUPPRESS_BLANK", true) {
            Ok(x) => x,
            Err(e) => return Err(e),
        };
        let suppress_nst: bool = match env_flag(env, "WHISPER_SUPPRESS_NST", true) {
            Ok(x) => x,
            Err(e) => return Err(e),
        };
        let temperature: Binary32 = match env_real(env, "WHISPER_TEMPERATURE", make_real(0, "0", 0)) {
            Ok(x) => x.value,
            Err(e) => return Err(e),
        };
        let temperature_inc: Binary32 = match env_real(env, "WHISPER_TEMPERATURE_INC", make_real(0x3dcc_cccd, "0.1", 1600)) {
            Ok(x) => x.value,
            Err(e) => return Err(e),
        };
        let logprob_thold: Binary32 = match env_real(env, "WHISPER_LOGPROB_THOLD", make_real(0xbf4c_cccd, "-0.8", -12800)) {
            Ok(x) => x.value,
            Err(e) => return Err(e),
        };
        let no_speech_thold: Binary32 = match env_real(env, "WHISPER_NO_SPEECH_THOLD", make_real(0x3f00_0000, "0.5", 8000)) {
            Ok(x) => x.value,
            Err(e) => return Err(e),
        };
        let single_segment: bool = match env_flag(env, "WHISPER_SINGLE_SEGMENT", false) {
            Ok(x) => x,
            Err(e) => return Err(e),
        };
        let token_timestamps: bool = match env_flag(env, "WHISPER_TOKEN_TIMESTAMPS", false) {
            Ok(x) => x,
            Err(e) => return Err(e),
        };
        let split_on_word: bool = match env_flag(env, "WHISPER_SPLIT_ON_WORD", true) {
            Ok(x) => x,
            Err(e) => return Err(e),
        };
        let n_threads: i32 = match env_integer(env, "WHISPER_N_THREADS", 8) {
            Ok(x) => x,
            Err(e) => return Err(e),
        };
        let initial_prompt = env_text(env, "WHISPER_INITIAL_PROMPT", "Transcripción de una reunión de trabajo en español, conversación natural.");
        let greedy_best_of: i32 = match env_integer(env, "WHISPER_GREEDY_BEST_OF", 5) {
            Ok(x) => x,
            Err(e) => return Err(e),
        };
        Ok(WhisperConfig { entropy_thold, suppress_blank, suppress_nst, temperature, temperature_inc, logprob_thold, no_speech_thold, single_segment, token_timestamps, split_on_word, n_threads, initial_prompt, greedy_best_of })
    }
}

/// How audio is cut, in seconds.
#[derive(Debug)]
pub struct ChunkingConfig {
    /// Length of a chunk.
    pub chunk_seconds: Real,
    /// How much of a chunk the next one repeats.
    pub overlap_seconds: Real,
    pub resampler_chunk_size: usize,
}

impl ChunkingConfig {
    /// Every field is what its variable reads as, or its default.
    pub open spec fn reads(self, env: Seq<EnvVarView>) -> bool {
        &&& self.chunk_seconds@ == real_value(env, "CHUNK_SECONDS"@, given(0x41f0_0000, "30"@, 480000))
        &&& self.overlap_seconds@ == real_value(env, "OVERLAP_SECONDS"@, given(0x4000_0000, "2"@, 32000))
        &&& self.resampler_chunk_size == natural_value(env, "RESAMPLER_CHUNK_SIZE"@, usize::MAX as int, 1024)
    }

    /// The first of these variables that does not read.
    pub open spec fn failure(env: Seq<EnvVarView>) -> Option<ConfigErrorView> {
        first(bad(env, "CHUNK_SECONDS"@, Kind::Real), first(bad(env, "OVERLAP_SECONDS"@, Kind::Real), bad(env, "RESAMPLER_CHUNK_SIZE"@, Kind::Natural(usize::MAX as int))))
    }

    fn load(env: &Environment) -> (r: Result<ChunkingConfig, ConfigError>)
        ensures
            match r {
                Ok(c) => Self::failure(env@) is None && c.reads(env@),
                Err(e) => Self::failure(env@) == Some(e@),
            },
    {
        let chunk_seconds: Real = match env_real(env, "CHUNK_SECONDS", make_real(0x41f0_0000, "30", 480000)) {
            Ok(x) => x,
            Err(e) => return Err(e),
        };
        let overlap_seconds: Real = match env_real(env, "OVERLAP_SECONDS", make_real(0x4000_0000, "2", 32000)) {
            Ok(x) => x,
            Err(e) => return Err(e),
        };
        let resampler_chunk_size: usize = match env_natural(env, "RESAMPLER_CHUNK_SIZE", usize::MAX as u64, 1024) {
            Ok(x) => x as usize,
            Err(e) => return Err(e),
        };
        Ok(ChunkingConfig { chunk_seconds, overlap_seconds, resampler_chunk_size })
    }
}

/// Retrieval, generation, reranking and summaries.
#[derive(Debug)]
pub struct RagConfig {
    pub embedding_model: String,
    pub generation_model: String,
    pub reranker_model_id: String,
    pub reranker_revision: String,
    pub top_k: u64,
    pub search_top_k: u64,
    pub rerank_candidate_pool: u64,
    /// Mean log probability under which a chunk is marked as doubtful.
    pub low_confidence_thold: Binary32,
    pub batch_max_chunks: usize,
    pub batch_max_chars: usize,
    pub batch_num_ctx: u64,
    pub batch_num_predict: i32,
    pub consolidation_num_predict: i32,
    pub rag_answer_num_ctx: u64,
    /// Longest clip that is cut from a recording.
    pub max_segment_seconds: Real,
}

impl RagConfig {
    /// Every field is what its variable reads as, or its default.
    pub open spec fn reads(self, env: Seq<EnvVarView>) -> bool {
        &&& self.embedding_model@ == text_value(env, "RAG_EMBEDDING_MODEL"@, "bge-m3"@)
        &&& self.generation_model@ == text_value(env, "RAG_GENERATION_MODEL"@, "qcwind/qwen2.5-7b-instruct-Q4_K_M:latest"@)
        &&& self.reranker_model_id@ == text_value(env, "RAG_RERANKER_MODEL_ID"@, "BAAI/bge-reranker-v2-m3"@)
        &&& self.reranker_revision@ == text_value(env, "RAG_RERANKER_REVISION"@, "main"@)
        &&& self.top_k == natural_value(env, "RAG_TOP_K"@, u64::MAX as int, 6)
        &&& self.search_top_k == natural_value(env, "RAG_SEARCH_TOP_K"@, u64::MAX as int, 8)
        &&& self.rerank_candidate_pool == natural_value(env, "RAG_RERANK_CANDIDATE_POOL"@, u64::MAX as int, 30)
        &&& self.low_confidence_thold == real_value(env, "RAG_LOW_CONFIDENCE_THOLD"@, given(0xbf19_999a, "-0.6"@, -9600 as i64)).value
        &&& self.batch_max_chunks == natural_value(env, "RAG_SUMMARY_BATCH_MAX_CHUNKS"@, usize::MAX as int, 50)
        &&& self.batch_max_chars == natural_value(env, "RAG_SUMMARY_BATCH_MAX_CHARS"@, usize::MAX as int, 12000)
        &&& self.batch_num_ctx == natural_value(env, "RAG_SUMMARY_BATCH_NUM_CTX"@, u64::MAX as int, 8192)
        &&& self.batch_num_predict == integer_value(env, "RAG_SUMMARY_BATCH_NUM_PREDICT"@, 300)
        &&& self.consolidation_num_predict == integer_value(env, "RAG_SUMMARY_CONSOLIDATION_NUM_PREDICT"@, 500)
        &&& self.rag_answer_num_ctx == natural_value(env, "RAG_ANSWER_NUM_CTX"@, u64::MAX as int, 4096)
        &&& self.max_segment_seconds@ == real_value(env, "MAX_SEGMENT_SECONDS"@, given(0x42f0_0000, "120"@, 1920000))
    }

    /// The first of these variables that does not read.
    pub open spec fn failure(env: Seq<EnvVarView>) -> Option<ConfigErrorView> {
        first(bad(env, "RAG_TOP_K"@, Kind::Natural(u64::MAX as int)), first(bad(env, "RAG_SEARCH_TOP_K"@, Kind::Natural(u64::MAX as int)), first(bad(env, "RAG_RERANK_CANDIDATE_POOL"@, Kind::Natural(u64::MAX as int)), first(bad(env, "RAG_LOW_CONFIDENCE_THOLD"@, Kind::Real), first(bad(env, "RAG_SUMMARY_BATCH_MAX_CHUNKS"@, Kind::Natural(usize::MAX as int)), first(bad(env, "RAG_SUMMARY_BATCH_MAX_CHARS"@, Kind::Natural(usize::MAX as int)), first(bad(env, "RAG_SUMMARY_BATCH_NUM_CTX"@, Kind::Natural(u64::MAX as int)), first(bad(env, "RAG_SUMMARY_BATCH_NUM_PREDICT"@, Kind::Integer32), first(bad(env, "RAG_SUMMARY_CONSOLIDATION_NUM_PREDICT"@, Kind::Integer32), first(bad(env, "RAG_ANSWER_NUM_CTX"@, Kind::Natural(u64::MAX as int)), bad(env, "MAX_SEGMENT_SECONDS"@, Kind::Real)))))))))))
    }

    fn load(env: &Environment) -> (r: Result<RagConfig, ConfigError>)
        ensures
            match r {
                Ok(c) => Self::failure(env@) is None && c.reads(env@),
                Err(e) => Self::failure(env@) == Some(e@),
            },
    {
        let embedding_model = env_text(env, "RAG_EMBEDDING_MODEL", "bge-m3");
        let generation_model = env_text(env, "RAG_GENERATION_MODEL", "qcwind/qwen2.5-7b-instruct-Q4_K_M:latest");
        let reranker_model_id = env_text(env, "RAG_RERANKER_MODEL_ID", "BAAI/bge-reranker-v2-m3");
        let reranker_revision = env_text(env, "RAG_RERANKER_REVISION", "main");
        let top_k: u64 = match env_natural(env, "RAG_TOP_K", u64::MAX, 6) {
            Ok(x) => x,
            Err(e) => return Err(e),
        };
        let search_top_k: u64 = match env_natural(env, "RAG_SEARCH_TOP_K", u64::MAX, 8) {
            Ok(x) => x,
            Err(e) => return Err(e),
        };
        let rerank_candidate_pool: u64 = match env_natural(env, "RAG_RERANK_CANDIDATE_POOL", u64::MAX, 30) {
            Ok(x) => x,
            Err(e) => return Err(e),
        };
        let low_confidence_thold: Binary32 = match env_real(env, "RAG_LOW_CONFIDENCE_THOLD", make_real(0xbf19_999a, "-0.6", -9600)) {
            Ok(x) => x.value,
            Err(e) => return Err(e),
        };
        let batch_max_chunks: usize = match env_natural(env, "RAG_SUMMARY_BATCH_MAX_CHUNKS", usize::MAX as u64, 50) {
            Ok(x) => x as usize,
            Err(e) => return Err(e),
        };
        let batch_max_chars: usize = match env_natural(env, "RAG_SUMMARY_BATCH_MAX_CHARS", usize::MAX as u64, 12000) {
            Ok(x) => x as usize,
            Err(e) => return Err(e),
        };
        let batch_num_ctx: u64 = match env_natural(env, "RAG_SUMMARY_BATCH_NUM_CTX", u64::MAX, 8192) {
            Ok(x) => x,
            Err(e) => return Err(e),
        };
        let batch_num_predict: i32 = match env_integer(env, "RAG_SUMMARY_BATCH_NUM_PREDICT", 300) {
            Ok(x) => x,
            Err(e) => return Err(e),
        };
        let consolidation_num_predict: i32 = match env_integer(env, "RAG_SUMMARY_CONSOLIDATION_NUM_PREDICT", 500) {
            Ok(x) => x,
            Err(e) => return Err(e),
        };
        let rag_answer_num_ctx: u64 = match env_natural(env, "RAG_ANSWER_NUM_CTX", u64::MAX, 4096) {
            Ok(x) => x,
            Err(e) => return Err(e),
        };
        let max_segment_seconds: Real = match env_real(env, "MAX_SEGMENT_SECONDS", make_real(0x42f0_0000, "120", 1920000)) {
            Ok(x) => x,
            Err(e) => return Err(e),
        };
        Ok(RagConfig { embedding_model, generation_model, reranker_model_id, reranker_revision, top_k, search_top_k, rerank_candidate_pool, low_confidence_thold, batch_max_chunks, batch_max_chars, batch_num_ctx, batch_num_predict, consolidation_num_predict, rag_answer_num_ctx, max_segment_seconds })
    }
}

/// So many samples are a whole number of hops.
pub open spec fn whole_hops(samples: int) -> bool {
    samples % WHISPER_HOP_SAMPLES as int == 0
}

/// What is wrong with how audio is to be cut. A length that is not a number is never shorter
/// than another, nor is another shorter than it.
pub open spec fn chunking_failure(chunk: RealView, overlap: RealView) -> Option<ConfigErrorView> {
    if !overlap.value.below(chunk.value) {
        Some(ConfigErrorView::OverlapTooLong { overlap: overlap.shown, chunk: chunk.shown })
    } else if chunk.samples <= 0 || !whole_hops(chunk.samples as int) {
        Some(ConfigErrorView::ChunkMisaligned { chunk: chunk.shown })
    } else if !whole_hops(overlap.samples as int) {
        Some(ConfigErrorView::OverlapMisaligned { overlap: overlap.shown })
    } else {
        None
    }
}

/// Whether so many samples are a whole number of hops.
fn in_whole_hops(samples: i64) -> (r: bool)
    ensures
        r == whole_hops(samples as int),
{
    if samples >= 0 {
        samples as u64 % WHISPER_HOP_SAMPLES as u64 == 0
    } else {
        let span: u64 = (-(samples + 1)) as u64 + 1;
        assert(span as int % 160 == 0 <==> samples as int % 160 == 0) by (nonlinear_arith)
            requires
                span == -samples,
        ;
        span % WHISPER_HOP_SAMPLES as u64 == 0
    }
}

/// Chunk and overlap must be whole hops, the chunk at least one, and the overlap shorter than the chunk.
pub fn validar_chunking(chunking: &ChunkingConfig) -> (r: Result<(), ConfigError>)
    ensures
        match r {
            Ok(_) => chunking_failure(
                chunking.chunk_seconds@,
                chunking.overlap_seconds@,
            ) is None,
            Err(e) => chunking_failure(chunking.chunk_seconds@, chunking.overlap_seconds@) == Some(
                e@,
            ),
        },
{
    let chunk = &chunking.chunk_seconds;
    let overlap = &chunking.overlap_seconds;
    if !overlap.value.is_below(chunk.value) {
        return Err(
            ConfigError::OverlapTooLong {
                overlap: overlap.shown.clone(),
                chunk: chunk.shown.clone(),
            },
        );
    }
    if chunk.samples <= 0 || !in_whole_hops(chunk.samples) {
        return Err(ConfigError::ChunkMisaligned { chunk: chunk.shown.clone() });
    }
    if !in_whole_hops(overlap.samples) {
        return Err(ConfigError::OverlapMisaligned { overlap: overlap.shown.clone() });
    }
    Ok(())
}

/// All settings of the process.
#[derive(Debug)]
pub struct Config {
    pub paths: PathsConfig,
    pub services: ServicesConfig,
    pub whisper: WhisperConfig,
    pub chunking: ChunkingConfig,
    pub rag: RagConfig,
    /// Without a token the protected routes are open.
    pub mcp_bearer_token: Option<String>,
    /// Hosts that may reach `/mcp` besides this machine.
    pub mcp_allowed_hosts: Vec<String>,
}

/// The text of the variable, if it is set.
pub open spec fn optional_text(env: Seq<EnvVarView>, key: Seq<char>) -> Option<Seq<char>> {
    match lookup(env, key) {
        None => None,
        Some(v) => Some(v.value),
    }
}

impl Config {
    /// Why the process cannot start, if it cannot: the first variable that does not read, in the
    /// order of the settings, with the cut of the audio judged as soon as it is known.
    pub open spec fn failure(env: Seq<EnvVarView>) -> Option<ConfigErrorView> {
        first(
            ServicesConfig::failure(env),
            first(
                WhisperConfig::failure(env),
                first(
                    ChunkingConfig::failure(env),
                    first(
                        chunking_failure(
                            real_value(env, "CHUNK_SECONDS"@, given(0x41f0_0000, "30"@, 480000)),
                            real_value(env, "OVERLAP_SECONDS"@, given(0x4000_0000, "2"@, 32000)),
                        ),
                        RagConfig::failure(env),
                    ),
                ),
            ),
        )
    }

    /// Every setting is what its variable reads as, or its default.
    pub open spec fn reads(self, env: Seq<EnvVarView>) -> bool {
        &&& self.paths.reads(env)
        &&& self.services.reads(env)
        &&& self.whisper.reads(env)
        &&& self.chunking.reads(env)
        &&& self.rag.reads(env)
        &&& text::optional(self.mcp_bearer_token) == optional_text(env, "MCP_BEARER_TOKEN"@)
        &&& text::texts(self.mcp_allowed_hosts@) == text::comma_list(
            text_value(env, "MCP_ALLOWED_HOSTS"@, ""@),
        )
    }

    /// Reads the settings from the environment.
    pub fn load(env: &Environment) -> (r: Result<Config, ConfigError>)
        ensures
            match r {
                Ok(c) => Self::failure(env@) is None && c.reads(env@),
                Err(e) => Self::failure(env@) == Some(e@),
            },
    {
        let paths = PathsConfig::load(env);
        let services = match ServicesConfig::load(env) {
            Ok(c) => c,
            Err(e) => return Err(e),
        };
        let whisper = match WhisperConfig::load(env) {
            Ok(c) => c,
            Err(e) => return Err(e),
        };
        let chunking = match ChunkingConfig::load(env) {
            Ok(c) => c,
            Err(e) => return Err(e),
        };
        match validar_chunking(&chunking) {
            Ok(_) => {},
            Err(e) => return Err(e),
        }
        let rag = match RagConfig::load(env) {
            Ok(c) => c,
            Err(e) => return Err(e),
        };
        let mcp_bearer_token = match env.get("MCP_BEARER_TOKEN") {
            Some(v) => Some(v.value.clone()),
            None => None,
        };
        let hosts = env_text(env, "MCP_ALLOWED_HOSTS", "");
        let mcp_allowed_hosts = text::split_commas(hosts.as_str());
        Ok(
            Config {
                paths,
                services,
                whisper,
                chunking,
                rag,
                mcp_bearer_token,
                mcp_allowed_hosts,
            },
        )
    }
}

/// Without any variable the process starts, on the defaults.
pub proof fn starts_without_variables()
    ensures
        Config::failure(Seq::empty()) is None,
        forall|key: Seq<char>, d: Seq<char>| #[trigger]
            text_value(Seq::empty(), key, d) == d,
        forall|key: Seq<char>, d: RealView| #[trigger] real_value(Seq::empty(), key, d) == d,
        forall|key: Seq<char>, d: bool| #[trigger] flag_value(Seq::empty(), key, d) == d,
        forall|key: Seq<char>, max: int, d: int| #[trigger]
            natural_value(Seq::empty(), key, max, d) == d,
        forall|key: Seq<char>, d: int| #[trigger] integer_value(Seq::empty(), key, d) == d,
        forall|key: Seq<char>| #[trigger] optional_text(Seq::empty(), key) is None,
{
}

/// A process that started cuts audio into whole hops, at least one per chunk, with an overlap
/// shorter than the chunk.
pub proof fn started_chunking_is_aligned(c: Config, env: Seq<EnvVarView>)
    requires
        Config::failure(env) is None,
        c.reads(env),
    ensures
        c.chunking.chunk_seconds.samples > 0,
        whole_hops(c.chunking.chunk_seconds.samples as int),
        whole_hops(c.chunking.overlap_seconds.samples as int),
        c.chunking.overlap_seconds.value.below(c.chunking.chunk_seconds.value),
{
}

/// Every setting of the paths and tools is what its own variable says, and its default where that is not set.
pub proof fn each_path_comes_from_its_own_variable(c: PathsConfig, env: Seq<EnvVarView>)
    requires
        c.reads(env),
    ensures
        lookup(env, "JOBS_DIR"@) matches Some(v) ==> c.jobs_dir@ == v.value,
        lookup(env, "JOBS_DIR"@) is None ==> c.jobs_dir@ == "./jobs"@,
        lookup(env, "LOGS_DIR"@) matches Some(v) ==> c.logs_dir@ == v.value,
        lookup(env, "LOGS_DIR"@) is None ==> c.logs_dir@ == "./logs"@,
        lookup(env, "WHISPER_MODEL_PATH"@) matches Some(v) ==> c.whisper_model_path@ == v.value,
        lookup(env, "WHISPER_MODEL_PATH"@) is None ==> c.whisper_model_path@ == "models/ggml-small-q5_1.bin"@,
        lookup(env, "FFMPEG_BIN"@) matches Some(v) ==> c.ffmpeg_bin@ == v.value,
        lookup(env, "FFMPEG_BIN"@) is None ==> c.ffmpeg_bin@ == "ffmpeg"@,
        lookup(env, "FFPROBE_BIN"@) matches Some(v) ==> c.ffprobe_bin@ == v.value,
        lookup(env, "FFPROBE_BIN"@) is None ==> c.ffprobe_bin@ == "ffprobe"@,
{
}

/// Every setting of the services is what its own variable says, and its default where that is not set.
pub proof fn each_service_comes_from_its_own_variable(c: ServicesConfig, env: Seq<EnvVarView>)
    requires
        c.reads(env),
        ServicesConfig::failure(env) is None,
    ensures
        lookup(env, "OLLAMA_HOST"@) matches Some(v) ==> c.ollama_host@ == v.value,
        lookup(env, "OLLAMA_HOST"@) is None ==> c.ollama_host@ == "http://127.0.0.1"@,
        lookup(env, "OLLAMA_PORT"@) matches Some(v) ==> numbers::natural(v.value, 65535) == Ok::<int, numbers::NumberError>(c.ollama_port as int),
        lookup(env, "OLLAMA_PORT"@) is None ==> c.ollama_port == 11434,
        lookup(env, "QDRANT_URL"@) matches Some(v) ==> c.qdrant_url@ == v.value,
        lookup(env, "QDRANT_URL"@) is None ==> c.qdrant_url@ == "http://localhost:6334"@,
        lookup(env, "SERVER_BIND_ADDR"@) matches Some(v) ==> c.bind_addr@ == v.value,
        lookup(env, "SERVER_BIND_ADDR"@) is None ==> c.bind_addr@ == "0.0.0.0:3000"@,
        lookup(env, "CLIENT_ORIGIN"@) matches Some(v) ==> c.client_origin@ == v.value,
        lookup(env, "CLIENT_ORIGIN"@) is None ==> c.client_origin@ == "http://localhost:4321"@,
{
}

/// Every setting of the speech model is what its own variable says, and its default where that is not set.
pub proof fn each_decoding_setting_comes_from_its_own_variable(c: WhisperConfig, env: Seq<EnvVarView>)
    requires
        c.reads(env),
        WhisperConfig::failure(env) is None,
    ensures
        lookup(env, "WHISPER_ENTROPY_THOLD"@) matches Some(v) ==> (v.reading matches Ok(x) && c.entropy_thold == x.value),
        lookup(env, "WHISPER_ENTROPY_THOLD"@) is None ==> c.entropy_thold.bits == 0x4013_3333,
        lookup(env, "WHISPER_SUPPRESS_BLANK"@) matches Some(v) ==> (c.suppress_blank && v.value == "true"@) || (!c.suppress_blank && v.value == "false"@),
        lookup(env, "WHISPER_SUPPRESS_BLANK"@) is None ==> c.suppress_blank == true,
        lookup(env, "WHISPER_SUPPRESS_NST"@) matches Some(v) ==> (c.suppress_nst && v.value == "true"@) || (!c.suppress_nst && v.value == "false"@),
        lookup(env, "WHISPER_SUPPRESS_NST"@) is None ==> c.suppress_nst == true,
        lookup(env, "WHISPER_TEMPERATURE"@) matches Some(v) ==> (v.reading matches Ok(x) && c.temperature == x.value),
        lookup(env, "WHISPER_TEMPERATURE"@) is None ==> c.temperature.bits == 0,
        lookup(env, "WHISPER_TEMPERATURE_INC"@) matches Some(v) ==> (v.reading matches Ok(x) && c.temperature_inc == x.value),
        lookup(env, "WHISPER_TEMPERATURE_INC"@) is None ==> c.temperature_inc.bits == 0x3dcc_cccd,
        lookup(env, "WHISPER_LOGPROB_THOLD"@) matches Some(v) ==> (v.reading matches Ok(x) && c.logprob_thold == x.value),
        lookup(env, "WHISPER_LOGPROB_THOLD"@) is None ==> c.logprob_thold.bits == 0xbf4c_cccd,
        lookup(env, "WHISPER_NO_SPEECH_THOLD"@) matches Some(v) ==> (v.reading matches Ok(x) && c.no_speech_thold == x.value),
        lookup(env, "WHISPER_NO_SPEECH_THOLD"@) is None ==> c.no_speech_thold.bits == 0x3f00_0000,
        lookup(env, "WHISPER_SINGLE_SEGMENT"@) matches Some(v) ==> (c.single_segment && v.value == "true"@) || (!c.single_segment && v.value == "false"@),
        lookup(env, "WHISPER_SINGLE_SEGMENT"@) is None ==> c.single_segment == false,
        lookup(env, "WHISPER_TOKEN_TIMESTAMPS"@) matches Some(v) ==> (c.token_timestamps && v.value == "true"@) || (!c.token_timestamps && v.value == "false"@),
        lookup(env, "WHISPER_TOKEN_TIMESTAMPS"@) is None ==> c.token_timestamps == false,
        lookup(env, "WHISPER_SPLIT_ON_WORD"@) matches Some(v) ==> (c.split_on_word && v.value == "true"@) || (!c.split_on_word && v.value == "false"@),
        lookup(env, "WHISPER_SPLIT_ON_WORD"@) is None ==> c.split_on_word == true,
        lookup(env, "WHISPER_N_THREADS"@) matches Some(v) ==> numbers::integer32(v.value) == Ok::<int, numbers::NumberError>(c.n_threads as int),
        lookup(env, "WHISPER_N_THREADS"@) is None ==> c.n_threads == 8,
        lookup(env, "WHISPER_INITIAL_PROMPT"@) matches Some(v) ==> c.initial_prompt@ == v.value,
        lookup(env, "WHISPER_INITIAL_PROMPT"@) is None ==> c.initial_prompt@ == "Transcripción de una reunión de trabajo en español, conversación natural."@,
        lookup(env, "WHISPER_GREEDY_BEST_OF"@) matches Some(v) ==> numbers::integer32(v.value) == Ok::<int, numbers::NumberError>(c.greedy_best_of as int),
        lookup(env, "WHISPER_GREEDY_BEST_OF"@) is None ==> c.greedy_best_of == 5,
{
}

/// Every setting of the cut of the audio is what its own variable says, and its default where that is not set.
pub proof fn each_length_comes_from_its_own_variable(c: ChunkingConfig, env: Seq<EnvVarView>)
    requires
        c.reads(env),
        ChunkingConfig::failure(env) is None,
    ensures
        lookup(env, "CHUNK_SECONDS"@) matches Some(v) ==> (v.reading matches Ok(x) && c.chunk_seconds@ == x),
        lookup(env, "CHUNK_SECONDS"@) is None ==> c.chunk_seconds.value.bits == 0x41f0_0000 && c.chunk_seconds.shown@ == "30"@ && c.chunk_seconds.samples == 480000,
        lookup(env, "OVERLAP_SECONDS"@) matches Some(v) ==> (v.reading matches Ok(x) && c.overlap_seconds@ == x),
        lookup(env, "OVERLAP_SECONDS"@) is None ==> c.overlap_seconds.value.bits == 0x4000_0000 && c.overlap_seconds.shown@ == "2"@ && c.overlap_seconds.samples == 32000,
        lookup(env, "RESAMPLER_CHUNK_SIZE"@) matches Some(v) ==> numbers::natural(v.value, usize::MAX as int) == Ok::<int, numbers::NumberError>(c.resampler_chunk_size as int),
        lookup(env, "RESAMPLER_CHUNK_SIZE"@) is None ==> c.resampler_chunk_size == 1024,
{
}

/// Every setting of the search, the answers and the summaries is what its own variable says, and its default where that is not set.
pub proof fn each_search_setting_comes_from_its_own_variable(c: RagConfig, env: Seq<EnvVarView>)
    requires
        c.reads(env),
        RagConfig::failure(env) is None,
    ensures
        lookup(env, "RAG_EMBEDDING_MODEL"@) matches Some(v) ==> c.embedding_model@ == v.value,
        lookup(env, "RAG_EMBEDDING_MODEL"@) is None ==> c.embedding_model@ == "bge-m3"@,
        lookup(env, "RAG_GENERATION_MODEL"@) matches Some(v) ==> c.generation_model@ == v.value,
        lookup(env, "RAG_GENERATION_MODEL"@) is None ==> c.generation_model@ == "qcwind/qwen2.5-7b-instruct-Q4_K_M:latest"@,
        lookup(env, "RAG_RERANKER_MODEL_ID"@) matches Some(v) ==> c.reranker_model_id@ == v.value,
        lookup(env, "RAG_RERANKER_MODEL_ID"@) is None ==> c.reranker_model_id@ == "BAAI/bge-reranker-v2-m3"@,
        lookup(env, "RAG_RERANKER_REVISION"@) matches Some(v) ==> c.reranker_revision@ == v.value,
        lookup(env, "RAG_RERANKER_REVISION"@) is None ==> c.reranker_revision@ == "main"@,
        lookup(env, "RAG_TOP_K"@) matches Some(v) ==> numbers::natural(v.value, u64::MAX as int) == Ok::<int, numbers::NumberError>(c.top_k as int),
        lookup(env, "RAG_TOP_K"@) is None ==> c.top_k == 6,
        lookup(env, "RAG_SEARCH_TOP_K"@) matches Some(v) ==> numbers::natural(v.value, u64::MAX as int) == Ok::<int, numbers::NumberError>(c.search_top_k as int),
        lookup(env, "RAG_SEARCH_TOP_K"@) is None ==> c.search_top_k == 8,
        lookup(env, "RAG_RERANK_CANDIDATE_POOL"@) matches Some(v) ==> numbers::natural(v.value, u64::MAX as int) == Ok::<int, numbers::NumberError>(c.rerank_candidate_pool as int),
        lookup(env, "RAG_RERANK_CANDIDATE_POOL"@) is None ==> c.rerank_candidate_pool == 30,
        lookup(env, "RAG_LOW_CONFIDENCE_THOLD"@) matches Some(v) ==> (v.reading matches Ok(x) && c.low_confidence_thold == x.value),
        lookup(env, "RAG_LOW_CONFIDENCE_THOLD"@) is None ==> c.low_confidence_thold.bits == 0xbf19_999a,
        lookup(env, "RAG_SUMMARY_BATCH_MAX_CHUNKS"@) matches Some(v) ==> numbers::natural(v.value, usize::MAX as int) == Ok::<int, numbers::NumberError>(c.batch_max_chunks as int),
        lookup(env, "RAG_SUMMARY_BATCH_MAX_CHUNKS"@) is None ==> c.batch_max_chunks == 50,
        lookup(env, "RAG_SUMMARY_BATCH_MAX_CHARS"@) matches Some(v) ==> numbers::natural(v.value, usize::MAX as int) == Ok::<int, numbers::NumberError>(c.batch_max_chars as int),
        lookup(env, "RAG_SUMMARY_BATCH_MAX_CHARS"@) is None ==> c.batch_max_chars == 12000,
        lookup(env, "RAG_SUMMARY_BATCH_NUM_CTX"@) matches Some(v) ==> numbers::natural(v.value, u64::MAX as int) == Ok::<int, numbers::NumberError>(c.batch_num_ctx as int),
        lookup(env, "RAG_SUMMARY_BATCH_NUM_CTX"@) is None ==> c.batch_num_ctx == 8192,
        lookup(env, "RAG_SUMMARY_BATCH_NUM_PREDICT"@) matches Some(v) ==> numbers::integer32(v.value) == Ok::<int, numbers::NumberError>(c.batch_num_predict as int),
        lookup(env, "RAG_SUMMARY_BATCH_NUM_PREDICT"@) is None ==> c.batch_num_predict == 300,
        lookup(env, "RAG_SUMMARY_CONSOLIDATION_NUM_PREDICT"@) matches Some(v) ==> numbers::integer32(v.value) == Ok::<int, numbers::NumberError>(c.consolidation_num_predict as int),
        lookup(env, "RAG_SUMMARY_CONSOLIDATION_NUM_PREDICT"@) is None ==> c.consolidation_num_predict == 500,
        lookup(env, "RAG_ANSWER_NUM_CTX"@) matches Some(v) ==> numbers::natural(v.value, u64::MAX as int) == Ok::<int, numbers::NumberError>(c.rag_answer_num_ctx as int),
        lookup(env, "RAG_ANSWER_NUM_CTX"@) is None ==> c.rag_answer_num_ctx == 4096,
        lookup(env, "MAX_SEGMENT_SECONDS"@) matches Some(v) ==> (v.reading matches Ok(x) && c.max_segment_seconds@ == x),
        lookup(env, "MAX_SEGMENT_SECONDS"@) is None ==> c.max_segment_seconds.value.bits == 0x42f0_0000 && c.max_segment_seconds.shown@ == "120"@ && c.max_segment_seconds.samples == 1920000,
{
}


/// A process that starts has read all of its settings, and each of its parts from the same
/// variables: the token as it is set, if it is, and the hosts between the commas.
pub proof fn started_process_has_read_everything(c: Config, env: Seq<EnvVarView>)
    requires
        c.reads(env),
        Config::failure(env) is None,
    ensures
        c.paths.reads(env),
        c.services.reads(env) && ServicesConfig::failure(env) is None,
        c.whisper.reads(env) && WhisperConfig::failure(env) is None,
        c.chunking.reads(env) && ChunkingConfig::failure(env) is None,
        c.rag.reads(env) && RagConfig::failure(env) is None,
        lookup(env, "MCP_BEARER_TOKEN"@) matches Some(v) ==> text::optional(c.mcp_bearer_token)
            == Some(v.value),
        lookup(env, "MCP_BEARER_TOKEN"@) is None ==> c.mcp_bearer_token is None,
        lookup(env, "MCP_ALLOWED_HOSTS"@) matches Some(v) ==> text::texts(c.mcp_allowed_hosts@)
            == text::comma_list(v.value),
{
}

/// The first variable of a name is the one that counts, and there is none only where no variable
/// has that name.
pub proof fn first_variable_of_a_name_counts(env: Seq<EnvVarView>, key: Seq<char>)
    ensures
        match lookup(env, key) {
            Some(v) => exists|i: int|
                {
                    &&& 0 <= i < env.len()
                    &&& #[trigger] env[i] == v
                    &&& v.key == key
                    &&& forall|j: int| 0 <= j < i ==> (#[trigger] env[j]).key != key
                },
            None => forall|i: int| 0 <= i < env.len() ==> (#[trigger] env[i]).key != key,
        },
    decreases env.len(),
{
    if env.len() > 0 && env[0].key != key {
        let rest = env.drop_first();
        first_variable_of_a_name_counts(rest, key);
        match lookup(rest, key) {
            Some(v) => {
                let i = choose|i: int|
                    {
                        &&& 0 <= i < rest.len()
                        &&& #[trigger] rest[i] == v
                        &&& v.key == key
                        &&& forall|j: int| 0 <= j < i ==> (#[trigger] rest[j]).key != key
                    };
                assert(env[i + 1] == v);
                assert forall|j: int| 0 <= j < i + 1 implies (#[trigger] env[j]).key != key by {
                    if j > 0 {
                        assert(env[j] == rest[j - 1]);
                    }
                }
            },
            None => {
                assert forall|i: int| 0 <= i < env.len() implies (#[trigger] env[i]).key != key by {
                    if i > 0 {
                        assert(env[i] == rest[i - 1]);
                    }
                }
            },
        }
    }
}

/// What is wrong with a variable is told with its name, its value and the reason, and only of a
/// variable that is set and does not read.
pub proof fn bad_variables_are_named(env: Seq<EnvVarView>, key: Seq<char>)
    ensures
        bad(env, key, Kind::Real) is Some <==> (lookup(env, key) matches Some(v) && v.reading
            is Err),
        bad(env, key, Kind::Flag) is Some <==> (lookup(env, key) matches Some(v) && v.value
            != "true"@ && v.value != "false"@),
        forall|kind: Kind| #[trigger]
            bad(env, key, kind) matches Some(e) ==> {
                &&& lookup(env, key) matches Some(v)
                &&& e matches ConfigErrorView::Invalid { key: named, value, reason }
                &&& named == key
                &&& value == v.value
                &&& e.text() == "variable de entorno "@ + key + "='"@ + v.value + "' inválida: "@
                    + reason
                &&& v.reading matches Err(why) ==> (kind is Real ==> reason == why)
            },
{
}

/// Audio can be cut exactly if the overlap is shorter than the chunk and both are whole hops of
/// 160 samples, the chunk at least one. What is wrong is told with the lengths as they were given.
pub proof fn cuts_are_whole_hops(chunk: RealView, overlap: RealView)
    ensures
        chunking_failure(chunk, overlap) is None <==> {
            &&& !overlap.value.nan() && !chunk.value.nan()
            &&& overlap.value.value_rank() < chunk.value.value_rank()
            &&& chunk.samples > 0 && chunk.samples % 160 == 0
            &&& overlap.samples % 160 == 0
        },
        chunking_failure(chunk, overlap) matches Some(ConfigErrorView::OverlapTooLong {
            overlap: o,
            chunk: c,
        }) ==> o == overlap.shown && c == chunk.shown && !overlap.value.below(chunk.value),
        chunking_failure(chunk, overlap) matches Some(ConfigErrorView::ChunkMisaligned { chunk: c })
            ==> c == chunk.shown && (chunk.samples <= 0 || chunk.samples % 160 != 0),
        chunking_failure(chunk, overlap) matches Some(ConfigErrorView::OverlapMisaligned {
            overlap: o,
        }) ==> o == overlap.shown && overlap.samples % 160 != 0,
{
}

} // verus!
