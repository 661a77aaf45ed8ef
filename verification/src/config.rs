//! The effective configuration: the shipped defaults, overridden by the user's
//! `config.ini`, migrated, and read into typed settings.
//!
//! Settings that the app reads as floating-point numbers (recording lengths,
//! VAD threshold, speech speeds) are kept here as their configured text; the
//! app converts them.
use vstd::prelude::*;
use crate::text::{non_blank_pieces, chars_of, parse_integer, parse_integer_exec, parse_bool, parse_bool_exec, split_char, split_ranges, trim, trim_range, string_of};
use crate::ini::{lookup, merge_text, migrated_model_defaults, migrated_speech_defaults, model_ids, non_empty, non_empty_text, settings_text, without, DropRule, Ini, IniKey, ModelChoice};
use crate::text::strictly_sorted;
use crate::paths::{expand_tilde, expanded};
use crate::roundtrip::{all_writable, clean, lemma_merge_keeps_writable, lemma_text_round_trip, lemma_trim_range, no_char, writable};

verus! {

/// The configuration shipped with the app; every key falls back to it.
pub const DEFAULT_CONFIG: &'static str = "[models]
active = e2b-qat

[model:e2b-qat]
label = Gemma 4 E2B (QAT)
repo = google/gemma-4-E2B-it-qat-q4_0-gguf
weights = gemma-4-E2B_q4_0-it.gguf
mmproj = gemma-4-E2B-it-mmproj.gguf
ctx_size = 8192
ngl = 99

[model:e4b-qat]
label = Gemma 4 E4B (QAT)
repo = google/gemma-4-E4B-it-qat-q4_0-gguf
weights = gemma-4-E4B_q4_0-it.gguf
mmproj = gemma-4-E4B-it-mmproj.gguf
ctx_size = 8192
ngl = 99

[server]
endpoint = http://127.0.0.1:8089/v1/chat/completions
port = 8089
manage = true
binary = auto
timeout = 60

[audio]
device =
samplerate = 16000
max_seconds = 28
tail_seconds = 0.4

[vad]
enabled = true
threshold = 0.5
min_speech_duration_ms = 250
min_silence_duration_ms = 100
speech_pad_ms = 30

[language]
source = auto
target = auto
options = auto,English,Spanish,French,German,Hindi,Japanese,Chinese,Portuguese,Italian

[chat]
context_seconds = 60

[speech]
backend = say
voice =
rate = 190
supertonic_model_dir = ~/.yappr/models/sherpa-onnx-supertonic-3-tts-int8-2026-05-11
supertonic_sid = 0
supertonic_speed = 1.0
supertonic_lang = en
supertonic_steps = 8
supertonic_threads = 2
kokoro_model_dir = ~/.yappr/models/kokoro-multi-lang-v1_0
kokoro_sid = 3
kokoro_speed = 1.0
kokoro_lang = en
kokoro_threads = 2

[search]
enabled = true
endpoint = http://127.0.0.1:8888/search
max_results = 5
timeout = 15

[logging]
enabled = true
debug = false
path = ~/.yappr/yappr.log
";

// ---------------------------------------------------------------- value parsing

/// The number an unsigned setting reads as, or `default` when it does not parse.
pub open spec fn unsigned_or(s: Seq<char>, max: int, default: int) -> int {
    match parse_integer(s, false, 0, max) {
        Some(v) => v,
        None => default,
    }
}

/// The number a signed setting reads as, or `default` when it does not parse.
pub open spec fn signed_or(s: Seq<char>, min: int, max: int, default: int) -> int {
    match parse_integer(s, true, min, max) {
        Some(v) => v,
        None => default,
    }
}

/// The flag a setting reads as, or `default` when it is neither `true` nor `false`.
pub open spec fn bool_or(s: Seq<char>, default: bool) -> bool {
    match parse_bool(s) {
        Some(b) => b,
        None => default,
    }
}

fn unsigned_setting(s: &String, max: u64, default: u64) -> (r: u64)
    requires
        default <= max,
    ensures
        r as int == unsigned_or(s@, max as int, default as int),
        r <= max,
{
    let v = chars_of(s.as_str());
    match parse_integer_exec(&v, false, 0, max as i128) {
        Some(x) => x as u64,
        None => default,
    }
}

fn signed_setting(s: &String, min: i64, max: i64, default: i64) -> (r: i64)
    requires
        min <= default <= max,
        min <= 0 <= max,
    ensures
        r as int == signed_or(s@, min as int, max as int, default as int),
        min <= r <= max,
{
    let v = chars_of(s.as_str());
    match parse_integer_exec(&v, true, min as i128, max as i128) {
        Some(x) => x as i64,
        None => default,
    }
}

fn bool_setting(s: &String, default: bool) -> (r: bool)
    ensures
        r == bool_or(s@, default),
{
    let v = chars_of(s.as_str());
    match parse_bool_exec(&v) {
        Some(b) => b,
        None => default,
    }
}

/// The comma-separated items of `s`, trimmed, blanks dropped.
pub open spec fn comma_list(s: Seq<char>) -> Seq<Seq<char>> {
    non_blank_pieces(split_char(s, ','))
}

/// The text of each string in `v`.
pub open spec fn views(v: Seq<String>) -> Seq<Seq<char>> {
    v.map_values(|x: String| x@)
}

/// The pieces of `s` between `sep`, trimmed, blanks dropped.
pub fn non_blank_split(s: &str, sep: char) -> (r: Vec<String>)
    ensures
        views(r@) == non_blank_pieces(split_char(s@, sep)),
{
    let v = chars_of(s);
    let ranges = split_ranges(&v, 0, v.len(), sep);
    let ghost pieces = split_char(v@.subrange(0, v@.len() as int), sep);
    assert(v@.subrange(0, v@.len() as int) =~= v@);
    let mut out: Vec<String> = Vec::new();
    let mut i: usize = 0;
    assert(pieces.take(0) =~= Seq::<Seq<char>>::empty());
    while i < ranges.len()
        invariant
            i <= ranges@.len(),
            ranges@.len() == pieces.len(),
            forall|k: int| 0 <= k < ranges@.len() ==> (#[trigger] ranges@[k]).0 <= ranges@[k].1 <= v@.len() && v@.subrange(ranges@[k].0 as int, ranges@[k].1 as int) == pieces[k],
            views(out@) == non_blank_pieces(pieces.take(i as int)),
        decreases ranges@.len() - i,
    {
        let (a, b) = ranges[i];
        let (c, d) = trim_range(&v, a, b);
        assert(pieces.take(i + 1).drop_last() =~= pieces.take(i as int));
        assert(pieces.take(i + 1).last() == pieces[i as int]);
        if c < d {
            let piece = string_of(&v, c, d);
            out.push(piece);
            assert(views(out@) =~= non_blank_pieces(pieces.take(i as int)).push(piece@));
        }
        i = i + 1;
    }
    assert(pieces.take(ranges@.len() as int) =~= pieces);
    out
}

// ---------------------------------------------------------------- typed settings

/// `[server]`: the `llama-server` backend.
#[derive(Clone)]
pub struct ServerConfig {
    pub endpoint: String,
    pub port: u16,
    pub manage: bool,
    pub binary: String,
    pub timeout_secs: u64,
}

/// The active model and the selectable ones.
#[derive(Clone)]
pub struct ModelConfig {
    pub repo: String,
    pub weights: String,
    pub mmproj: String,
    pub ctx_size: String,
    pub ngl: String,
    pub active: String,
    pub choices: Vec<ModelChoice>,
}

/// `[audio]`: microphone capture. `max_seconds` and `tail_seconds` are the
/// configured text of these (fractional) second counts.
#[derive(Clone)]
pub struct AudioConfig {
    pub device: Option<String>,
    pub samplerate: u32,
    pub max_seconds: String,
    pub tail_seconds: String,
}

/// `[vad]`: voice-activity detection. `threshold` is the configured text of the
/// (fractional) speech-probability threshold.
#[derive(Clone)]
pub struct VadConfig {
    pub enabled: bool,
    pub threshold: String,
    pub min_speech_duration_ms: u32,
    pub min_silence_duration_ms: u32,
    pub speech_pad_ms: u32,
}

/// `[language]`: transcription source and target.
#[derive(Clone)]
pub struct LanguageConfig {
    pub source: String,
    pub target: String,
    pub options: Vec<String>,
}

/// `[chat]`: how long chat history is kept.
#[derive(Clone)]
pub struct ChatConfig {
    pub context_seconds: i64,
}

/// The Kokoro speech backend. `speed` is the configured text of the speed factor.
#[derive(Clone)]
pub struct KokoroConfig {
    pub model_dir: String,
    pub sid: i32,
    pub speed: String,
    pub lang: String,
    pub threads: i32,
}

/// The Supertonic speech backend. `speed` is the configured text of the speed factor.
#[derive(Clone)]
pub struct SupertonicConfig {
    pub model_dir: String,
    pub sid: i32,
    pub speed: String,
    pub lang: String,
    pub steps: i32,
    pub threads: i32,
}

/// `[speech]`: spoken answers.
#[derive(Clone)]
pub struct SpeechConfig {
    pub backend: String,
    pub kokoro: KokoroConfig,
    pub supertonic: SupertonicConfig,
    pub voice: Option<String>,
    pub rate: i32,
}

/// `[logging]`.
#[derive(Clone)]
pub struct LoggingConfig {
    pub enabled: bool,
    pub debug: bool,
    pub path: String,
}

/// `[search]`: the `web_search` tool.
#[derive(Clone)]
pub struct SearchConfig {
    pub enabled: bool,
    pub endpoint: String,
    pub max_results: usize,
    pub timeout_secs: u64,
}

/// The whole configuration.
#[derive(Clone)]
pub struct Config {
    pub server: ServerConfig,
    pub model: ModelConfig,
    pub audio: AudioConfig,
    pub vad: VadConfig,
    pub language: LanguageConfig,
    pub chat: ChatConfig,
    pub speech: SpeechConfig,
    pub logging: LoggingConfig,
    pub search: SearchConfig,
}

pub open spec fn opt_view(o: Option<String>) -> Option<Seq<char>> {
    match o {
        Some(s) => Some(s@),
        None => None,
    }
}

/// Reading setting `(sec, key)` of `m` with `default` as text.
pub open spec fn text_of(m: Map<IniKey, Seq<char>>, sec: &str, key: &str, default: &str) -> Seq<char> {
    lookup(m, sec@, key@, default@)
}

impl ServerConfig {
    pub open spec fn read_from(self, m: Map<IniKey, Seq<char>>) -> bool {
        &&& self.endpoint@ == text_of(m, "server", "endpoint", "http://127.0.0.1:8089/v1/chat/completions")
        &&& self.port == unsigned_or(text_of(m, "server", "port", "8089"), 65535, 8089)
        &&& self.manage == bool_or(text_of(m, "server", "manage", "true"), true)
        &&& self.binary@ == text_of(m, "server", "binary", "auto")
        &&& self.timeout_secs == unsigned_or(text_of(m, "server", "timeout", "60"), u64::MAX as int, 60)
    }
}

impl ModelConfig {
    /// `active` names the `[model:<active>]` section whose values win over `[model]`.
    pub open spec fn read_from(self, m: Map<IniKey, Seq<char>>) -> bool {
        let sec = "model:"@ + self.active@;
        &&& self.active@ == text_of(m, "models", "active", "e2b-qat")
        &&& self.repo@ == lookup(m, sec, "repo"@, lookup(m, "model"@, "repo"@, "google/gemma-4-E2B-it-qat-q4_0-gguf"@))
        &&& self.weights@ == lookup(m, sec, "weights"@, lookup(m, "model"@, "weights"@, "gemma-4-E2B_q4_0-it.gguf"@))
        &&& self.mmproj@ == lookup(m, sec, "mmproj"@, lookup(m, "model"@, "mmproj"@, "gemma-4-E2B-it-mmproj.gguf"@))
        &&& self.ctx_size@ == lookup(m, sec, "ctx_size"@, lookup(m, "model"@, "ctx_size"@, "8192"@))
        &&& self.ngl@ == lookup(m, sec, "ngl"@, lookup(m, "model"@, "ngl"@, "99"@))
        &&& strictly_sorted(self.choices@.map_values(|c: ModelChoice| c.id@))
        &&& self.choices@.map_values(|c: ModelChoice| c.id@).to_set() == model_ids(m)
        &&& forall|i: int| 0 <= i < self.choices@.len() ==> (#[trigger] self.choices@[i]).label@ == lookup(m, "model:"@ + self.choices@[i].id@, "label"@, self.choices@[i].id@)
    }
}

impl AudioConfig {
    pub open spec fn read_from(self, m: Map<IniKey, Seq<char>>) -> bool {
        &&& opt_view(self.device) == non_empty_text(text_of(m, "audio", "device", ""))
        &&& self.samplerate == unsigned_or(text_of(m, "audio", "samplerate", "16000"), u32::MAX as int, 16000)
        &&& self.max_seconds@ == text_of(m, "audio", "max_seconds", "28")
        &&& self.tail_seconds@ == text_of(m, "audio", "tail_seconds", "0.4")
    }
}

impl VadConfig {
    pub open spec fn read_from(self, m: Map<IniKey, Seq<char>>) -> bool {
        &&& self.enabled == bool_or(text_of(m, "vad", "enabled", "true"), true)
        &&& self.threshold@ == text_of(m, "vad", "threshold", "0.5")
        &&& self.min_speech_duration_ms == unsigned_or(text_of(m, "vad", "min_speech_duration_ms", "250"), u32::MAX as int, 250)
        &&& self.min_silence_duration_ms == unsigned_or(text_of(m, "vad", "min_silence_duration_ms", "100"), u32::MAX as int, 100)
        &&& self.speech_pad_ms == unsigned_or(text_of(m, "vad", "speech_pad_ms", "30"), u32::MAX as int, 30)
    }
}

impl LanguageConfig {
    pub open spec fn read_from(self, m: Map<IniKey, Seq<char>>) -> bool {
        &&& self.source@ == text_of(m, "language", "source", "auto")
        &&& self.target@ == text_of(m, "language", "target", "auto")
        &&& views(self.options@) == comma_list(text_of(m, "language", "options", "auto,English,Spanish,French,German,Hindi,Japanese,Chinese,Portuguese,Italian"))
    }
}

impl SpeechConfig {
    pub open spec fn read_from(self, m: Map<IniKey, Seq<char>>) -> bool {
        &&& self.backend@ == text_of(m, "speech", "backend", "say")
        &&& self.kokoro.model_dir@ == text_of(m, "speech", "kokoro_model_dir", "~/.yappr/models/kokoro-multi-lang-v1_0")
        &&& self.kokoro.sid == signed_or(text_of(m, "speech", "kokoro_sid", "3"), i32::MIN as int, i32::MAX as int, 3)
        &&& self.kokoro.speed@ == text_of(m, "speech", "kokoro_speed", "1.0")
        &&& self.kokoro.lang@ == text_of(m, "speech", "kokoro_lang", "en")
        &&& self.kokoro.threads == signed_or(text_of(m, "speech", "kokoro_threads", "2"), i32::MIN as int, i32::MAX as int, 2)
        &&& self.supertonic.model_dir@ == text_of(m, "speech", "supertonic_model_dir", "~/.yappr/models/sherpa-onnx-supertonic-3-tts-int8-2026-05-11")
        &&& self.supertonic.sid == signed_or(text_of(m, "speech", "supertonic_sid", "0"), i32::MIN as int, i32::MAX as int, 0)
        &&& self.supertonic.speed@ == text_of(m, "speech", "supertonic_speed", "1.0")
        &&& self.supertonic.lang@ == text_of(m, "speech", "supertonic_lang", "en")
        &&& self.supertonic.steps == signed_or(text_of(m, "speech", "supertonic_steps", "8"), i32::MIN as int, i32::MAX as int, 8)
        &&& self.supertonic.threads == signed_or(text_of(m, "speech", "supertonic_threads", "2"), i32::MIN as int, i32::MAX as int, 2)
        &&& opt_view(self.voice) == non_empty_text(text_of(m, "speech", "voice", ""))
        &&& self.rate == signed_or(text_of(m, "speech", "rate", "190"), i32::MIN as int, i32::MAX as int, 190)
    }
}

impl LoggingConfig {
    pub open spec fn read_from(self, m: Map<IniKey, Seq<char>>) -> bool {
        &&& self.enabled == bool_or(text_of(m, "logging", "enabled", "true"), true)
        &&& self.debug == bool_or(text_of(m, "logging", "debug", "false"), false)
        &&& self.path@ == text_of(m, "logging", "path", "~/.yappr/yappr.log")
    }
}

impl SearchConfig {
    pub open spec fn read_from(self, m: Map<IniKey, Seq<char>>) -> bool {
        &&& self.enabled == bool_or(text_of(m, "search", "enabled", "true"), true)
        &&& self.endpoint@ == text_of(m, "search", "endpoint", "http://127.0.0.1:8888/search")
        &&& self.max_results == unsigned_or(text_of(m, "search", "max_results", "5"), usize::MAX as int, 5)
        &&& self.timeout_secs == unsigned_or(text_of(m, "search", "timeout", "15"), u64::MAX as int, 15)
    }
}

impl Config {
    /// Every part of the configuration is read from the settings `m`.
    pub open spec fn read_from(self, m: Map<IniKey, Seq<char>>) -> bool {
        &&& self.server.read_from(m)
        &&& self.model.read_from(m)
        &&& self.audio.read_from(m)
        &&& self.vad.read_from(m)
        &&& self.language.read_from(m)
        &&& self.chat.context_seconds == signed_or(text_of(m, "chat", "context_seconds", "60"), i64::MIN as int, i64::MAX as int, 60)
        &&& self.speech.read_from(m)
        &&& self.logging.read_from(m)
        &&& self.search.read_from(m)
    }
}

/// The settings after all migrations.
pub open spec fn migrated(m: Map<IniKey, Seq<char>>) -> Map<IniKey, Seq<char>> {
    without(migrated_speech_defaults(migrated_model_defaults(m)), DropRule::Obsolete)
}

impl Ini {
    /// The `[speech]` settings.
    pub fn speech_config(&self) -> (r: SpeechConfig)
        ensures
            r.read_from(self@),
    {
        let kokoro = KokoroConfig {
            model_dir: self.get("speech", "kokoro_model_dir", "~/.yappr/models/kokoro-multi-lang-v1_0"),
            sid: signed_setting(&self.get("speech", "kokoro_sid", "3"), i32::MIN as i64, i32::MAX as i64, 3) as i32,
            speed: self.get("speech", "kokoro_speed", "1.0"),
            lang: self.get("speech", "kokoro_lang", "en"),
            threads: signed_setting(&self.get("speech", "kokoro_threads", "2"), i32::MIN as i64, i32::MAX as i64, 2) as i32,
        };
        let supertonic = SupertonicConfig {
            model_dir: self.get("speech", "supertonic_model_dir", "~/.yappr/models/sherpa-onnx-supertonic-3-tts-int8-2026-05-11"),
            sid: signed_setting(&self.get("speech", "supertonic_sid", "0"), i32::MIN as i64, i32::MAX as i64, 0) as i32,
            speed: self.get("speech", "supertonic_speed", "1.0"),
            lang: self.get("speech", "supertonic_lang", "en"),
            steps: signed_setting(&self.get("speech", "supertonic_steps", "8"), i32::MIN as i64, i32::MAX as i64, 8) as i32,
            threads: signed_setting(&self.get("speech", "supertonic_threads", "2"), i32::MIN as i64, i32::MAX as i64, 2) as i32,
        };
        let speech_rate = self.get("speech", "rate", "190");
        SpeechConfig {
            backend: self.get("speech", "backend", "say"),
            kokoro,
            supertonic,
            voice: non_empty(self.get("speech", "voice", "")),
            rate: signed_setting(&speech_rate, i32::MIN as i64, i32::MAX as i64, 190) as i32,
        }
    }

    fn server_config(&self) -> (r: ServerConfig)
        ensures
            r.read_from(self@),
    {
        ServerConfig {
            endpoint: self.get("server", "endpoint", "http://127.0.0.1:8089/v1/chat/completions"),
            port: unsigned_setting(&self.get("server", "port", "8089"), 65535, 8089) as u16,
            manage: bool_setting(&self.get("server", "manage", "true"), true),
            binary: self.get("server", "binary", "auto"),
            timeout_secs: unsigned_setting(&self.get("server", "timeout", "60"), u64::MAX, 60),
        }
    }

    fn model_config(&self) -> (r: ModelConfig)
        ensures
            r.read_from(self@),
    {
        let active = self.get("models", "active", "e2b-qat");
        let mut section = String::from_str("model:");
        crate::text::push_str(&mut section, active.as_str());
        ModelConfig {
            repo: self.model_value(section.as_str(), "repo", "google/gemma-4-E2B-it-qat-q4_0-gguf"),
            weights: self.model_value(section.as_str(), "weights", "gemma-4-E2B_q4_0-it.gguf"),
            mmproj: self.model_value(section.as_str(), "mmproj", "gemma-4-E2B-it-mmproj.gguf"),
            ctx_size: self.model_value(section.as_str(), "ctx_size", "8192"),
            ngl: self.model_value(section.as_str(), "ngl", "99"),
            active,
            choices: self.model_choices(),
        }
    }

    fn audio_config(&self) -> (r: AudioConfig)
        ensures
            r.read_from(self@),
    {
        AudioConfig {
            device: non_empty(self.get("audio", "device", "")),
            samplerate: unsigned_setting(&self.get("audio", "samplerate", "16000"), u32::MAX as u64, 16000) as u32,
            max_seconds: self.get("audio", "max_seconds", "28"),
            tail_seconds: self.get("audio", "tail_seconds", "0.4"),
        }
    }

    fn vad_config(&self) -> (r: VadConfig)
        ensures
            r.read_from(self@),
    {
        VadConfig {
            enabled: bool_setting(&self.get("vad", "enabled", "true"), true),
            threshold: self.get("vad", "threshold", "0.5"),
            min_speech_duration_ms: unsigned_setting(&self.get("vad", "min_speech_duration_ms", "250"), u32::MAX as u64, 250) as u32,
            min_silence_duration_ms: unsigned_setting(&self.get("vad", "min_silence_duration_ms", "100"), u32::MAX as u64, 100) as u32,
            speech_pad_ms: unsigned_setting(&self.get("vad", "speech_pad_ms", "30"), u32::MAX as u64, 30) as u32,
        }
    }

    fn language_config(&self) -> (r: LanguageConfig)
        ensures
            r.read_from(self@),
    {
        let options = self.get("language", "options", "auto,English,Spanish,French,German,Hindi,Japanese,Chinese,Portuguese,Italian");
        LanguageConfig {
            source: self.get("language", "source", "auto"),
            target: self.get("language", "target", "auto"),
            options: non_blank_split(options.as_str(), ','),
        }
    }

    fn logging_config(&self) -> (r: LoggingConfig)
        ensures
            r.read_from(self@),
    {
        LoggingConfig {
            enabled: bool_setting(&self.get("logging", "enabled", "true"), true),
            debug: bool_setting(&self.get("logging", "debug", "false"), false),
            path: self.get("logging", "path", "~/.yappr/yappr.log"),
        }
    }

    fn search_config(&self) -> (r: SearchConfig)
        ensures
            r.read_from(self@),
    {
        SearchConfig {
            enabled: bool_setting(&self.get("search", "enabled", "true"), true),
            endpoint: self.get("search", "endpoint", "http://127.0.0.1:8888/search"),
            max_results: unsigned_setting(&self.get("search", "max_results", "5"), usize::MAX as u64, 5) as usize,
            timeout_secs: unsigned_setting(&self.get("search", "timeout", "15"), u64::MAX, 15),
        }
    }
}

impl Config {
    /// Migrates the settings of `ini` and reads the configuration from them.
    pub fn from_ini(ini: &mut Ini) -> (r: Config)
        ensures
            final(ini)@ == migrated(old(ini)@),
            r.read_from(final(ini)@),
    {
        ini.migrate_old_model_defaults();
        ini.migrate_old_speech_defaults();
        ini.remove_obsolete_keys();
        Config {
            server: ini.server_config(),
            model: ini.model_config(),
            audio: ini.audio_config(),
            vad: ini.vad_config(),
            language: ini.language_config(),
            chat: ChatConfig {
                context_seconds: signed_setting(&ini.get("chat", "context_seconds", "60"), i64::MIN, i64::MAX, 60),
            },
            speech: ini.speech_config(),
            logging: ini.logging_config(),
            search: ini.search_config(),
        }
    }
}


/// The settings read from `text` into an empty store.
pub open spec fn read_text(text: Seq<char>) -> Map<IniKey, Seq<char>> {
    merge_text(Map::empty(), Seq::empty(), text).0
}

/// The settings Yappr runs with: the defaults, then the user's file (when it
/// could be read) on top, then migrated.
pub open spec fn loaded_settings(user: Option<Seq<char>>) -> Map<IniKey, Seq<char>> {
    let defaults = read_text(DEFAULT_CONFIG@);
    match user {
        Some(u) => migrated(merge_text(defaults, Seq::empty(), u).0),
        None => migrated(defaults),
    }
}

proof fn lemma_literal_writable()
    ensures
        writable("models"@, "active"@, "e2b-qat"@),
        writable("model"@, "repo"@, "google/gemma-4-E2B-it-qat-q4_0-gguf"@),
        writable("model"@, "weights"@, "gemma-4-E2B_q4_0-it.gguf"@),
        writable("model"@, "mmproj"@, "gemma-4-E2B-it-mmproj.gguf"@),
{
    reveal_strlit("models");
    reveal_strlit("active");
    reveal_strlit("e2b-qat");
    reveal_strlit("model");
    reveal_strlit("repo");
    reveal_strlit("google/gemma-4-E2B-it-qat-q4_0-gguf");
    reveal_strlit("weights");
    reveal_strlit("gemma-4-E2B_q4_0-it.gguf");
    reveal_strlit("mmproj");
    reveal_strlit("gemma-4-E2B-it-mmproj.gguf");
}

proof fn lemma_insert_writable(m: Map<IniKey, Seq<char>>, k: IniKey, v: Seq<char>)
    requires
        all_writable(m),
        writable(k.0, k.1, v),
    ensures
        all_writable(m.insert(k, v)),
{
    assert forall|k2: IniKey| #[trigger] m.insert(k, v).dom().contains(k2) implies writable(k2.0, k2.1, m.insert(k, v)[k2]) by {
        if k2 != k {
            assert(m.dom().contains(k2));
        }
    }
}

proof fn lemma_restrict_writable(m: Map<IniKey, Seq<char>>, m2: Map<IniKey, Seq<char>>)
    requires
        all_writable(m),
        m2.dom().subset_of(m.dom()),
        forall|k: IniKey| #[trigger] m2.dom().contains(k) ==> m2[k] == m[k],
    ensures
        all_writable(m2),
{
    assert forall|k: IniKey| #[trigger] m2.dom().contains(k) implies writable(k.0, k.1, m2[k]) by {
        assert(m.dom().contains(k));
    }
}

/// The migrations only write values that can be written back.
proof fn lemma_migrated_writable(m: Map<IniKey, Seq<char>>)
    requires
        all_writable(m),
    ensures
        all_writable(migrated(m)),
{
    lemma_literal_writable();
    let m1 = crate::ini::without_section(m, "model:e4b-q4km"@);
    lemma_restrict_writable(m, m1);
    let m2 = if lookup(m1, "models"@, "active"@, ""@) == "e4b-q4km"@ {
        m1.insert(("models"@, "active"@), "e2b-qat"@)
    } else {
        m1
    };
    lemma_insert_writable(m1, ("models"@, "active"@), "e2b-qat"@);
    lemma_insert_writable(m2, ("models"@, "active"@), "e2b-qat"@);
    let m3 = m2.insert(("models"@, "active"@), "e2b-qat"@);
    lemma_insert_writable(m3, ("model"@, "repo"@), "google/gemma-4-E2B-it-qat-q4_0-gguf"@);
    let m4 = m3.insert(("model"@, "repo"@), "google/gemma-4-E2B-it-qat-q4_0-gguf"@);
    lemma_insert_writable(m4, ("model"@, "weights"@), "gemma-4-E2B_q4_0-it.gguf"@);
    let m5 = m4.insert(("model"@, "weights"@), "gemma-4-E2B_q4_0-it.gguf"@);
    lemma_insert_writable(m5, ("model"@, "mmproj"@), "gemma-4-E2B-it-mmproj.gguf"@);
    let a = migrated_model_defaults(m);
    assert(all_writable(a));
    // speech migration
    reveal_strlit("speech");
    reveal_strlit("voice");
    reveal_strlit("rate");
    let chat_voice = non_empty_text(lookup(a, "chat"@, "voice"@, ""@));
    let speech_voice = non_empty_text(lookup(a, "speech"@, "voice"@, ""@));
    let a1 = if speech_voice is None && chat_voice is Some {
        a.insert(("speech"@, "voice"@), chat_voice->0)
    } else {
        a
    };
    if speech_voice is None && chat_voice is Some {
        let v = lookup(a, "chat"@, "voice"@, ""@);
        let (lo, hi) = lemma_trim_range(v);
        reveal_strlit("");
        assert(a.dom().contains(("chat"@, "voice"@))) by {
            if !a.dom().contains(("chat"@, "voice"@)) {
                assert(v.len() == 0);
            }
        }
        assert(writable("chat"@, "voice"@, v));
        assert(no_char(trim(v), '\n')) by {
            assert forall|j: int| 0 <= j < trim(v).len() implies trim(v)[j] != '\n' by {
                assert(trim(v)[j] == v[lo + j]);
            }
        }
        assert(clean(trim(v)));
        assert(writable("speech"@, "voice"@, trim(v)));
        lemma_insert_writable(a, ("speech"@, "voice"@), trim(v));
    }
    assert(all_writable(a1));
    let chat_rate = lookup(a1, "chat"@, "rate"@, ""@);
    reveal_strlit("");
    reveal_strlit("chat");
    if chat_rate.len() > 0 {
        assert(a1.dom().contains(("chat"@, "rate"@)));
        assert(writable("chat"@, "rate"@, chat_rate));
        assert(writable("speech"@, "rate"@, chat_rate));
        lemma_insert_writable(a1, ("speech"@, "rate"@), chat_rate);
    }
    let b = migrated_speech_defaults(a);
    let a2 = if chat_rate.len() > 0 && lookup(a1, "speech"@, "rate"@, "190"@) == "190"@ {
        a1.insert(("speech"@, "rate"@), chat_rate)
    } else {
        a1
    };
    assert(all_writable(a2));
    lemma_restrict_writable(a2, b);
    lemma_restrict_writable(b, migrated(m));
}

proof fn lemma_defaults_writable()
    ensures
        all_writable(read_text(DEFAULT_CONFIG@)),
{
    lemma_merge_keeps_writable(Map::empty(), Seq::empty(), DEFAULT_CONFIG@);
}

fn text_matches(s: &String, t: &str) -> (r: bool)
    ensures
        r == (s@ == t@),
{
    let v = chars_of(s.as_str());
    crate::ini::text_is(&v, t)
}

impl Config {
    /// The user's settings file, `~/.yappr/config.ini`.
    pub fn user_config_path() -> (r: String)
        ensures
            exists|home: Option<Seq<char>>| r@ == expanded("~/.yappr/config.ini"@, home),
    {
        expand_tilde("~/.yappr/config.ini")
    }

    /// The configuration from the user's file text (`None` when it could not be
    /// read), and the text to write back: the INI text of the loaded settings,
    /// exactly when it differs from what the file holds. The file as left
    /// (rewritten or not) reads back as the settings the configuration was
    /// read from.
    pub fn load(user_contents: Option<&str>) -> (r: (Config, Option<String>))
        ensures
            r.0.read_from(loaded_settings(match user_contents { Some(u) => Some(u@), None => None })),
            user_contents is None ==> r.1 is None,
            user_contents matches Some(u) ==> match r.1 {
                Some(t) => t@ == settings_text(loaded_settings(Some(u@))) && t@ != u@,
                None => settings_text(loaded_settings(Some(u@))) == u@,
            },
            user_contents matches Some(u) ==> match r.1 {
                Some(t) => read_text(t@) == loaded_settings(Some(u@)),
                None => read_text(u@) == loaded_settings(Some(u@)),
            },
    {
        let mut ini = Ini::new();
        ini.merge(DEFAULT_CONFIG);
        proof {
            lemma_defaults_writable();
        }
        if let Some(contents) = user_contents {
            proof {
                lemma_merge_keeps_writable(ini@, Seq::empty(), contents@);
            }
            ini.merge(contents);
        }
        let ghost before = ini@;
        let cfg = Config::from_ini(&mut ini);
        proof {
            lemma_migrated_writable(before);
            use_type_invariant(&ini);
            lemma_text_round_trip(&ini);
        }
        match user_contents {
            Some(contents) => {
                let updated = ini.to_text();
                if text_matches(&updated, contents) {
                    (cfg, None)
                } else {
                    (cfg, Some(updated))
                }
            },
            None => (cfg, None),
        }
    }

    /// The text of the user's file after setting `(section, key)` to `value`:
    /// the current file (or the defaults when there is none) with that one
    /// setting replaced, rendered as INI text. When the setting can be written
    /// on one line, the text reads back as those settings.
    pub fn set_user_value(current: Option<&str>, section: &str, key: &str, value: &str) -> (r: String)
        ensures
            r@ == settings_text(read_text(
                match current { Some(c) => c@, None => DEFAULT_CONFIG@ },
            ).insert((section@, key@), value@)),
            writable(section@, key@, value@) ==> read_text(r@) == read_text(
                match current { Some(c) => c@, None => DEFAULT_CONFIG@ },
            ).insert((section@, key@), value@),
    {
        let mut ini = Ini::new();
        let ghost base = match current { Some(c) => c@, None => DEFAULT_CONFIG@ };
        match current {
            Some(c) => ini.merge(c),
            None => ini.merge(DEFAULT_CONFIG),
        }
        proof {
            lemma_merge_keeps_writable(Map::empty(), Seq::empty(), base);
        }
        let ghost read = ini@;
        ini.insert(String::from_str(section), String::from_str(key), String::from_str(value));
        let r = ini.to_text();
        proof {
            if writable(section@, key@, value@) {
                lemma_insert_writable(read, (section@, key@), value@);
                use_type_invariant(&ini);
                lemma_text_round_trip(&ini);
            }
        }
        r
    }
}

} // verus!
