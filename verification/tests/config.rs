use yappr::config::{Config, DEFAULT_CONFIG};
use yappr::ini::Ini;

fn config_from(input: &str) -> Config {
    let mut ini = Ini::new();
    ini.merge(DEFAULT_CONFIG);
    ini.merge(input);
    Config::from_ini(&mut ini)
}

fn number(text: &str) -> f32 {
    text.trim().parse::<f32>().expect("a number")
}

#[test]
fn default_speech_backend_is_say() {
    let cfg = config_from("");
    assert_eq!(cfg.speech.backend, "say");
}

#[test]
fn migrates_old_e4b_default_to_e2b() {
    let mut ini = Ini::new();
    ini.merge(
        r#"
            [model]
            repo = google/gemma-4-E4B-it-qat-q4_0-gguf
            weights = gemma-4-E4B_q4_0-it.gguf
            mmproj = gemma-4-E4B-it-mmproj.gguf

            [models]
            active = e4b-qat

            [model:e4b-q4km]
            label = Gemma 4 E4B Q4_K_M
            "#,
    );

    ini.migrate_old_model_defaults();

    assert_eq!(
        ini.get("model", "repo", ""),
        "google/gemma-4-E2B-it-qat-q4_0-gguf"
    );
    assert_eq!(ini.get("model", "weights", ""), "gemma-4-E2B_q4_0-it.gguf");
    assert_eq!(ini.get("model", "mmproj", ""), "gemma-4-E2B-it-mmproj.gguf");
    assert_eq!(ini.get("models", "active", ""), "e2b-qat");
    assert!(!ini
        .model_choices()
        .iter()
        .any(|choice| choice.id == "e4b-q4km"));
}

#[test]
fn migrates_old_chat_voice_to_speech() {
    let mut ini = Ini::new();
    ini.merge(DEFAULT_CONFIG);
    ini.merge(
        r#"
            [chat]
            voice = Samantha
            rate = 220
            "#,
    );

    ini.migrate_old_speech_defaults();

    assert_eq!(ini.get("speech", "voice", ""), "Samantha");
    assert_eq!(ini.get("speech", "rate", ""), "220");
    assert_eq!(ini.get("chat", "voice", "missing"), "missing");
    assert_eq!(ini.get("chat", "rate", "missing"), "missing");
}

#[test]
fn removes_obsolete_default_keys() {
    let mut ini = Ini::new();
    ini.merge(
        r#"
            [hotkey]
            key = right_option

            [audio]
            beep_start = none
            beep_stop = none

            [model:e2b-qat]
            name = gemma-4-E2B_q4_0-it

            [output]
            inject = paste
            "#,
    );

    ini.remove_obsolete_keys();

    assert_eq!(ini.get("hotkey", "key", "missing"), "missing");
    assert_eq!(ini.get("audio", "beep_start", "missing"), "missing");
    assert_eq!(ini.get("audio", "beep_stop", "missing"), "missing");
    assert_eq!(ini.get("model:e2b-qat", "name", "missing"), "missing");
    assert_eq!(ini.get("output", "inject", "missing"), "missing");
}

#[test]
fn leaves_custom_model_repo_alone() {
    let mut ini = Ini::new();
    ini.merge(
        r#"
            [model]
            repo = custom/audio-model
            weights = custom.gguf

            [models]
            active = custom

            [model:custom]
            label = Custom
            "#,
    );

    ini.migrate_old_model_defaults();

    assert_eq!(ini.get("model", "repo", ""), "custom/audio-model");
    assert_eq!(ini.get("models", "active", ""), "custom");
    assert!(ini
        .model_choices()
        .iter()
        .any(|choice| choice.id == "custom"));
}

#[test]
fn parses_active_model_and_llama_params() {
    let cfg = config_from(
        r#"
            [models]
            active = local-audio

            [model:local-audio]
            label = Local Audio
            repo = local/repo
            weights = local.gguf
            mmproj = local-mmproj.gguf
            ctx_size = 4096
            ngl = 42
            "#,
    );

    assert_eq!(cfg.model.active, "local-audio");
    assert_eq!(cfg.model.repo, "local/repo");
    assert_eq!(cfg.model.weights, "local.gguf");
    assert_eq!(cfg.model.mmproj, "local-mmproj.gguf");
    assert_eq!(cfg.model.ctx_size, "4096");
    assert_eq!(cfg.model.ngl, "42");
    assert!(cfg
        .model
        .choices
        .iter()
        .any(|choice| choice.id == "local-audio" && choice.label == "Local Audio"));
}

#[test]
fn parses_server_overrides() {
    let cfg = config_from(
        r#"
            [server]
            endpoint = http://127.0.0.1:9999/v1/chat/completions
            port = 9999
            manage = false
            binary = /tmp/llama-server
            timeout = 17
            "#,
    );

    assert_eq!(
        cfg.server.endpoint,
        "http://127.0.0.1:9999/v1/chat/completions"
    );
    assert_eq!(cfg.server.port, 9999);
    assert!(!cfg.server.manage);
    assert_eq!(cfg.server.binary, "/tmp/llama-server");
    assert_eq!(cfg.server.timeout_secs, 17);
}

#[test]
fn parses_legacy_chat_voice_and_context() {
    let cfg = config_from(
        r#"
            [chat]
            voice = Samantha
            rate = 220
            context_seconds = 90
            "#,
    );

    assert_eq!(cfg.speech.voice.as_deref(), Some("Samantha"));
    assert_eq!(cfg.speech.rate, 220);
    assert_eq!(cfg.chat.context_seconds, 90);
}

#[test]
fn blank_speech_voice_uses_system_default() {
    let cfg = config_from(
        r#"
            [speech]
            voice =
            "#,
    );

    assert!(cfg.speech.voice.is_none());
}

#[test]
fn parses_kokoro_speech_config() {
    let cfg = config_from(
        r#"
            [speech]
            backend = kokoro
            kokoro_model_dir = /tmp/kokoro
            kokoro_sid = 7
            kokoro_speed = 1.2
            kokoro_lang = en-us
            kokoro_threads = 4
            "#,
    );

    assert_eq!(cfg.speech.backend, "kokoro");
    assert_eq!(cfg.speech.kokoro.model_dir, "/tmp/kokoro");
    assert_eq!(cfg.speech.kokoro.sid, 7);
    assert_eq!(number(&cfg.speech.kokoro.speed), 1.2);
    assert_eq!(cfg.speech.kokoro.lang, "en-us");
    assert_eq!(cfg.speech.kokoro.threads, 4);
}

#[test]
fn parses_supertonic_speech_config() {
    let cfg = config_from(
        r#"
            [speech]
            backend = supertonic
            supertonic_model_dir = /tmp/supertonic
            supertonic_sid = 2
            supertonic_speed = 0.9
            supertonic_lang = de
            supertonic_steps = 6
            supertonic_threads = 3
            "#,
    );

    assert_eq!(cfg.speech.backend, "supertonic");
    assert_eq!(cfg.speech.supertonic.model_dir, "/tmp/supertonic");
    assert_eq!(cfg.speech.supertonic.sid, 2);
    assert_eq!(number(&cfg.speech.supertonic.speed), 0.9);
    assert_eq!(cfg.speech.supertonic.lang, "de");
    assert_eq!(cfg.speech.supertonic.steps, 6);
    assert_eq!(cfg.speech.supertonic.threads, 3);
}

#[test]
fn parses_vad_config() {
    let cfg = config_from(
        r#"
            [vad]
            enabled = false
            threshold = 0.62
            min_speech_duration_ms = 180
            min_silence_duration_ms = 220
            speech_pad_ms = 45
            "#,
    );

    assert!(!cfg.vad.enabled);
    assert_eq!(number(&cfg.vad.threshold), 0.62);
    assert_eq!(cfg.vad.min_speech_duration_ms, 180);
    assert_eq!(cfg.vad.min_silence_duration_ms, 220);
    assert_eq!(cfg.vad.speech_pad_ms, 45);
}

#[test]
fn parses_search_tool_config() {
    let cfg = config_from(
        r#"
            [search]
            enabled = false
            endpoint = http://10.0.0.2:8888/search
            max_results = 3
            timeout = 4
            "#,
    );

    assert!(!cfg.search.enabled);
    assert_eq!(cfg.search.endpoint, "http://10.0.0.2:8888/search");
    assert_eq!(cfg.search.max_results, 3);
    assert_eq!(cfg.search.timeout_secs, 4);
}

#[test]
fn parses_logging_config() {
    let cfg = config_from(
        r#"
            [logging]
            enabled = false
            debug = true
            path = /tmp/yappr-test.log
            "#,
    );

    assert!(!cfg.logging.enabled);
    assert!(cfg.logging.debug);
    assert_eq!(cfg.logging.path, "/tmp/yappr-test.log");
}

#[test]
fn user_config_overrides_defaults_without_rebuild() {
    let cfg = config_from(
        r#"
            [models]
            active = e4b-qat

            [model:e4b-qat]
            ctx_size = 16384
            ngl = 12

            [server]
            endpoint = http://127.0.0.1:9090/v1/chat/completions
            port = 9090

            [speech]
            voice = Alex

            [search]
            endpoint = http://localhost:7777/search
            "#,
    );

    assert_eq!(cfg.model.active, "e4b-qat");
    assert_eq!(cfg.model.ctx_size, "16384");
    assert_eq!(cfg.model.ngl, "12");
    assert_eq!(
        cfg.server.endpoint,
        "http://127.0.0.1:9090/v1/chat/completions"
    );
    assert_eq!(cfg.server.port, 9090);
    assert_eq!(cfg.speech.voice.as_deref(), Some("Alex"));
    assert_eq!(cfg.search.endpoint, "http://localhost:7777/search");
}

#[test]
fn parses_audio_and_language_options() {
    let cfg = config_from(
        r#"
            [audio]
            device = Studio Mic
            samplerate = 24000
            max_seconds = 12
            tail_seconds = 0.8

            [language]
            source = English
            target = Spanish
            options = auto, English, Spanish
            "#,
    );

    assert_eq!(cfg.audio.device.as_deref(), Some("Studio Mic"));
    assert_eq!(cfg.audio.samplerate, 24000);
    assert_eq!(number(&cfg.audio.max_seconds), 12.0);
    assert_eq!(number(&cfg.audio.tail_seconds), 0.8);
    assert_eq!(cfg.language.source, "English");
    assert_eq!(cfg.language.target, "Spanish");
    assert_eq!(cfg.language.options, ["auto", "English", "Spanish"]);
}

#[test]
fn written_settings_read_back() {
    let text = Config::set_user_value(None, "speech", "voice", "Ava (Premium)");
    let mut ini = Ini::new();
    ini.merge(&text);
    assert_eq!(ini.get("speech", "voice", ""), "Ava (Premium)");
    assert_eq!(ini.get("speech", "backend", ""), "say");
    let again = Config::set_user_value(Some(&text), "models", "active", "e4b-qat");
    let mut ini2 = Ini::new();
    ini2.merge(&again);
    assert_eq!(ini2.get("models", "active", ""), "e4b-qat");
    assert_eq!(ini2.get("speech", "voice", ""), "Ava (Premium)");
}

#[test]
fn loading_migrates_and_rewrites_old_files() {
    let (cfg, rewrite) = Config::load(Some("[chat]\nvoice = Samantha\nrate = 220\n"));
    assert_eq!(cfg.speech.voice.as_deref(), Some("Samantha"));
    let text = rewrite.expect("the old keys are moved");
    let mut ini = Ini::new();
    ini.merge(&text);
    assert_eq!(ini.get("speech", "voice", ""), "Samantha");
    assert_eq!(ini.get("chat", "voice", "missing"), "missing");
    let (defaults, none) = Config::load(None);
    assert!(none.is_none());
    assert_eq!(defaults.server.port, 8089);
    assert_eq!(defaults.model.active, "e2b-qat");
}

#[test]
fn ini_text_round_trips() {
    let mut ini = Ini::new();
    ini.merge("[b]\nz = 1\n[a]\ny = two words\n");
    let text = ini.to_text();
    let mut back = Ini::new();
    back.merge(&text);
    assert_eq!(back.get("a", "y", ""), "two words");
    assert_eq!(back.get("b", "z", ""), "1");
    assert_eq!(back.to_text(), text);
}
