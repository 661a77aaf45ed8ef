use yappr::config::{
    AudioConfig, ChatConfig, Config, KokoroConfig, LanguageConfig, LoggingConfig, ModelConfig,
    SearchConfig, ServerConfig, SpeechConfig, SupertonicConfig, VadConfig,
};
use yappr::ini::ModelChoice;
use yappr::ui::{
    backend_items, is_preferred_say_voice, kokoro_items, kokoro_voices, language_lines, log_label,
    microphone_items, model_lines, say_voice_items, say_voice_label, say_voice_name, say_voices,
    select_menu_item, selected_label, supertonic_items, version_label, MenuLine, SelectableItems,
};

#[test]
fn parses_say_voice_names_with_spaces() {
    assert_eq!(
        say_voice_name("Ava (Premium)       en_US    # Hello").as_deref(),
        Some("Ava (Premium)")
    );
    assert_eq!(
        say_voice_name("Eddy (English (US)) en_US    # Hello").as_deref(),
        Some("Eddy (English (US))")
    );
}

#[test]
fn keeps_only_premium_or_neural_say_voices() {
    assert!(is_preferred_say_voice("Ava (Premium)"));
    assert!(is_preferred_say_voice("Eddy (English (US))"));
    assert!(!is_preferred_say_voice("Cellos"));
    assert!(!is_preferred_say_voice("Eddy (German (Germany))"));
}

#[test]
fn formats_macos_voice_labels_for_menu() {
    assert_eq!(
        say_voice_label("Sandy (English (US))"),
        "Sandy - English US"
    );
    assert_eq!(say_voice_label("Ava (Premium)"), "Ava - Premium");
}

#[test]
fn exposes_kokoro_voice_descriptions() {
    let voices = kokoro_voices();

    assert_eq!(voices.len(), 53);
    assert_eq!(voices[0].label(), "Alloy - American Female (0)");
    assert_eq!(voices[52].label(), "Yunyang - Chinese Male (52)");
}

#[test]
fn log_menu_uses_effective_config() {
    let mut cfg = test_config();
    assert_eq!(log_label(&cfg), "Logs: /tmp/yappr.log");

    cfg.logging.enabled = false;
    assert_eq!(log_label(&cfg), "Logs: Disabled");
}

fn test_config() -> Config {
    Config {
        server: ServerConfig {
            endpoint: String::new(),
            port: 0,
            manage: false,
            binary: String::new(),
            timeout_secs: 0,
        },
        model: ModelConfig {
            repo: String::new(),
            weights: String::new(),
            mmproj: String::new(),
            ctx_size: String::new(),
            ngl: String::new(),
            active: String::new(),
            choices: Vec::new(),
        },
        audio: AudioConfig {
            device: None,
            samplerate: 16000,
            max_seconds: "0.0".to_string(),
            tail_seconds: "0.0".to_string(),
        },
        vad: VadConfig {
            enabled: true,
            threshold: "0.5".to_string(),
            min_speech_duration_ms: 250,
            min_silence_duration_ms: 100,
            speech_pad_ms: 30,
        },
        language: LanguageConfig {
            source: String::new(),
            target: String::new(),
            options: Vec::new(),
        },
        chat: ChatConfig { context_seconds: 0 },
        speech: SpeechConfig {
            backend: String::new(),
            kokoro: KokoroConfig {
                model_dir: String::new(),
                sid: 0,
                speed: "1.0".to_string(),
                lang: String::new(),
                threads: 0,
            },
            supertonic: SupertonicConfig {
                model_dir: String::new(),
                sid: 0,
                speed: "1.0".to_string(),
                lang: String::new(),
                steps: 0,
                threads: 0,
            },
            voice: None,
            rate: 0,
        },
        logging: LoggingConfig {
            enabled: true,
            debug: false,
            path: "/tmp/yappr.log".to_string(),
        },
        search: SearchConfig {
            enabled: false,
            endpoint: String::new(),
            max_results: 0,
            timeout_secs: 0,
        },
    }
}

#[test]
fn voice_lines_without_a_locale_are_skipped() {
    assert_eq!(say_voice_name("Cellos"), None);
    assert_eq!(say_voice_name("Bad voice enUS # x"), None);
    assert_eq!(say_voice_name("Name  en_USA # x"), None);
    assert_eq!(say_voice_name("  Albert   en_US"), Some("Albert".to_string()));
    assert_eq!(say_voice_name("Zoë ü_é").as_deref(), Some("Zoë"));
}

#[test]
fn voice_list_is_sorted_and_keeps_the_current_voice() {
    let listing = "Zoe (Premium)  en_US  # hi\nAva (Premium)  en_US  # hi\nCellos  en_US # hi\nAva (Premium)  en_US  # again\nFlo (English (US)) en_US # hi\n";
    assert_eq!(
        say_voices(listing, None),
        ["Ava (Premium)", "Flo (English (US))", "Zoe (Premium)"]
    );
    assert_eq!(
        say_voices(listing, Some("Samantha")),
        ["Ava (Premium)", "Flo (English (US))", "Zoe (Premium)", "Samantha"]
    );
    assert_eq!(say_voices(listing, Some("Ava (Premium)")).len(), 3);
    assert_eq!(say_voices("", Some("")), Vec::<String>::new());
}

#[test]
fn menu_items_check_the_current_choice() {
    assert_eq!(selected_label("Kokoro", true), "✓ Kokoro");
    assert_eq!(selected_label("Kokoro", false), "Kokoro");
    let mics = microphone_items(Some("USB"), &vec!["Built-in".to_string(), "USB".to_string()]);
    assert_eq!(mics.len(), 3);
    assert_eq!((mics[0].id.as_str(), mics[0].label.as_str()), ("mic:", "System Default"));
    assert_eq!((mics[2].id.as_str(), mics[2].label.as_str()), ("mic:USB", "✓ USB"));
    let backends = backend_items("kokoro");
    assert_eq!(backends[1].label, "✓ Kokoro");
    assert_eq!(backends[2].id, "speech_backend:say");
    assert_eq!(backends[0].group.as_deref(), Some("speech_backend"));
    let voices = say_voice_items(None, &vec!["Ava (Premium)".to_string()]);
    assert_eq!(voices[0].label, "✓ System Default");
    assert_eq!((voices[1].id.as_str(), voices[1].label.as_str(), voices[1].text.as_str()), ("speech_voice:Ava (Premium)", "Ava - Premium", "Ava - Premium"));
    assert_eq!(supertonic_items(0)[0].label, "✓ Default");
    let speakers = kokoro_items(3);
    assert_eq!(speakers.len(), 53);
    assert_eq!((speakers[3].id.as_str(), speakers[3].label.as_str()), ("kokoro_sid:3", "✓ Heart - American Female (3)"));
    assert_eq!(version_label("1.2.3"), "Yappr 1.2.3");
}

#[test]
fn model_and_language_menus() {
    let mut cfg = test_config();
    match &model_lines(&cfg.model)[..] {
        [MenuLine::Item(i)] => assert_eq!((i.id.as_str(), i.label.as_str(), i.enabled), ("model_none", "No configured models", false)),
        _ => panic!("one note expected"),
    }
    cfg.model.choices = vec![
        ModelChoice { id: "a".to_string(), label: "A".to_string() },
        ModelChoice { id: "b".to_string(), label: "B".to_string() },
    ];
    cfg.model.active = "b".to_string();
    let lines = model_lines(&cfg.model);
    assert_eq!(lines.len(), 4);
    match (&lines[1], &lines[2], &lines[3]) {
        (MenuLine::Item(b), MenuLine::Separator, MenuLine::Item(note)) => {
            assert_eq!((b.id.as_str(), b.label.as_str()), ("model:b", "✓ B"));
            assert_eq!(note.label, "Restart to Apply");
        }
        _ => panic!("unexpected lines"),
    }
    cfg.language.options = vec!["auto".to_string(), "Spanish".to_string()];
    cfg.language.target = "Spanish".to_string();
    let langs = language_lines(&cfg.language);
    assert_eq!(langs.len(), 4);
    match &langs[1] {
        MenuLine::Item(i) => assert_eq!((i.id.as_str(), i.label.as_str()), ("lang:Spanish", "✓ Spanish")),
        _ => panic!("item expected"),
    }
}

#[test]
fn choosing_moves_the_check_mark_within_a_group() {
    let mut items = SelectableItems::new();
    items.remember("speech_backend", "speech_backend:say", "macOS Say");
    items.remember("kokoro_sid", "kokoro_sid:1", "Aoede - American Female (1)");
    items.remember("speech_backend", "speech_backend:kokoro", "Kokoro");
    let updates = select_menu_item(&items, "speech_backend", "speech_backend:kokoro");
    assert_eq!(updates, [(0, "macOS Say".to_string()), (2, "✓ Kokoro".to_string())]);
    items.clear();
    assert!(select_menu_item(&items, "speech_backend", "x").is_empty());
}
