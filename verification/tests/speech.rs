use yappr::config::{Config, DEFAULT_CONFIG};
use yappr::ini::Ini;
use yappr::speech::{
    kokoro_files, kokoro_lexicon, lexicon_candidates, needs_reload, say_args, speak, speech_route,
    supertonic_files, SpeechRoute,
};

fn speech_config(backend: &str) -> Config {
    let mut ini = Ini::new();
    ini.merge(DEFAULT_CONFIG);
    ini.merge(&format!("[speech]\nbackend = {backend}\n"));
    Config::from_ini(&mut ini)
}

#[test]
fn missing_kokoro_lexicons_are_omitted() {
    let dir = std::path::Path::new("/path/that/does/not/exist");
    let existing: Vec<String> = lexicon_candidates(dir.to_str().unwrap())
        .into_iter()
        .filter(|p| std::path::Path::new(p).exists())
        .collect();
    assert_eq!(kokoro_lexicon(&existing), "");
}

#[test]
fn lexicons_are_joined_by_commas() {
    assert_eq!(
        lexicon_candidates("/m"),
        ["/m/lexicon-us-en.txt", "/m/lexicon-zh.txt"]
    );
    assert_eq!(kokoro_lexicon(&vec!["/a".to_string(), "/b".to_string()]), "/a,/b");
}

#[test]
fn failing_engine_falls_back_to_say() {
    let cfg = speech_config("kokoro").speech;
    let (result, note) = speak(&cfg, |route| {
        assert!(matches!(route, SpeechRoute::Kokoro));
        Err("model missing".to_string())
    }, || Ok(()));
    assert!(result.is_ok());
    assert_eq!(
        note.as_deref(),
        Some("speech backend 'kokoro' failed (model missing); falling back to say")
    );
    let (ok, none) = speak(&cfg, |_| Ok(()), || -> Result<(), String> { panic!("no fallback") });
    assert!(ok.is_ok() && none.is_none());
}

#[test]
fn say_and_unknown_backends_speak_with_say() {
    let say = speech_config("say").speech;
    let (r, note) = speak(&say, |_| -> Result<(), String> { panic!("no engine") }, || Err("say failed".to_string()));
    assert_eq!(r.err().as_deref(), Some("say failed"));
    assert!(note.is_none());
    let odd = speech_config("robot").speech;
    let (r2, note2) = speak(&odd, |_| -> Result<(), String> { panic!("no engine") }, || Ok(()));
    assert!(r2.is_ok());
    assert_eq!(
        note2.as_deref(),
        Some("speech backend 'robot' failed (unknown speech backend: robot); falling back to say")
    );
    assert!(matches!(speech_route("supertonic"), SpeechRoute::Supertonic));
}

#[test]
fn say_command_line() {
    assert_eq!(say_args("hi there", Some("Ava (Premium)"), 190), ["-r", "190", "-v", "Ava (Premium)", "hi there"]);
    assert_eq!(say_args("x", None, -5), ["-r", "-5", "x"]);
}

#[test]
fn engine_model_files() {
    assert_eq!(
        kokoro_files("/k"),
        ["/k/model.onnx", "/k/voices.bin", "/k/tokens.txt", "/k/espeak-ng-data", "/k/dict"]
    );
    assert_eq!(supertonic_files("/s").len(), 7);
    assert_eq!(supertonic_files("/s")[6], "/s/voice.bin");
    assert!(needs_reload(false, "/k", "/k"));
    assert!(needs_reload(true, "/k", "/other"));
    assert!(!needs_reload(true, "/k", "/k"));
}
