use yappr::config::{Config, DEFAULT_CONFIG};
use yappr::flow::{step, FlowEvent, SpeechCheck, Stage, Work};
use yappr::ini::Ini;
use yappr::menu::{apply_to_speech, menu_command, menu_selections, settings_to_save, MenuCommand};
use yappr::runtime::{
    after_stop, hotkey_down, hotkey_up, is_current, opened_recording, provision_step,
    ready_status, should_announce, worker_step, HotkeyPress, Provision, StopOutcome, WorkerAction,
    WorkerCommand,
};
use yappr::ui_state::{
    status_text, ANSWERING, ERROR, IDLE, NO_AUDIO, NOTICE, PROVISIONING_ENGINE, PROVISIONING_MODEL,
    RECORDING_CHAT, RECORDING_DICTATE, SPEAKING, STARTING, TRANSCRIBING,
};

fn config() -> Config {
    let mut ini = Ini::new();
    ini.merge(DEFAULT_CONFIG);
    Config::from_ini(&mut ini)
}

#[test]
fn presses_before_ready_are_announced() {
    match hotkey_down(false, PROVISIONING_MODEL, Some(42), false, false, 0) {
        HotkeyPress::Announce(m) => assert_eq!(m, "I'm still fetching files, 42 percent done."),
        _ => panic!("announce expected"),
    }
    match hotkey_down(false, PROVISIONING_MODEL, None, false, false, 0) {
        HotkeyPress::Announce(m) => assert_eq!(m, "I'm still fetching files, one moment."),
        _ => panic!("announce expected"),
    }
    match hotkey_down(false, STARTING, Some(3), false, false, 0) {
        HotkeyPress::Announce(m) => assert_eq!(m, "I'm still starting up, one moment."),
        _ => panic!("announce expected"),
    }
    assert!(matches!(hotkey_down(true, IDLE, None, true, false, 4), HotkeyPress::AlreadyRecording));
    assert!(matches!(
        hotkey_down(true, IDLE, None, false, true, 4),
        HotkeyPress::Start { interrupt: true, epoch: 5, busy: false }
    ));
    assert!(matches!(
        hotkey_down(true, IDLE, None, false, false, u64::MAX),
        HotkeyPress::Start { interrupt: false, epoch: 0, busy: false }
    ));
    assert!(hotkey_up(true) && !hotkey_up(false));
    assert!(!should_announce(5_999) && should_announce(6_000));
}

#[test]
fn readiness_keeps_a_permission_notice() {
    assert_eq!(ready_status(NOTICE), None);
    assert_eq!(ready_status(STARTING), Some(IDLE));
    assert!(is_current(None, 3));
    assert!(is_current(Some(3), 3));
    assert!(!is_current(Some(4), 3));
}

#[test]
fn provisioning_walks_through_its_stages() {
    let (s1, st1) = provision_step(Provision::Begin, true, true);
    assert!(matches!(s1, Provision::FetchingModel) && st1 == Some(PROVISIONING_MODEL));
    let (s2, st2) = provision_step(s1, true, true);
    assert!(matches!(s2, Provision::InstallingEngine) && st2 == Some(PROVISIONING_ENGINE));
    let (s3, st3) = provision_step(s2, true, true);
    assert!(matches!(s3, Provision::StartingServer) && st3 == Some(STARTING));
    let (s4, st4) = provision_step(s3, true, false);
    assert!(matches!(s4, Provision::Failed) && st4 == Some(ERROR));
    let (ready, none) = provision_step(Provision::Begin, false, false);
    assert!(matches!(ready, Provision::Ready) && none.is_none());
}

#[test]
fn dictation_pastes_the_transcript() {
    let s = step(Stage::Captured, FlowEvent::Captured { silent: false, vad_enabled: true }, false, true);
    assert!(matches!(s.work, Some(Work::CheckSpeech)));
    let s = step(s.stage, FlowEvent::SpeechChecked(SpeechCheck::Speech), false, true);
    assert_eq!(s.status, Some(TRANSCRIBING));
    let s = step(s.stage, FlowEvent::Transcribed(Some("hello".to_string())), false, true);
    assert_eq!(s.remember.as_deref(), Some("hello"));
    let s = step(s.stage, FlowEvent::Proceed, false, true);
    match &s.work {
        Some(Work::Paste(t)) => assert_eq!(t, "hello"),
        _ => panic!("paste expected"),
    }
    let s = step(s.stage, FlowEvent::Pasted(true), false, true);
    let s = step(s.stage, FlowEvent::Proceed, false, true);
    assert_eq!(s.status, Some(IDLE));
    assert!(matches!(s.stage, Stage::Done));
}

#[test]
fn chat_answers_and_speaks_unless_interrupted() {
    let s = step(Stage::AwaitTranscript, FlowEvent::Transcribed(Some("q".to_string())), true, true);
    assert_eq!(s.status, Some(ANSWERING));
    let s = step(s.stage, FlowEvent::Answered(Some("a".to_string())), true, true);
    assert_eq!(s.status, Some(SPEAKING));
    let late = step(Stage::AwaitAnswer, FlowEvent::Answered(Some("a".to_string())), true, false);
    assert!(late.work.is_none() && late.status.is_none());
    let silent = step(Stage::Captured, FlowEvent::Captured { silent: true, vad_enabled: true }, true, true);
    assert_eq!(silent.status, Some(NO_AUDIO));
    assert!(silent.work.is_none() && matches!(silent.stage, Stage::Done));
    assert_eq!(status_text(NO_AUDIO, None), "Status: No audio — grant Microphone");
    let no_speech = step(Stage::AwaitSpeechCheck, FlowEvent::SpeechChecked(SpeechCheck::NoSpeech), true, true);
    assert_eq!(no_speech.status, Some(IDLE));
}

#[test]
fn audio_worker_holds_one_recording() {
    let (a, held) = worker_step(None, WorkerCommand::Start { chat: true, epoch: 7 });
    assert!(matches!(a, WorkerAction::StartRecording { chat: true, epoch: 7 }) && held.is_none());
    let (status, held) = opened_recording(true, true, 7);
    assert_eq!(status, RECORDING_CHAT);
    let (again, still) = worker_step(held, WorkerCommand::Start { chat: false, epoch: 8 });
    assert!(matches!(again, WorkerAction::Ignore) && still == Some((true, 7)));
    let (stop, after) = worker_step(still, WorkerCommand::Stop);
    assert!(matches!(stop, WorkerAction::StopRecording { chat: true, epoch: 7 }) && after.is_none());
    let (idle, _) = worker_step(None, WorkerCommand::Stop);
    assert!(matches!(idle, WorkerAction::ClearBusy));
    assert_eq!(opened_recording(false, false, 1), (ERROR, None));
    assert_eq!(opened_recording(true, false, 1).0, RECORDING_DICTATE);
    assert!(matches!(after_stop(false, true), StopOutcome::Failed));
    assert!(matches!(after_stop(true, false), StopOutcome::Discarded));
    assert!(matches!(after_stop(true, true), StopOutcome::Process));
}

#[test]
fn menu_clicks_become_commands() {
    let cfg = config();
    assert!(matches!(menu_command("quit", &cfg.speech), MenuCommand::Quit));
    match menu_command("mic:", &cfg.speech) {
        MenuCommand::SelectMicrophone(None) => {}
        _ => panic!("system default expected"),
    }
    match menu_command("mic:USB Mic", &cfg.speech) {
        MenuCommand::SelectMicrophone(Some(n)) => assert_eq!(n, "USB Mic"),
        _ => panic!("device expected"),
    }
    assert!(matches!(menu_command("speech_backend:say", &cfg.speech), MenuCommand::Ignore));
    assert!(matches!(menu_command("kokoro_sid:x", &cfg.speech), MenuCommand::InvalidKokoroSid(_)));
    assert!(matches!(menu_command("unknown", &cfg.speech), MenuCommand::Ignore));
    let cmd = menu_command("kokoro_sid:5", &cfg.speech);
    let writes = settings_to_save(&cmd);
    let pairs: Vec<(&str, &str, &str)> = writes.iter().map(|w| (w.section, w.key, w.value.as_str())).collect();
    assert_eq!(pairs, [("speech", "backend", "kokoro"), ("speech", "kokoro_sid", "5")]);
    let mut speech = cfg.speech;
    apply_to_speech(&cmd, &mut speech);
    assert_eq!(speech.backend, "kokoro");
    assert_eq!(speech.kokoro.sid, 5);
    let marks = menu_selections(&cmd, "kokoro_sid:5");
    assert_eq!(marks, [("speech_backend", "speech_backend:kokoro".to_string()), ("kokoro_sid", "kokoro_sid:5".to_string())]);
    assert!(matches!(menu_command("kokoro_sid:5", &speech), MenuCommand::Ignore));
}

#[test]
fn status_lines() {
    assert_eq!(status_text(RECORDING_DICTATE, None), "Status: Listening for dictation");
    assert_eq!(status_text(PROVISIONING_MODEL, None), "Status: Downloading model…");
    assert_eq!(status_text(PROVISIONING_MODEL, Some(42)), "Status: Downloading model… 42%");
    assert_eq!(status_text(PROVISIONING_ENGINE, Some(42)), "Status: Installing engine…");
    assert_eq!(status_text(ERROR, None), "Status: Error; see log");
    assert_eq!(status_text(99, Some(7)), "Status: Ready");
}
