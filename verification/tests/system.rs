use yappr::audio::{device_names, input_device_status, DeviceReport};
use yappr::cli::{arg_value, check_lines, choose_mode, has_flag, plist_short_version, string_arg, version, Mode};
use yappr::config::{Config, DEFAULT_CONFIG};
use yappr::hotkey::{hotkey_log_line, is_flags_changed, right_option_edge, HotkeyEdge};
use yappr::ini::Ini;
use yappr::instance::{pid_line, previous_pid, should_terminate, InstanceLock};
use yappr::logger::{init, log_write, stamped_line, LogSettings};
use yappr::paths::{expand_tilde, expand_tilde_in, path_join};
use yappr::perms::{accessibility_status, input_monitoring_status, microphone_status};

fn args(list: &[&str]) -> Vec<String> {
    list.iter().map(|s| s.to_string()).collect()
}

#[test]
fn permission_reports() {
    assert_eq!(input_monitoring_status(Some(0)), "granted");
    assert_eq!(input_monitoring_status(Some(1)), "denied");
    assert_eq!(input_monitoring_status(Some(2)), "unknown");
    assert_eq!(input_monitoring_status(Some(-7)), "unknown");
    assert_eq!(input_monitoring_status(None), "unsupported");
    assert_eq!(accessibility_status(Some(true)), "granted");
    assert_eq!(accessibility_status(Some(false)), "not granted");
    assert_eq!(accessibility_status(None), "unsupported");
    assert_eq!(microphone_status(None), "unsupported");
    assert_eq!(microphone_status(Some("available (x)".to_string())), "available (x)");
}

#[test]
fn hotkey_events() {
    assert!(is_flags_changed(12) && !is_flags_changed(0xFFFF_FFFE));
    assert!(right_option_edge(60, 1 << 19).is_none());
    assert!(matches!(right_option_edge(61, 1 << 19), Some(HotkeyEdge::Down { command: false })));
    assert!(matches!(right_option_edge(61, (1 << 19) | (1 << 20)), Some(HotkeyEdge::Down { command: true })));
    assert!(matches!(right_option_edge(61, 1 << 20), Some(HotkeyEdge::Released)));
    assert_eq!(hotkey_log_line((1 << 19) | (1 << 20)), "hotkey event: right_option=down command=true");
    assert_eq!(hotkey_log_line(0), "hotkey event: right_option=up command=false");
}

#[test]
fn instance_lock_file() {
    assert_eq!(previous_pid(" 1234\n"), Some(1234));
    assert_eq!(previous_pid("-5"), Some(-5));
    assert_eq!(previous_pid("pid"), None);
    assert_eq!(previous_pid("99999999999"), None);
    assert!(should_terminate(10, 11, true));
    assert!(!should_terminate(11, 11, true));
    assert!(!should_terminate(10, 11, false));
    assert!(!should_terminate(-1, u32::MAX, true));
    assert_eq!(pid_line(42), "42\n");
    assert_eq!(InstanceLock::under_home("/Users/me").path, "/Users/me/.yappr.lock");
}

#[test]
fn tilde_paths() {
    assert_eq!(expand_tilde_in("~", Some("/home/u")), "/home/u");
    assert_eq!(expand_tilde_in("~", None), "~");
    assert_eq!(expand_tilde_in("~/x/y", Some("/home/u")), "/home/u/x/y");
    assert_eq!(expand_tilde_in("~/x", None), "~/x");
    assert_eq!(expand_tilde_in("/abs", Some("/home/u")), "/abs");
    assert_eq!(expand_tilde_in("~user", Some("/home/u")), "~user");
    assert_eq!(path_join("/a", "b"), "/a/b");
    assert_eq!(path_join("/a", "/b"), "/b");
    assert_eq!(expand_tilde("/plain"), "/plain");
}

#[test]
fn logging_settings() {
    let mut settings = LogSettings::default_config();
    assert!(settings.enabled);
    assert!(settings.path.ends_with(".yappr/yappr.log"));
    assert!(!settings.debug);
    init(&mut settings, false, false, "/tmp/y.log");
    assert!(!settings.enabled);
    assert_eq!(settings.path, "/tmp/y.log");
    assert!(stamped_line("hello").ends_with(" hello"));
}

#[test]
fn logging_writes_follow_the_last_settings() {
    let mut settings = LogSettings::default_config();
    let on = log_write(&settings, "hi", false);
    assert!(on.echo && on.append.as_deref().is_some_and(|l| l.ends_with(" hi")));
    let secret = log_write(&settings, "heard: x", true);
    assert!(!secret.echo && secret.append.is_none());
    init(&mut settings, true, true, "/tmp/a.log");
    init(&mut settings, false, true, "/tmp/b.log");
    assert_eq!(settings.path, "/tmp/b.log");
    let off = log_write(&settings, "heard: x", true);
    assert!(off.echo && off.append.is_none());
}

#[test]
fn command_line_modes() {
    assert!(matches!(choose_mode(&args(&[])), Mode::App));
    assert!(matches!(choose_mode(&args(&["--app"])), Mode::App));
    assert!(matches!(choose_mode(&args(&["--serve", "--check"])), Mode::Check));
    match choose_mode(&args(&["--record-test", "--seconds", "5"])) {
        Mode::RecordTest { seconds } => assert_eq!(seconds.as_deref(), Some("5")),
        _ => panic!("record test expected"),
    }
    match choose_mode(&args(&["--wav", "a.wav", "--paste"])) {
        Mode::Wav { path, paste } => assert!(path == "a.wav" && paste),
        _ => panic!("wav expected"),
    }
    match choose_mode(&args(&["--ask-wav", "q.wav"])) {
        Mode::AskWav { path } => assert_eq!(path, "q.wav"),
        _ => panic!("ask expected"),
    }
    assert!(matches!(choose_mode(&args(&["--wav"])), Mode::Usage));
    assert_eq!(string_arg(&args(&["--seconds"]), "--seconds"), None);
    assert_eq!(arg_value(&args(&["x", "--wav", "--wav", "b"]), "--wav").as_deref(), Some("--wav"));
    assert!(has_flag(&args(&["a", "--paste"]), "--paste"));
}

#[test]
fn bundle_version() {
    let plist = "<dict>\n<key>CFBundleShortVersionString</key>\n  <string> 1.4.2 </string>\n</dict>";
    assert_eq!(plist_short_version(plist).as_deref(), Some("1.4.2"));
    assert_eq!(plist_short_version("<key>Other</key><string>x</string>"), None);
    assert_eq!(version(Some(plist), "0.1.0"), "1.4.2");
    assert_eq!(version(None, "0.1.0"), "0.1.0");
    assert_eq!(version(Some("garbage"), "0.1.0"), "0.1.0");
}

#[test]
fn check_report_lines() {
    let mut ini = Ini::new();
    ini.merge(DEFAULT_CONFIG);
    let cfg = Config::from_ini(&mut ini);
    let lines = check_lines(&cfg, "/u/.yappr/config.ini", "granted", "not granted", "unsupported");
    assert_eq!(lines.len(), 21);
    assert_eq!(lines[0], "config: /u/.yappr/config.ini");
    assert_eq!(lines[2], "server port: 8089");
    assert_eq!(lines[5], "server timeout: 60s");
    assert_eq!(lines[12], "speech voice: system default");
    assert_eq!(lines[20], "microphone: unsupported");
}

#[test]
fn audio_devices() {
    assert_eq!(device_names(args(&["b", "a", "b"])), ["a", "b"]);
    assert_eq!(input_device_status(None), "not available");
    assert_eq!(
        input_device_status(Some(DeviceReport { name: Some("Mic".to_string()), config: Ok(("F32".to_string(), 1, 48000)) })),
        "available (Mic; F32, 1 ch, 48000 Hz)"
    );
    assert_eq!(
        input_device_status(Some(DeviceReport { name: None, config: Err("busy".to_string()) })),
        "available (unknown; config error: busy)"
    );
}
