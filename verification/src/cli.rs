//! The command line: which mode to run, option values, the version shown,
//! and the lines of the `--check` report.
use vstd::prelude::*;
use crate::config::Config;
use crate::text::{chars_of, decimal, find, find_in, push_decimal, push_str, same_text, string_of, texts, trim, trim_range};

verus! {

/// The usage text.
pub const USAGE: &'static str = "Yappr Rust shell\n\n  yappr [--app]\n  yappr --check\n  yappr --record-test [--seconds 3]\n  yappr --serve\n  yappr --wav audio.wav [--paste]\n  yappr --ask-wav audio.wav\n\nDefault app mode: hold Right Option to dictate; hold Cmd+Right Option to chat.";

/// The first position `i` at or after `from` where `args[i]` is `key` and a
/// value follows.
pub open spec fn key_index_from(args: Seq<Seq<char>>, key: Seq<char>, from: int) -> Option<int>
    decreases args.len() - from,
{
    if from < 0 || from + 1 >= args.len() {
        None
    } else if args[from] == key {
        Some(from)
    } else {
        key_index_from(args, key, from + 1)
    }
}

/// The value after the first `key` that has one.
pub open spec fn value_after(args: Seq<Seq<char>>, key: Seq<char>) -> Option<Seq<char>> {
    match key_index_from(args, key, 0) {
        Some(i) => Some(args[i + 1]),
        None => None,
    }
}

/// The value of option `key`: the argument after the first
/// `key` that is followed by one.
pub fn string_arg(args: &Vec<String>, key: &str) -> (r: Option<String>)
    ensures
        r matches Some(v) ==> value_after(texts(args@), key@) == Some(v@),
        r is None ==> value_after(texts(args@), key@) is None,
{
    let ghost a = texts(args@);
    let mut i: usize = 0;
    while args.len() > 0 && i < args.len() - 1
        invariant
            a == texts(args@),
            i <= args@.len(),
            key_index_from(a, key@, 0) == key_index_from(a, key@, i as int),
        decreases args@.len() - i,
    {
        if same_text(args[i].as_str(), key) {
            return Some(args[i + 1].clone());
        }
        i = i + 1;
    }
    None
}

/// The path given for option `key`.
pub fn arg_value(args: &Vec<String>, key: &str) -> (r: Option<String>)
    ensures
        r matches Some(v) ==> value_after(texts(args@), key@) == Some(v@),
        r is None ==> value_after(texts(args@), key@) is None,
{
    string_arg(args, key)
}

/// Whether `flag` is among the arguments.
pub fn has_flag(args: &Vec<String>, flag: &str) -> (r: bool)
    ensures
        r == texts(args@).contains(flag@),
{
    let ghost a = texts(args@);
    let mut i: usize = 0;
    while i < args.len()
        invariant
            a == texts(args@),
            i <= args@.len(),
            forall|j: int| 0 <= j < i ==> a[j] != flag@,
        decreases args@.len() - i,
    {
        if same_text(args[i].as_str(), flag) {
            assert(a[i as int] == flag@);
            return true;
        }
        i = i + 1;
    }
    false
}

/// What the command line asks for.
pub enum Mode {
    /// Print the configuration and permission report.
    Check,
    /// Record a test clip; the `--seconds` value, if given.
    RecordTest { seconds: Option<String> },
    /// Run the backend until interrupted.
    Serve,
    /// Transcribe a WAV file, and paste the text when asked.
    Wav { path: String, paste: bool },
    /// Transcribe a WAV file as a question and speak the answer.
    AskWav { path: String },
    /// The menu-bar app.
    App,
    /// Print usage.
    Usage,
}

/// The mode as text.
pub enum ModeShape {
    Check,
    RecordTest(Option<Seq<char>>),
    Serve,
    Wav(Seq<char>, bool),
    AskWav(Seq<char>),
    App,
    Usage,
}

pub open spec fn mode_shape(m: Mode) -> ModeShape {
    match m {
        Mode::Check => ModeShape::Check,
        Mode::RecordTest { seconds } => ModeShape::RecordTest(match seconds {
            Some(s) => Some(s@),
            None => None,
        }),
        Mode::Serve => ModeShape::Serve,
        Mode::Wav { path, paste } => ModeShape::Wav(path@, paste),
        Mode::AskWav { path } => ModeShape::AskWav(path@),
        Mode::App => ModeShape::App,
        Mode::Usage => ModeShape::Usage,
    }
}

/// The mode for the arguments, checked in this order: `--check`,
/// `--record-test`, `--serve`, `--wav PATH`, `--ask-wav PATH`; then the app
/// when there are no arguments or `--app` is given; else usage.
pub open spec fn mode_of(args: Seq<Seq<char>>) -> ModeShape {
    if args.contains("--check"@) {
        ModeShape::Check
    } else if args.contains("--record-test"@) {
        ModeShape::RecordTest(value_after(args, "--seconds"@))
    } else if args.contains("--serve"@) {
        ModeShape::Serve
    } else if value_after(args, "--wav"@) is Some {
        ModeShape::Wav(value_after(args, "--wav"@)->0, args.contains("--paste"@))
    } else if value_after(args, "--ask-wav"@) is Some {
        ModeShape::AskWav(value_after(args, "--ask-wav"@)->0)
    } else if args.len() == 0 || args.contains("--app"@) {
        ModeShape::App
    } else {
        ModeShape::Usage
    }
}

/// Decides what to run from the arguments.
pub fn choose_mode(args: &Vec<String>) -> (r: Mode)
    ensures
        mode_shape(r) == mode_of(texts(args@)),
{
    if has_flag(args, "--check") {
        return Mode::Check;
    }
    if has_flag(args, "--record-test") {
        return Mode::RecordTest { seconds: string_arg(args, "--seconds") };
    }
    if has_flag(args, "--serve") {
        return Mode::Serve;
    }
    if let Some(path) = arg_value(args, "--wav") {
        return Mode::Wav { path, paste: has_flag(args, "--paste") };
    }
    if let Some(path) = arg_value(args, "--ask-wav") {
        return Mode::AskWav { path };
    }
    if args.len() == 0 || has_flag(args, "--app") {
        return Mode::App;
    }
    Mode::Usage
}

/// The `CFBundleShortVersionString` of an `Info.plist`: the text of the first
/// `<string>` after its key, trimmed.
pub open spec fn plist_version_of(text: Seq<char>) -> Option<Seq<char>> {
    let key = "<key>CFBundleShortVersionString</key>"@;
    match find(text, key) {
        None => None,
        Some(k) => {
            let after = text.skip(k + key.len());
            match find(after, "<string>"@) {
                None => None,
                Some(s) => {
                    let start = s + "<string>"@.len();
                    match find(after.skip(start), "</string>"@) {
                        None => None,
                        Some(e) => Some(trim(after.subrange(start, start + e))),
                    }
                },
            }
        },
    }
}

/// Reads the short version from the text of an `Info.plist`.
#[verifier::rlimit(40)]
pub fn plist_short_version(text: &str) -> (r: Option<String>)
    ensures
        r matches Some(v) ==> plist_version_of(text@) == Some(v@),
        r is None ==> plist_version_of(text@) is None,
{
    let v = chars_of(text);
    let key = chars_of("<key>CFBundleShortVersionString</key>");
    let open = chars_of("<string>");
    let close = chars_of("</string>");
    assert(v@.subrange(0, v@.len() as int) =~= v@);
    let k = match find_in(&v, 0, v.len(), &key) {
        Some(k) => k,
        None => return None,
    };
    let from = k + key.len();
    let ghost after = text@.skip(k + key@.len());
    assert(after =~= v@.subrange(from as int, v@.len() as int));
    let s = match find_in(&v, from, v.len(), &open) {
        Some(s) => s,
        None => return None,
    };
    let start = s + open.len();
    assert(after.skip(s - from + open@.len()) =~= v@.subrange(start as int, v@.len() as int));
    let e = match find_in(&v, start, v.len(), &close) {
        Some(e) => e,
        None => return None,
    };
    assert(after.subrange(s - from + open@.len(), s - from + open@.len() + (e - start)) =~= v@.subrange(start as int, e as int));
    let (a, b) = trim_range(&v, start, e);
    Some(string_of(&v, a, b))
}

/// The version shown in the menu: the bundle's short version
/// when its `Info.plist` holds one, else the package version.
pub fn version(plist_text: Option<&str>, package_version: &str) -> (r: String)
    ensures
        r@ == match plist_text {
            Some(t) => match plist_version_of(t@) {
                Some(v) => v,
                None => package_version@,
            },
            None => package_version@,
        },
{
    match plist_text {
        Some(t) => match plist_short_version(t) {
            Some(v) => v,
            None => package_version.to_string(),
        },
        None => package_version.to_string(),
    }
}

/// Whether the app launches and manages its own `llama-server`.
pub fn manages_backend(cfg: &Config) -> (r: bool)
    ensures
        r == cfg.server.manage,
{
    cfg.server.manage
}

fn line(label: &str, value: &str) -> (r: String)
    ensures
        r@ == label@ + value@,
{
    let mut s = String::new();
    push_str(&mut s, label);
    push_str(&mut s, value);
    s
}

fn flag_text(b: bool) -> (r: &'static str)
    ensures
        r@ == (if b { "true"@ } else { "false"@ }),
{
    if b { "true" } else { "false" }
}

fn number_line(label: &str, n: u64, unit: &str) -> (r: String)
    ensures
        r@ == label@ + decimal(n as nat) + unit@,
{
    let mut s = String::new();
    push_str(&mut s, label);
    push_decimal(&mut s, n);
    push_str(&mut s, unit);
    s
}

/// The text of a flag.
pub open spec fn bool_text(b: bool) -> Seq<char> {
    if b { "true"@ } else { "false"@ }
}

/// The settings and permission lines of the `--check` report, in order (the
/// file locations follow them).
pub open spec fn check_lines_text(cfg: Config, config_path: Seq<char>, input_monitoring: Seq<char>, accessibility: Seq<char>, microphone: Seq<char>) -> Seq<Seq<char>> {
    seq![
        "config: "@ + config_path,
        "server endpoint: "@ + cfg.server.endpoint@,
        "server port: "@ + decimal(cfg.server.port as nat),
        "server manage: "@ + bool_text(cfg.server.manage),
        "server binary: "@ + cfg.server.binary@,
        "server timeout: "@ + decimal(cfg.server.timeout_secs as nat) + "s"@,
        "model active: "@ + cfg.model.active@,
        "model repo: "@ + cfg.model.repo@,
        "model weights file: "@ + cfg.model.weights@,
        "model mmproj file: "@ + cfg.model.mmproj@,
        "model ctx_size: "@ + cfg.model.ctx_size@,
        "model ngl: "@ + cfg.model.ngl@,
        "speech voice: "@ + match cfg.speech.voice {
            Some(v) => v@,
            None => "system default"@,
        },
        "chat context_seconds: "@ + crate::text::signed_decimal(cfg.chat.context_seconds as int),
        "search enabled: "@ + bool_text(cfg.search.enabled),
        "search endpoint: "@ + cfg.search.endpoint@,
        "search max_results: "@ + decimal(cfg.search.max_results as nat),
        "search timeout: "@ + decimal(cfg.search.timeout_secs as nat) + "s"@,
        "input monitoring: "@ + input_monitoring,
        "accessibility: "@ + accessibility,
        "microphone: "@ + microphone,
    ]
}

/// The settings and permission lines of the `--check` report.
pub fn check_lines(cfg: &Config, config_path: &str, input_monitoring: &str, accessibility: &str, microphone: &str) -> (r: Vec<String>)
    ensures
        texts(r@) == check_lines_text(*cfg, config_path@, input_monitoring@, accessibility@, microphone@),
{
    let mut context = "chat context_seconds: ".to_string();
    crate::text::push_signed_decimal(&mut context, cfg.chat.context_seconds);
    let voice: &str = match &cfg.speech.voice {
        Some(v) => v.as_str(),
        None => "system default",
    };
    let r = vec![
        line("config: ", config_path),
        line("server endpoint: ", cfg.server.endpoint.as_str()),
        number_line("server port: ", cfg.server.port as u64, ""),
        line("server manage: ", flag_text(cfg.server.manage)),
        line("server binary: ", cfg.server.binary.as_str()),
        number_line("server timeout: ", cfg.server.timeout_secs, "s"),
        line("model active: ", cfg.model.active.as_str()),
        line("model repo: ", cfg.model.repo.as_str()),
        line("model weights file: ", cfg.model.weights.as_str()),
        line("model mmproj file: ", cfg.model.mmproj.as_str()),
        line("model ctx_size: ", cfg.model.ctx_size.as_str()),
        line("model ngl: ", cfg.model.ngl.as_str()),
        line("speech voice: ", voice),
        context,
        line("search enabled: ", flag_text(cfg.search.enabled)),
        line("search endpoint: ", cfg.search.endpoint.as_str()),
        number_line("search max_results: ", cfg.search.max_results as u64, ""),
        number_line("search timeout: ", cfg.search.timeout_secs, "s"),
        line("input monitoring: ", input_monitoring),
        line("accessibility: ", accessibility),
        line("microphone: ", microphone),
    ];
    proof {
        reveal_strlit("");
    }
    assert(texts(r@) =~= check_lines_text(*cfg, config_path@, input_monitoring@, accessibility@, microphone@));
    r
}

} // verus!
