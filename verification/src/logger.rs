//! Where log lines go, and how a line is written to the log file.
use vstd::prelude::*;
use crate::paths::{expand_tilde, expanded};
use crate::text::push_str;

verus! {

/// Whether to write the log file, and where; whether sensitive content
/// (transcripts, answers, queries) is logged at all.
pub struct LogSettings {
    pub enabled: bool,
    pub debug: bool,
    pub path: String,
}

/// The log file used until the configuration is read.
pub open spec fn default_log_path() -> Seq<char> {
    "~/.yappr/yappr.log"@
}

impl LogSettings {
    /// Logging on, to `~/.yappr/yappr.log`, without sensitive content.
    pub fn default_config() -> (r: LogSettings)
        ensures
            r.enabled,
            !r.debug,
            exists|home: Option<Seq<char>>| r.path@ == expanded(default_log_path(), home),
    {
        let path = expand_tilde("~/.yappr/yappr.log");
        proof {
            let h = choose|h: Option<Seq<char>>| path@ == expanded("~/.yappr/yappr.log"@, h);
            assert(path@ == expanded(default_log_path(), h));
        }
        LogSettings { enabled: true, debug: false, path }
    }
}

/// Applies the configured logging: on or off, sensitive content or not, and
/// the file, with `~` read as the home directory. Every setting is replaced,
/// so the last call alone decides what is logged.
pub fn init(settings: &mut LogSettings, enabled: bool, debug: bool, path: &str)
    ensures
        final(settings).enabled == enabled,
        final(settings).debug == debug,
        exists|home: Option<Seq<char>>| final(settings).path@ == expanded(path@, home),
{
    settings.enabled = enabled;
    settings.debug = debug;
    settings.path = expand_tilde(path);
}

/// What logging one message writes: the message to stderr (`echo`), and the
/// line to append to the log file at the settings' path (`append`).
pub struct LogWrite {
    pub echo: bool,
    pub append: Option<String>,
}

/// What logging `message` writes: nothing for sensitive content unless debug
/// logging is on; otherwise the message to stderr, and, when logging is
/// enabled (and only then), a time-stamped line to the log file.
pub fn log_write(settings: &LogSettings, message: &str, sensitive: bool) -> (r: LogWrite)
    ensures
        sensitive && !settings.debug ==> !r.echo && r.append is None,
        !(sensitive && !settings.debug) ==> r.echo && (r.append is Some <==> settings.enabled),
        r.append matches Some(line) ==> exists|time: Seq<char>| line@ == time + " "@ + message@,
{
    if sensitive && !settings.debug {
        return LogWrite { echo: false, append: None };
    }
    let append = if settings.enabled { Some(stamped_line(message)) } else { None };
    LogWrite { echo: true, append }
}

/// The local time as `chrono::Local::now().format("%F %T")` writes it. It
/// depends on the clock and the time zone, so nothing is stated of it.
#[verifier::external_body]
fn log_time_text() -> String {
    chrono::Local::now().format("%F %T").to_string()
}

/// A line of the log file: the local time, a space, the message.
pub fn stamped_line(message: &str) -> (r: String)
    ensures
        exists|time: Seq<char>| r@ == time + " "@ + message@,
{
    let mut s = log_time_text();
    let ghost time = s@;
    push_str(&mut s, " ");
    push_str(&mut s, message);
    assert(s@ == time + " "@ + message@);
    s
}

} // verus!
