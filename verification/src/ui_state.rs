//! The states the menu-bar item shows, and their status lines.
use vstd::prelude::*;
use crate::text::{decimal, push_decimal};

verus! {

pub const IDLE: u8 = 0;
pub const RECORDING_DICTATE: u8 = 1;
pub const RECORDING_CHAT: u8 = 2;
pub const TRANSCRIBING: u8 = 3;
pub const ANSWERING: u8 = 4;
pub const SPEAKING: u8 = 5;
pub const ERROR: u8 = 6;
pub const NOTICE: u8 = 7;
pub const PROVISIONING_MODEL: u8 = 8;
pub const PROVISIONING_ENGINE: u8 = 9;
pub const STARTING: u8 = 10;
/// A recording came back silent: the Microphone permission is missing.
pub const NO_AUDIO: u8 = 11;

/// The status line shown in the menu for a state; unknown states read as ready.
pub open spec fn status_line(state: u8) -> Seq<char> {
    if state == RECORDING_DICTATE { "Status: Listening for dictation"@ }
    else if state == RECORDING_CHAT { "Status: Listening for chat"@ }
    else if state == TRANSCRIBING { "Status: Transcribing"@ }
    else if state == ANSWERING { "Status: Answering"@ }
    else if state == SPEAKING { "Status: Speaking"@ }
    else if state == NOTICE { "Status: Needs Input/Access/Mic"@ }
    else if state == ERROR { "Status: Error; see log"@ }
    else if state == PROVISIONING_MODEL { "Status: Downloading model…"@ }
    else if state == PROVISIONING_ENGINE { "Status: Installing engine…"@ }
    else if state == STARTING { "Status: Starting…"@ }
    else if state == NO_AUDIO { "Status: No audio — grant Microphone"@ }
    else { "Status: Ready"@ }
}

/// The status line with the download progress: while the model downloads and
/// its progress is known, the percentage follows the text.
pub open spec fn status_line_with(state: u8, percent: Option<u8>) -> Seq<char> {
    match percent {
        Some(p) if state == PROVISIONING_MODEL => "Status: Downloading model… "@ + decimal(p as nat) + "%"@,
        _ => status_line(state),
    }
}

/// The status line shown for `state`, with `percent` the current download
/// progress.
pub fn status_text(state: u8, percent: Option<u8>) -> (r: String)
    ensures
        r@ == status_line_with(state, percent),
{
    if state == PROVISIONING_MODEL {
        if let Some(p) = percent {
            let mut s = "Status: Downloading model… ".to_string();
            push_decimal(&mut s, p as u64);
            crate::text::push_str(&mut s, "%");
            return s;
        }
    }
    base_status_text(state).to_string()
}

/// The status line for a state, without progress.
fn base_status_text(state: u8) -> (r: &'static str)
    ensures
        r@ == status_line(state),
{
    match state {
        RECORDING_DICTATE => "Status: Listening for dictation",
        RECORDING_CHAT => "Status: Listening for chat",
        TRANSCRIBING => "Status: Transcribing",
        ANSWERING => "Status: Answering",
        SPEAKING => "Status: Speaking",
        NOTICE => "Status: Needs Input/Access/Mic",
        ERROR => "Status: Error; see log",
        PROVISIONING_MODEL => "Status: Downloading model…",
        PROVISIONING_ENGINE => "Status: Installing engine…",
        STARTING => "Status: Starting…",
        NO_AUDIO => "Status: No audio — grant Microphone",
        _ => "Status: Ready",
    }
}

/// States whose icon cycles through frames: only dictation has frame art.
pub fn is_animated(state: u8) -> (r: bool)
    ensures
        r == (state == RECORDING_DICTATE),
{
    state == RECORDING_DICTATE
}

/// Whether the animation tick redraws the icon: on a change of state, and on
/// every tick of an animated state.
pub fn should_redraw(state: u8, last_state: u8) -> (r: bool)
    ensures
        r == (state != last_state || state == RECORDING_DICTATE),
{
    state != last_state || is_animated(state)
}

} // verus!
