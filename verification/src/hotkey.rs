//! Reading the global hotkey: the right Option key, with Command for chat.
use vstd::prelude::*;

verus! {

/// The key code of the right Option key.
pub const RIGHT_OPTION_KEYCODE: i64 = 61;

/// The event type of a modifier-key change.
pub const FLAGS_CHANGED_EVENT: u32 = 12;

/// The modifier flag of an Option key (bit 19).
pub const OPTION_FLAG: u64 = 0x80000;

/// The modifier flag of a Command key (bit 20).
pub const COMMAND_FLAG: u64 = 0x100000;

/// A press or release of the right Option key.
pub enum HotkeyEdge {
    /// Pressed; `command` tells whether Command is held too (chat).
    Down { command: bool },
    Released,
}

/// Only modifier changes carry the key code and flags worth reading.
pub fn is_flags_changed(event_type: u32) -> (r: bool)
    ensures
        r == (event_type == FLAGS_CHANGED_EVENT),
{
    event_type == FLAGS_CHANGED_EVENT
}

pub open spec fn edge_of(keycode: i64, flags: u64) -> Option<HotkeyEdge> {
    if keycode != RIGHT_OPTION_KEYCODE {
        None
    } else if flags & OPTION_FLAG != 0 {
        Some(HotkeyEdge::Down { command: flags & COMMAND_FLAG != 0 })
    } else {
        Some(HotkeyEdge::Released)
    }
}

/// Only the right Option key (key code 61) is the hotkey: a change of any
/// other key, the left Option key among them, whatever the modifier flags,
/// is ignored.
pub proof fn lemma_only_right_option_is_hotkey(keycode: i64, flags: u64)
    ensures
        keycode != 61 ==> edge_of(keycode, flags) is None,
        keycode == 61 ==> edge_of(keycode, flags) is Some,
{
}

/// What a modifier change means for the hotkey: nothing for other keys; a
/// press when the Option flag is set, with Command for chat; else a release.
pub fn right_option_edge(keycode: i64, flags: u64) -> (r: Option<HotkeyEdge>)
    ensures
        r == edge_of(keycode, flags),
{
    if keycode != RIGHT_OPTION_KEYCODE {
        None
    } else if flags & OPTION_FLAG != 0 {
        Some(HotkeyEdge::Down { command: flags & COMMAND_FLAG != 0 })
    } else {
        Some(HotkeyEdge::Released)
    }
}

/// The log line for a change of the right Option key with these flags.
pub open spec fn hotkey_log_text(flags: u64) -> Seq<char> {
    "hotkey event: right_option="@ + (if flags & OPTION_FLAG != 0 { "down"@ } else { "up"@ })
        + " command="@ + (if flags & COMMAND_FLAG != 0 { "true"@ } else { "false"@ })
}

/// The log line for a change of the right Option key.
pub fn hotkey_log_line(flags: u64) -> (r: String)
    ensures
        r@ == hotkey_log_text(flags),
{
    let mut s = "hotkey event: right_option=".to_string();
    crate::text::push_str(&mut s, if flags & OPTION_FLAG != 0 { "down" } else { "up" });
    crate::text::push_str(&mut s, " command=");
    crate::text::push_str(&mut s, if flags & COMMAND_FLAG != 0 { "true" } else { "false" });
    s
}

} // verus!
