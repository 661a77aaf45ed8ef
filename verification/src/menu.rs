//! What a click on a menu item asks for, and what it changes.
use vstd::prelude::*;
use crate::text::{chars_of, parse_integer, parse_integer_exec, same_text, starts_with, starts_with_str, strip_all, strip_all_str, strip_prefix_str};
use crate::config::{text_of, Config, SpeechConfig};
use crate::ini::IniKey;

verus! {

/// A menu click, decided.
pub enum MenuCommand {
    /// Stop the backend and exit.
    Quit,
    /// Copy the last transcript to the clipboard.
    CopyTranscript,
    /// Use this input device (`None`: the system default).
    SelectMicrophone(Option<String>),
    /// Make this model active (applies after a restart).
    SelectModel(String),
    /// Translate into this language (applies after a restart).
    SelectLanguage(String),
    /// Switch the speech backend.
    SelectSpeechBackend(String),
    /// Speak with macOS `say` in this voice (empty: the system default).
    SelectSayVoice(String),
    /// Speak with Supertonic as this speaker; the number when the id parses.
    SelectSupertonicVoice(String, Option<i32>),
    /// Speak with Kokoro as this speaker.
    SelectKokoroVoice(String, i32),
    /// A Kokoro speaker id that is not a number.
    InvalidKokoroSid(String),
    /// Nothing to do: an unknown item, or the choice already in effect.
    Ignore,
}

/// A menu click, as text.
pub enum MenuIntent {
    Quit,
    CopyTranscript,
    SelectMicrophone(Option<Seq<char>>),
    SelectModel(Seq<char>),
    SelectLanguage(Seq<char>),
    SelectSpeechBackend(Seq<char>),
    SelectSayVoice(Seq<char>),
    SelectSupertonicVoice(Seq<char>, Option<int>),
    SelectKokoroVoice(Seq<char>, int),
    InvalidKokoroSid(Seq<char>),
    Ignore,
}

impl View for MenuCommand {
    type V = MenuIntent;

    open spec fn view(&self) -> MenuIntent {
        match self {
            MenuCommand::Quit => MenuIntent::Quit,
            MenuCommand::CopyTranscript => MenuIntent::CopyTranscript,
            MenuCommand::SelectMicrophone(d) => MenuIntent::SelectMicrophone(
                match d { Some(n) => Some(n@), None => None },
            ),
            MenuCommand::SelectModel(m) => MenuIntent::SelectModel(m@),
            MenuCommand::SelectLanguage(l) => MenuIntent::SelectLanguage(l@),
            MenuCommand::SelectSpeechBackend(b) => MenuIntent::SelectSpeechBackend(b@),
            MenuCommand::SelectSayVoice(v) => MenuIntent::SelectSayVoice(v@),
            MenuCommand::SelectSupertonicVoice(t, p) => MenuIntent::SelectSupertonicVoice(
                t@,
                match p { Some(x) => Some(*x as int), None => None },
            ),
            MenuCommand::SelectKokoroVoice(t, p) => MenuIntent::SelectKokoroVoice(t@, *p as int),
            MenuCommand::InvalidKokoroSid(t) => MenuIntent::InvalidKokoroSid(t@),
            MenuCommand::Ignore => MenuIntent::Ignore,
        }
    }
}

/// `str::parse::<i32>`.
pub open spec fn parse_i32(s: Seq<char>) -> Option<int> {
    parse_integer(s, true, i32::MIN as int, i32::MAX as int)
}

/// What the item `id` asks for, given the current speech backend and Kokoro speaker.
/// Ids are matched in this order: `quit`, `copy_transcript`, then the prefixes
/// `mic:` (stripped once), `model:`, `lang:`, `speech_backend:`, `speech_voice:`,
/// `supertonic_sid:` and `kokoro_sid:` (each stripped as often as it repeats).
pub open spec fn menu_intent(id: Seq<char>, backend: Seq<char>, kokoro_sid: int) -> MenuIntent {
    if id == "quit"@ {
        MenuIntent::Quit
    } else if id == "copy_transcript"@ {
        MenuIntent::CopyTranscript
    } else if starts_with(id, "mic:"@) {
        let name = id.skip("mic:"@.len() as int);
        MenuIntent::SelectMicrophone(if name.len() == 0 { None } else { Some(name) })
    } else if starts_with(id, "model:"@) {
        MenuIntent::SelectModel(strip_all(id, "model:"@))
    } else if starts_with(id, "lang:"@) {
        MenuIntent::SelectLanguage(strip_all(id, "lang:"@))
    } else if starts_with(id, "speech_backend:"@) {
        let b = strip_all(id, "speech_backend:"@);
        if b == backend {
            MenuIntent::Ignore
        } else {
            MenuIntent::SelectSpeechBackend(b)
        }
    } else if starts_with(id, "speech_voice:"@) {
        MenuIntent::SelectSayVoice(strip_all(id, "speech_voice:"@))
    } else if starts_with(id, "supertonic_sid:"@) {
        let t = strip_all(id, "supertonic_sid:"@);
        MenuIntent::SelectSupertonicVoice(t, parse_i32(t))
    } else if starts_with(id, "kokoro_sid:"@) {
        let t = strip_all(id, "kokoro_sid:"@);
        match parse_i32(t) {
            None => MenuIntent::InvalidKokoroSid(t),
            Some(n) => if backend == "kokoro"@ && kokoro_sid == n {
                MenuIntent::Ignore
            } else {
                MenuIntent::SelectKokoroVoice(t, n)
            },
        }
    } else {
        MenuIntent::Ignore
    }
}

fn parse_i32_exec(s: &String) -> (r: Option<i32>)
    ensures
        r matches Some(x) ==> parse_i32(s@) == Some(x as int),
        r is None ==> parse_i32(s@) is None,
{
    let v = chars_of(s.as_str());
    match parse_integer_exec(&v, true, i32::MIN as i128, i32::MAX as i128) {
        Some(x) => Some(x as i32),
        None => None,
    }
}

/// Decides what the menu item `id` asks for.
pub fn menu_command(id: &str, speech: &SpeechConfig) -> (r: MenuCommand)
    ensures
        r@ == menu_intent(id@, speech.backend@, speech.kokoro.sid as int),
{
    if same_text(id, "quit") {
        return MenuCommand::Quit;
    }
    if same_text(id, "copy_transcript") {
        return MenuCommand::CopyTranscript;
    }
    if let Some(name) = strip_prefix_str(id, "mic:") {
        return if name.as_str().is_empty() {
            MenuCommand::SelectMicrophone(None)
        } else {
            MenuCommand::SelectMicrophone(Some(name))
        };
    }
    if starts_with_str(id, "model:") {
        return MenuCommand::SelectModel(strip_all_str(id, "model:"));
    }
    if starts_with_str(id, "lang:") {
        return MenuCommand::SelectLanguage(strip_all_str(id, "lang:"));
    }
    if starts_with_str(id, "speech_backend:") {
        let b = strip_all_str(id, "speech_backend:");
        if same_text(b.as_str(), speech.backend.as_str()) {
            return MenuCommand::Ignore;
        }
        return MenuCommand::SelectSpeechBackend(b);
    }
    if starts_with_str(id, "speech_voice:") {
        return MenuCommand::SelectSayVoice(strip_all_str(id, "speech_voice:"));
    }
    if starts_with_str(id, "supertonic_sid:") {
        let t = strip_all_str(id, "supertonic_sid:");
        let parsed = parse_i32_exec(&t);
        return MenuCommand::SelectSupertonicVoice(t, parsed);
    }
    if starts_with_str(id, "kokoro_sid:") {
        let t = strip_all_str(id, "kokoro_sid:");
        return match parse_i32_exec(&t) {
            None => MenuCommand::InvalidKokoroSid(t),
            Some(n) => {
                if same_text(speech.backend.as_str(), "kokoro") && speech.kokoro.sid == n {
                    MenuCommand::Ignore
                } else {
                    MenuCommand::SelectKokoroVoice(t, n)
                }
            },
        };
    }
    MenuCommand::Ignore
}

/// One `(section, key, value)` to store in the user's configuration file.
pub struct SettingWrite {
    pub section: &'static str,
    pub key: &'static str,
    pub value: String,
}

pub open spec fn write_view(w: SettingWrite) -> (Seq<char>, Seq<char>, Seq<char>) {
    (w.section@, w.key@, w.value@)
}

/// The settings a command stores, in order (each only after the one before it
/// was saved).
pub open spec fn intent_writes(c: MenuIntent) -> Seq<(Seq<char>, Seq<char>, Seq<char>)> {
    match c {
        MenuIntent::SelectMicrophone(d) => seq![("audio"@, "device"@, match d { Some(n) => n, None => Seq::empty() })],
        MenuIntent::SelectModel(m) => seq![("models"@, "active"@, m)],
        MenuIntent::SelectLanguage(l) => seq![("language"@, "target"@, l)],
        MenuIntent::SelectSpeechBackend(b) => seq![("speech"@, "backend"@, b)],
        MenuIntent::SelectSayVoice(v) => seq![("speech"@, "backend"@, "say"@), ("speech"@, "voice"@, v)],
        MenuIntent::SelectSupertonicVoice(t, _) => seq![("speech"@, "backend"@, "supertonic"@), ("speech"@, "supertonic_sid"@, t)],
        MenuIntent::SelectKokoroVoice(t, _) => seq![("speech"@, "backend"@, "kokoro"@), ("speech"@, "kokoro_sid"@, t)],
        _ => Seq::empty(),
    }
}

/// The settings `m` after storing `ws`, in order.
pub open spec fn with_writes(m: Map<IniKey, Seq<char>>, ws: Seq<(Seq<char>, Seq<char>, Seq<char>)>) -> Map<IniKey, Seq<char>>
    decreases ws.len(),
{
    if ws.len() == 0 {
        m
    } else {
        with_writes(m, ws.drop_last()).insert((ws.last().0, ws.last().1), ws.last().2)
    }
}

/// Choosing the output language `l` in the menu sets the translation target
/// and nothing else: the item `lang:<l>` asks for `l`, the one setting stored
/// is `[language] target = l`, every other setting (the spoken source
/// language among them) keeps its value, and the configuration read back
/// translates into `l` from the source it had.
pub proof fn lemma_language_choice_sets_only_target(
    l: Seq<char>,
    backend: Seq<char>,
    kokoro_sid: int,
    m: Map<IniKey, Seq<char>>,
    cfg: Config,
)
    requires
        !starts_with(l, "lang:"@),
    ensures
        menu_intent("lang:"@ + l, backend, kokoro_sid) == MenuIntent::SelectLanguage(l),
        ({
            let after = with_writes(m, intent_writes(MenuIntent::SelectLanguage(l)));
            &&& after.dom().contains(("language"@, "target"@))
            &&& after[("language"@, "target"@)] == l
            &&& forall|k: IniKey| k != ("language"@, "target"@) ==> (#[trigger] after.dom().contains(k)
                == m.dom().contains(k)) && (m.dom().contains(k) ==> after[k] == m[k])
            &&& cfg.read_from(after) ==> cfg.language.target@ == l
                && cfg.language.source@ == text_of(m, "language", "source", "auto")
        }),
{
    reveal_strlit("lang:");
    reveal_strlit("quit");
    reveal_strlit("copy_transcript");
    reveal_strlit("mic:");
    reveal_strlit("model:");
    reveal_strlit("language");
    reveal_strlit("source");
    reveal_strlit("target");
    let id = "lang:"@ + l;
    assert(id[0] == 'l');
    assert(id != "quit"@) by {
        assert(id.len() != "quit"@.len() || id[0] != "quit"@[0]);
    }
    assert(id != "copy_transcript"@) by {
        assert(id[0] != "copy_transcript"@[0]);
    }
    assert(!starts_with(id, "mic:"@)) by {
        assert(id.subrange(0, 4)[0] == 'l');
    }
    assert(!starts_with(id, "model:"@)) by {
        if id.len() >= 6 {
            assert(id.subrange(0, 6)[0] == 'l');
        }
    }
    assert(id.subrange(0, 5) =~= "lang:"@);
    assert(starts_with(id, "lang:"@));
    assert(id.skip(5) =~= l);
    assert(strip_all(id, "lang:"@) == strip_all(l, "lang:"@));
    let ws = intent_writes(MenuIntent::SelectLanguage(l));
    assert(ws.drop_last() =~= Seq::<(Seq<char>, Seq<char>, Seq<char>)>::empty());
    assert(with_writes(m, ws.drop_last()) == m);
    assert(("language"@, "source"@) != ("language"@, "target"@)) by {
        assert("source"@[0] != "target"@[0]);
    }
}

fn write(section: &'static str, key: &'static str, value: String) -> (w: SettingWrite)
    ensures
        write_view(w) == (section@, key@, value@),
{
    SettingWrite { section, key, value }
}

/// The settings that `cmd` stores in the configuration file.
pub fn settings_to_save(cmd: &MenuCommand) -> (r: Vec<SettingWrite>)
    ensures
        r@.map_values(|w: SettingWrite| write_view(w)) == intent_writes(cmd@),
{
    let mut r: Vec<SettingWrite> = Vec::new();
    match cmd {
        MenuCommand::SelectMicrophone(d) => {
            let v = match d {
                Some(n) => n.clone(),
                None => String::new(),
            };
            r.push(write("audio", "device", v));
        },
        MenuCommand::SelectModel(m) => r.push(write("models", "active", m.clone())),
        MenuCommand::SelectLanguage(l) => r.push(write("language", "target", l.clone())),
        MenuCommand::SelectSpeechBackend(b) => r.push(write("speech", "backend", b.clone())),
        MenuCommand::SelectSayVoice(v) => {
            r.push(write("speech", "backend", String::from_str("say")));
            r.push(write("speech", "voice", v.clone()));
        },
        MenuCommand::SelectSupertonicVoice(t, _) => {
            r.push(write("speech", "backend", String::from_str("supertonic")));
            r.push(write("speech", "supertonic_sid", t.clone()));
        },
        MenuCommand::SelectKokoroVoice(t, _) => {
            r.push(write("speech", "backend", String::from_str("kokoro")));
            r.push(write("speech", "kokoro_sid", t.clone()));
        },
        _ => {},
    }
    assert(r@.map_values(|w: SettingWrite| write_view(w)) =~= intent_writes(cmd@));
    r
}

/// The speech settings after `cmd` was saved: the backend (and the voice or
/// speaker) it selects; other commands change nothing. A Supertonic speaker
/// whose id does not parse changes nothing.
pub fn apply_to_speech(cmd: &MenuCommand, speech: &mut SpeechConfig)
    ensures
        match cmd@ {
            MenuIntent::SelectSpeechBackend(b) => final(speech).backend@ == b && final(speech).voice == old(speech).voice
                && final(speech).kokoro == old(speech).kokoro && final(speech).supertonic == old(speech).supertonic
                && final(speech).rate == old(speech).rate,
            MenuIntent::SelectSayVoice(v) => final(speech).backend@ == "say"@
                && (if v.len() == 0 { final(speech).voice is None } else { final(speech).voice matches Some(x) && x@ == v })
                && final(speech).kokoro == old(speech).kokoro && final(speech).supertonic == old(speech).supertonic
                && final(speech).rate == old(speech).rate,
            MenuIntent::SelectSupertonicVoice(_, Some(n)) => final(speech).backend@ == "supertonic"@
                && final(speech).supertonic.sid == n && final(speech).supertonic.model_dir == old(speech).supertonic.model_dir
                && final(speech).supertonic.speed == old(speech).supertonic.speed && final(speech).supertonic.lang == old(speech).supertonic.lang
                && final(speech).supertonic.steps == old(speech).supertonic.steps && final(speech).supertonic.threads == old(speech).supertonic.threads
                && final(speech).voice == old(speech).voice && final(speech).kokoro == old(speech).kokoro
                && final(speech).rate == old(speech).rate,
            MenuIntent::SelectKokoroVoice(_, n) => final(speech).backend@ == "kokoro"@
                && final(speech).kokoro.sid == n && final(speech).kokoro.model_dir == old(speech).kokoro.model_dir
                && final(speech).kokoro.speed == old(speech).kokoro.speed && final(speech).kokoro.lang == old(speech).kokoro.lang
                && final(speech).kokoro.threads == old(speech).kokoro.threads
                && final(speech).voice == old(speech).voice && final(speech).supertonic == old(speech).supertonic
                && final(speech).rate == old(speech).rate,
            _ => *final(speech) == *old(speech),
        },
{
    match cmd {
        MenuCommand::SelectSpeechBackend(b) => {
            speech.backend = b.clone();
        },
        MenuCommand::SelectSayVoice(v) => {
            speech.backend = String::from_str("say");
            speech.voice = if v.as_str().is_empty() { None } else { Some(v.clone()) };
        },
        MenuCommand::SelectSupertonicVoice(_, Some(n)) => {
            speech.backend = String::from_str("supertonic");
            speech.supertonic.sid = *n;
        },
        MenuCommand::SelectKokoroVoice(_, n) => {
            speech.backend = String::from_str("kokoro");
            speech.kokoro.sid = *n;
        },
        _ => {},
    }
}

/// The menu items to mark as chosen after `cmd` was saved: `(group, item id)` pairs.
pub open spec fn intent_selections(c: MenuIntent, id: Seq<char>) -> Seq<(Seq<char>, Seq<char>)> {
    match c {
        MenuIntent::SelectSpeechBackend(_) => seq![("speech_backend"@, id)],
        MenuIntent::SelectSayVoice(_) => seq![("speech_backend"@, "speech_backend:say"@), ("speech_voice"@, id)],
        MenuIntent::SelectSupertonicVoice(_, Some(_)) => seq![("speech_backend"@, "speech_backend:supertonic"@), ("supertonic_sid"@, id)],
        MenuIntent::SelectKokoroVoice(_, _) => seq![("speech_backend"@, "speech_backend:kokoro"@), ("kokoro_sid"@, id)],
        _ => Seq::empty(),
    }
}

/// The `(group, item id)` pairs to mark as chosen once `cmd`, made from item `id`, was saved.
pub fn menu_selections(cmd: &MenuCommand, id: &str) -> (r: Vec<(&'static str, String)>)
    ensures
        r@.map_values(|p: (&'static str, String)| (p.0@, p.1@)) == intent_selections(cmd@, id@),
{
    let mut r: Vec<(&'static str, String)> = Vec::new();
    match cmd {
        MenuCommand::SelectSpeechBackend(_) => {
            r.push(("speech_backend", String::from_str(id)));
        },
        MenuCommand::SelectSayVoice(_) => {
            r.push(("speech_backend", String::from_str("speech_backend:say")));
            r.push(("speech_voice", String::from_str(id)));
        },
        MenuCommand::SelectSupertonicVoice(_, Some(_)) => {
            r.push(("speech_backend", String::from_str("speech_backend:supertonic")));
            r.push(("supertonic_sid", String::from_str(id)));
        },
        MenuCommand::SelectKokoroVoice(_, _) => {
            r.push(("speech_backend", String::from_str("speech_backend:kokoro")));
            r.push(("kokoro_sid", String::from_str(id)));
        },
        _ => {},
    }
    assert(r@.map_values(|p: (&'static str, String)| (p.0@, p.1@)) =~= intent_selections(cmd@, id@));
    r
}

} // verus!
