//! What the menu-bar menu shows: labels, the voice lists, the items of each
//! submenu, and which items change when a choice is made.
use vstd::prelude::*;
use crate::config::{Config, LanguageConfig, ModelConfig};
use crate::ini::ModelChoice;
use crate::text::{
    chars_of, find, find_in, insert_sorted_unique, is_whitespace, is_ws, lemma_ws_suffix_len_at,
    push_signed_decimal, push_str, replace, replace_str, same_text, signed_decimal, split_char,
    split_ranges, string_of, strictly_sorted, texts, trim, trim_end, trim_range,
};

verus! {

// ---------------------------------------------------------------- labels

/// A menu label, with a check mark in front when the item is the current choice.
pub open spec fn selected_text(label: Seq<char>, selected: bool) -> Seq<char> {
    if selected {
        "✓ "@ + label
    } else {
        label
    }
}

/// The label of a menu item.
pub fn selected_label(label: &str, selected: bool) -> (r: String)
    ensures
        r@ == selected_text(label@, selected),
{
    let mut s = String::new();
    if selected {
        push_str(&mut s, "✓ ");
    }
    push_str(&mut s, label);
    s
}

/// The logs item: where the log is written, or that logging is off.
pub open spec fn log_text(enabled: bool, path: Seq<char>) -> Seq<char> {
    if enabled {
        "Logs: "@ + path
    } else {
        "Logs: Disabled"@
    }
}

/// The label of the logs item.
pub fn log_label(cfg: &Config) -> (r: String)
    ensures
        r@ == log_text(cfg.logging.enabled, cfg.logging.path@),
{
    if cfg.logging.enabled {
        let mut s = String::new();
        push_str(&mut s, "Logs: ");
        push_str(&mut s, cfg.logging.path.as_str());
        s
    } else {
        "Logs: Disabled".to_string()
    }
}

// ---------------------------------------------------------------- macOS voices

/// The bytes UTF-8 takes for a character.
pub open spec fn utf8_len(c: char) -> nat {
    if (c as int) < 0x80 {
        1
    } else if (c as int) < 0x800 {
        2
    } else if (c as int) < 0x10000 {
        3
    } else {
        4
    }
}

/// The UTF-8 length of a text, in bytes.
pub open spec fn byte_len(s: Seq<char>) -> nat
    decreases s.len(),
{
    if s.len() == 0 {
        0
    } else {
        byte_len(s.drop_last()) + utf8_len(s.last())
    }
}

/// Byte `b` of the text's UTF-8 form is `_`. A byte inside a multi-byte
/// character never is.
pub open spec fn underscore_at_byte(s: Seq<char>, b: int) -> bool
    decreases s.len(),
{
    if s.len() == 0 || b < 0 {
        false
    } else if b == 0 {
        s[0] == '_'
    } else if b < utf8_len(s[0]) {
        false
    } else {
        underscore_at_byte(s.drop_first(), b - utf8_len(s[0]))
    }
}

/// The text before the first `#`.
pub open spec fn before_hash(s: Seq<char>) -> Seq<char> {
    match find(s, seq!['#']) {
        Some(i) => s.take(i),
        None => s,
    }
}

/// The last whitespace position at or before `i`.
pub open spec fn last_ws_to(s: Seq<char>, i: int) -> Option<int>
    decreases i + 1,
{
    if i < 0 {
        None
    } else if is_ws(s[i]) {
        Some(i)
    } else {
        last_ws_to(s, i - 1)
    }
}

/// The voice named on a line of `say -v ?`: the part before `#`, trimmed at
/// the end, split at its last whitespace into a name and a locale; the
/// locale must be five bytes with `_` as the third. The name is trimmed.
pub open spec fn voice_name_of(line: Seq<char>) -> Option<Seq<char>> {
    let left = trim_end(before_hash(line));
    match last_ws_to(left, left.len() - 1) {
        None => None,
        Some(j) => {
            let locale = left.skip(j + 1);
            if byte_len(locale) == 5 && underscore_at_byte(locale, 2) {
                Some(trim(left.take(j)))
            } else {
                None
            }
        },
    }
}

fn utf8_width(c: char) -> (r: usize)
    ensures
        r == utf8_len(c),
{
    let n = c as u32;
    if n < 0x80 {
        1
    } else if n < 0x800 {
        2
    } else if n < 0x10000 {
        3
    } else {
        4
    }
}

/// Whether `v[lo..hi]` is five UTF-8 bytes long with `_` as the third byte.
fn locale_shaped(v: &Vec<char>, lo: usize, hi: usize) -> (r: bool)
    requires
        lo <= hi <= v@.len(),
    ensures
        r == (byte_len(v@.subrange(lo as int, hi as int)) == 5 && underscore_at_byte(
            v@.subrange(lo as int, hi as int),
            2,
        )),
{
    let mut bytes: usize = 0;
    let mut under = false;
    let mut i = lo;
    while i < hi
        invariant
            lo <= i <= hi <= v@.len(),
            bytes == (if byte_len(v@.subrange(lo as int, i as int)) > 6 { 6 } else { byte_len(v@.subrange(lo as int, i as int)) }),
            under == underscore_at_byte(v@.subrange(lo as int, i as int), 2),
        decreases hi - i,
    {
        let c = v[i];
        let ghost pre = v@.subrange(lo as int, i as int);
        let ghost next = v@.subrange(lo as int, i + 1);
        assert(next =~= pre.push(c));
        assert(next.drop_last() =~= pre);
        proof {
            lemma_underscore_extend(pre, c, 2);
        }
        if bytes == 2 && c == '_' {
            under = true;
        }
        let w = utf8_width(c);
        bytes = if bytes + w > 6 { 6 } else { bytes + w };
        i = i + 1;
    }
    bytes == 5 && under
}

proof fn lemma_underscore_extend(pre: Seq<char>, c: char, b: int)
    requires
        0 <= b,
    ensures
        underscore_at_byte(pre.push(c), b) == (underscore_at_byte(pre, b) || (byte_len(pre) == b && c == '_')),
    decreases pre.len(),
{
    let q = pre.push(c);
    assert(utf8_len(c) >= 1);
    if pre.len() == 0 {
        assert(q.drop_first() =~= Seq::<char>::empty());
        assert(q[0] == c);
        assert(byte_len(pre) == 0);
        if b > 0 && b >= utf8_len(c) {
            assert(underscore_at_byte(q, b) == underscore_at_byte(q.drop_first(), b - utf8_len(c)));
        }
    } else {
        assert(q[0] == pre[0]);
        assert(q.drop_first() =~= pre.drop_first().push(c));
        lemma_byte_len_first(pre);
        assert(utf8_len(pre[0]) >= 1);
        if b >= utf8_len(pre[0]) && b != 0 {
            lemma_underscore_extend(pre.drop_first(), c, b - utf8_len(pre[0]));
        }
    }
}

proof fn lemma_byte_len_first(s: Seq<char>)
    requires
        s.len() > 0,
    ensures
        byte_len(s) == utf8_len(s[0]) + byte_len(s.drop_first()),
    decreases s.len(),
{
    if s.len() > 1 {
        lemma_byte_len_first(s.drop_last());
        assert(s.drop_last().drop_first() =~= s.drop_first().drop_last());
        assert(s.drop_last()[0] == s[0]);
    } else {
        assert(s.drop_first() =~= Seq::<char>::empty());
        assert(s.drop_last() =~= Seq::<char>::empty());
    }
}

/// Where the text before the first `#` of `v`, trimmed at the end, stops.
fn voice_line_end(v: &Vec<char>) -> (e: usize)
    ensures
        e <= v@.len(),
        v@.subrange(0, e as int) == trim_end(before_hash(v@)),
{
    let hash = vec!['#'];
    assert(hash@ =~= seq!['#']);
    assert(v@.subrange(0, v@.len() as int) =~= v@);
    let end = match find_in(v, 0, v.len(), &hash) {
        Some(i) => i,
        None => v.len(),
    };
    let ghost cut = before_hash(v@);
    assert(cut =~= v@.subrange(0, end as int));
    let mut e = end;
    while e > 0 && is_whitespace(v[e - 1])
        invariant
            e <= end <= v@.len(),
            forall|j: int| e <= j < end ==> is_ws(#[trigger] v@[j]),
        decreases e,
    {
        e = e - 1;
    }
    proof {
        assert forall|j: int| cut.len() - (end - e) <= j < cut.len() implies is_ws(#[trigger] cut[j]) by {
            assert(cut[j] == v@[j]);
        }
        if e > 0 {
            assert(cut[cut.len() - (end - e) - 1] == v@[e - 1]);
        }
        lemma_ws_suffix_len_at(cut, end - e);
    }
    assert(trim_end(cut) =~= v@.subrange(0, e as int));
    e
}

/// The last whitespace position in `v[0..e]`.
fn last_ws_before(v: &Vec<char>, e: usize) -> (r: Option<usize>)
    requires
        e <= v@.len(),
    ensures
        r matches Some(j) ==> j < e && last_ws_to(v@.subrange(0, e as int), e - 1) == Some(j as int),
        r is None ==> last_ws_to(v@.subrange(0, e as int), e - 1) is None,
{
    let ghost left = v@.subrange(0, e as int);
    let mut k = e;
    while k > 0 && !is_whitespace(v[k - 1])
        invariant
            k <= e <= v@.len(),
            left == v@.subrange(0, e as int),
            last_ws_to(left, e - 1) == last_ws_to(left, k - 1),
        decreases k,
    {
        assert(left[k - 1] == v@[k - 1]);
        k = k - 1;
    }
    if k == 0 {
        assert(last_ws_to(left, -1) is None);
        return None;
    }
    assert(left[k - 1] == v@[k - 1]);
    Some(k - 1)
}

/// Reads the voice name from a line of `say -v ?`.
pub fn say_voice_name(line: &str) -> (r: Option<String>)
    ensures
        r matches Some(n) ==> voice_name_of(line@) == Some(n@),
        r is None ==> voice_name_of(line@) is None,
{
    let v = chars_of(line);
    let e = voice_line_end(&v);
    let ghost left = trim_end(before_hash(line@));
    match last_ws_before(&v, e) {
        None => None,
        Some(j) => {
            assert(left.skip(j + 1) =~= v@.subrange(j + 1, e as int));
            if locale_shaped(&v, j + 1, e) {
                let (a, b) = trim_range(&v, 0, j);
                assert(left.take(j as int) =~= v@.subrange(0, j as int));
                Some(string_of(&v, a, b))
            } else {
                None
            }
        },
    }
}

/// The neural English (US) voices offered besides the Premium ones.
pub open spec fn neural_voice(voice: Seq<char>) -> bool {
    ||| voice == "Eddy (English (US))"@
    ||| voice == "Flo (English (US))"@
    ||| voice == "Reed (English (US))"@
    ||| voice == "Rocko (English (US))"@
    ||| voice == "Sandy (English (US))"@
    ||| voice == "Shelley (English (US))"@
}

/// Voices worth offering: Premium voices and the neural English (US) ones.
pub open spec fn preferred_voice(voice: Seq<char>) -> bool {
    find(voice, "(Premium)"@) is Some || neural_voice(voice)
}

/// Whether a voice is offered in the menu.
pub fn is_preferred_say_voice(voice: &str) -> (r: bool)
    ensures
        r == preferred_voice(voice@),
{
    let v = chars_of(voice);
    let p = chars_of("(Premium)");
    assert(v@.subrange(0, v@.len() as int) =~= v@);
    find_in(&v, 0, v.len(), &p).is_some() || same_text(voice, "Eddy (English (US))")
        || same_text(voice, "Flo (English (US))") || same_text(voice, "Reed (English (US))")
        || same_text(voice, "Rocko (English (US))") || same_text(voice, "Sandy (English (US))")
        || same_text(voice, "Shelley (English (US))")
}

/// A voice as the menu shows it: ` (Premium)` becomes ` - Premium` and
/// ` (English (US))` becomes ` - English US`.
pub open spec fn voice_label_text(voice: Seq<char>) -> Seq<char> {
    replace(replace(voice, " (Premium)"@, " - Premium"@), " (English (US))"@, " - English US"@)
}

/// The menu label of a voice.
pub fn say_voice_label(voice: &str) -> (r: String)
    ensures
        r@ == voice_label_text(voice@),
{
    proof {
        reveal_strlit(" (Premium)");
        reveal_strlit(" (English (US))");
    }
    let a = replace_str(voice, " (Premium)", " - Premium");
    replace_str(a.as_str(), " (English (US))", " - English US")
}

/// The offered voices named in the lines of a `say -v ?` listing.
pub open spec fn listed_voices(lines: Seq<Seq<char>>) -> Set<Seq<char>>
    decreases lines.len(),
{
    if lines.len() == 0 {
        Set::empty()
    } else {
        let rest = listed_voices(lines.drop_last());
        match voice_name_of(lines.last()) {
            Some(n) => if preferred_voice(n) { rest.insert(n) } else { rest },
            None => rest,
        }
    }
}

/// The current voice, when it is set and not already listed.
pub open spec fn extra_voice(current: Option<Seq<char>>, listed: Set<Seq<char>>) -> Seq<Seq<char>> {
    match current {
        Some(c) => if c.len() > 0 && !listed.contains(c) { seq![c] } else { Seq::empty() },
        None => Seq::empty(),
    }
}

/// The macOS voices for the menu from a `say -v ?` listing:
/// the offered voices in sorted order without repeats, then the current
/// voice when it is set and not among them.
pub fn say_voices(listing: &str, current: Option<&str>) -> (r: Vec<String>)
    ensures
        ({
            let listed = listed_voices(split_char(listing@, '\n'));
            let extra = extra_voice(
                match current {
                    Some(c) => Some(c@),
                    None => None,
                },
                listed,
            );
            &&& r@.len() >= extra.len()
            &&& strictly_sorted(texts(r@).take(r@.len() - extra.len()))
            &&& texts(r@).take(r@.len() - extra.len()).to_set() == listed
            &&& texts(r@).skip(r@.len() - extra.len()) == extra
        }),
{
    let v = chars_of(listing);
    assert(v@.subrange(0, v@.len() as int) =~= v@);
    let lines = split_ranges(&v, 0, v.len(), '\n');
    let ghost pieces = split_char(listing@, '\n');
    let mut voices: Vec<String> = Vec::new();
    let mut i: usize = 0;
    assert(texts(voices@).to_set() =~= Set::<Seq<char>>::empty());
    assert(pieces.take(0) =~= Seq::<Seq<char>>::empty());
    while i < lines.len()
        invariant
            i <= lines@.len(),
            lines@.len() == pieces.len(),
            v@ == listing@,
            pieces == split_char(listing@, '\n'),
            forall|k: int|
                0 <= k < lines@.len() ==> (#[trigger] lines@[k]).0 <= lines@[k].1 <= v@.len()
                    && v@.subrange(lines@[k].0 as int, lines@[k].1 as int) == pieces[k],
            strictly_sorted(texts(voices@)),
            texts(voices@).to_set() == listed_voices(pieces.take(i as int)),
        decreases lines@.len() - i,
    {
        let (lo, hi) = lines[i];
        let line = string_of(&v, lo, hi);
        assert(pieces.take(i + 1).drop_last() =~= pieces.take(i as int));
        assert(pieces.take(i + 1).last() == pieces[i as int]);
        match say_voice_name(line.as_str()) {
            Some(name) => {
                if is_preferred_say_voice(name.as_str()) {
                    insert_sorted_unique(&mut voices, name);
                }
            },
            None => {},
        }
        i = i + 1;
    }
    assert(pieces.take(lines@.len() as int) =~= pieces);
    let ghost listed = listed_voices(pieces);
    let ghost base = voices@;
    assert(texts(base).take(base.len() as int) =~= texts(base));
    match current {
        Some(c) => {
            if !c.is_empty() {
                let mut known = false;
                let mut k: usize = 0;
                while k < voices.len()
                    invariant
                        k <= voices@.len(),
                        known == exists|j: int| 0 <= j < k && voices@[j]@ == c@,
                    decreases voices@.len() - k,
                {
                    if same_text(voices[k].as_str(), c) {
                        known = true;
                    }
                    k = k + 1;
                }
                assert(known == texts(voices@).to_set().contains(c@)) by {
                    if known {
                        let j = choose|j: int| 0 <= j < voices@.len() && voices@[j]@ == c@;
                        assert(texts(voices@)[j] == c@);
                    }
                    if texts(voices@).to_set().contains(c@) {
                        let j = choose|j: int| 0 <= j < texts(voices@).len() && texts(voices@)[j] == c@;
                        assert(voices@[j]@ == c@);
                    }
                }
                if !known {
                    voices.push(c.to_string());
                    assert(texts(voices@).take(voices@.len() - 1) =~= texts(base));
                    assert(texts(voices@).skip(voices@.len() - 1) =~= seq![c@]);
                    return voices;
                }
            }
        },
        None => {},
    }
    assert(texts(voices@).skip(voices@.len() as int) =~= Seq::<Seq<char>>::empty());
    voices
}

// ---------------------------------------------------------------- Kokoro speakers

/// A Kokoro speaker: its id, name and description.
pub struct KokoroVoice {
    pub sid: i32,
    pub name: &'static str,
    pub description: &'static str,
}

/// A speaker as `(id, name, description)`.
pub open spec fn voice_view(v: KokoroVoice) -> (int, Seq<char>, Seq<char>) {
    (v.sid as int, v.name@, v.description@)
}

impl KokoroVoice {
    pub fn new(sid: i32, name: &'static str, description: &'static str) -> (r: KokoroVoice)
        ensures
            r.sid == sid,
            r.name@ == name@,
            r.description@ == description@,
    {
        KokoroVoice { sid, name, description }
    }

    /// `NAME - DESCRIPTION (ID)`.
    pub fn label(&self) -> (r: String)
        ensures
            r@ == kokoro_label(voice_view(*self)),
    {
        let mut s = String::new();
        push_str(&mut s, self.name);
        push_str(&mut s, " - ");
        push_str(&mut s, self.description);
        push_str(&mut s, " (");
        push_signed_decimal(&mut s, self.sid as i64);
        push_str(&mut s, ")");
        s
    }
}

/// The menu label of a speaker.
pub open spec fn kokoro_label(v: (int, Seq<char>, Seq<char>)) -> Seq<char> {
    v.1 + " - "@ + v.2 + " ("@ + signed_decimal(v.0) + ")"@
}

/// The speakers of the Kokoro model, by id.
pub open spec fn kokoro_table() -> Seq<(int, Seq<char>, Seq<char>)> {
    seq![
        (0, "Alloy"@, "American Female"@),
        (1, "Aoede"@, "American Female"@),
        (2, "Bella"@, "American Female"@),
        (3, "Heart"@, "American Female"@),
        (4, "Jessica"@, "American Female"@),
        (5, "Kore"@, "American Female"@),
        (6, "Nicole"@, "American Female"@),
        (7, "Nova"@, "American Female"@),
        (8, "River"@, "American Female"@),
        (9, "Sarah"@, "American Female"@),
        (10, "Sky"@, "American Female"@),
        (11, "Adam"@, "American Male"@),
        (12, "Echo"@, "American Male"@),
        (13, "Eric"@, "American Male"@),
        (14, "Fenrir"@, "American Male"@),
        (15, "Liam"@, "American Male"@),
        (16, "Michael"@, "American Male"@),
        (17, "Onyx"@, "American Male"@),
        (18, "Puck"@, "American Male"@),
        (19, "Santa"@, "American Male"@),
        (20, "Alice"@, "British Female"@),
        (21, "Emma"@, "British Female"@),
        (22, "Isabella"@, "British Female"@),
        (23, "Lily"@, "British Female"@),
        (24, "Daniel"@, "British Male"@),
        (25, "Fable"@, "British Male"@),
        (26, "George"@, "British Male"@),
        (27, "Lewis"@, "British Male"@),
        (28, "Dora"@, "Spanish Female"@),
        (29, "Alex"@, "Spanish Male"@),
        (30, "Siwis"@, "French Female"@),
        (31, "Alpha"@, "Hindi Female"@),
        (32, "Beta"@, "Hindi Female"@),
        (33, "Omega"@, "Hindi Male"@),
        (34, "Psi"@, "Hindi Male"@),
        (35, "Sara"@, "Italian Female"@),
        (36, "Nicola"@, "Italian Male"@),
        (37, "Alpha"@, "Japanese Female"@),
        (38, "Gongitsune"@, "Japanese Female"@),
        (39, "Nezumi"@, "Japanese Female"@),
        (40, "Tebukuro"@, "Japanese Female"@),
        (41, "Kumo"@, "Japanese Male"@),
        (42, "Dora"@, "Brazilian Portuguese Female"@),
        (43, "Alex"@, "Brazilian Portuguese Male"@),
        (44, "Santa"@, "Brazilian Portuguese Male"@),
        (45, "Xiaobei"@, "Chinese Female"@),
        (46, "Xiaoni"@, "Chinese Female"@),
        (47, "Xiaoxiao"@, "Chinese Female"@),
        (48, "Xiaoyi"@, "Chinese Female"@),
        (49, "Yunjian"@, "Chinese Male"@),
        (50, "Yunxi"@, "Chinese Male"@),
        (51, "Yunxia"@, "Chinese Male"@),
        (52, "Yunyang"@, "Chinese Male"@),
    ]
}

/// The Kokoro speakers offered in the menu, in id order.
pub fn kokoro_voices() -> (r: Vec<KokoroVoice>)
    ensures
        r@.map_values(|v: KokoroVoice| voice_view(v)) == kokoro_table(),
{
    let r = vec![
        KokoroVoice::new(0, "Alloy", "American Female"),
        KokoroVoice::new(1, "Aoede", "American Female"),
        KokoroVoice::new(2, "Bella", "American Female"),
        KokoroVoice::new(3, "Heart", "American Female"),
        KokoroVoice::new(4, "Jessica", "American Female"),
        KokoroVoice::new(5, "Kore", "American Female"),
        KokoroVoice::new(6, "Nicole", "American Female"),
        KokoroVoice::new(7, "Nova", "American Female"),
        KokoroVoice::new(8, "River", "American Female"),
        KokoroVoice::new(9, "Sarah", "American Female"),
        KokoroVoice::new(10, "Sky", "American Female"),
        KokoroVoice::new(11, "Adam", "American Male"),
        KokoroVoice::new(12, "Echo", "American Male"),
        KokoroVoice::new(13, "Eric", "American Male"),
        KokoroVoice::new(14, "Fenrir", "American Male"),
        KokoroVoice::new(15, "Liam", "American Male"),
        KokoroVoice::new(16, "Michael", "American Male"),
        KokoroVoice::new(17, "Onyx", "American Male"),
        KokoroVoice::new(18, "Puck", "American Male"),
        KokoroVoice::new(19, "Santa", "American Male"),
        KokoroVoice::new(20, "Alice", "British Female"),
        KokoroVoice::new(21, "Emma", "British Female"),
        KokoroVoice::new(22, "Isabella", "British Female"),
        KokoroVoice::new(23, "Lily", "British Female"),
        KokoroVoice::new(24, "Daniel", "British Male"),
        KokoroVoice::new(25, "Fable", "British Male"),
        KokoroVoice::new(26, "George", "British Male"),
        KokoroVoice::new(27, "Lewis", "British Male"),
        KokoroVoice::new(28, "Dora", "Spanish Female"),
        KokoroVoice::new(29, "Alex", "Spanish Male"),
        KokoroVoice::new(30, "Siwis", "French Female"),
        KokoroVoice::new(31, "Alpha", "Hindi Female"),
        KokoroVoice::new(32, "Beta", "Hindi Female"),
        KokoroVoice::new(33, "Omega", "Hindi Male"),
        KokoroVoice::new(34, "Psi", "Hindi Male"),
        KokoroVoice::new(35, "Sara", "Italian Female"),
        KokoroVoice::new(36, "Nicola", "Italian Male"),
        KokoroVoice::new(37, "Alpha", "Japanese Female"),
        KokoroVoice::new(38, "Gongitsune", "Japanese Female"),
        KokoroVoice::new(39, "Nezumi", "Japanese Female"),
        KokoroVoice::new(40, "Tebukuro", "Japanese Female"),
        KokoroVoice::new(41, "Kumo", "Japanese Male"),
        KokoroVoice::new(42, "Dora", "Brazilian Portuguese Female"),
        KokoroVoice::new(43, "Alex", "Brazilian Portuguese Male"),
        KokoroVoice::new(44, "Santa", "Brazilian Portuguese Male"),
        KokoroVoice::new(45, "Xiaobei", "Chinese Female"),
        KokoroVoice::new(46, "Xiaoni", "Chinese Female"),
        KokoroVoice::new(47, "Xiaoxiao", "Chinese Female"),
        KokoroVoice::new(48, "Xiaoyi", "Chinese Female"),
        KokoroVoice::new(49, "Yunjian", "Chinese Male"),
        KokoroVoice::new(50, "Yunxi", "Chinese Male"),
        KokoroVoice::new(51, "Yunxia", "Chinese Male"),
        KokoroVoice::new(52, "Yunyang", "Chinese Male"),
    ];
    assert(r@.map_values(|v: KokoroVoice| voice_view(v)) =~= kokoro_table());
    r
}

// ---------------------------------------------------------------- menu items

/// A menu item: its id, the label shown (with a check mark when chosen), the
/// plain label, whether it can be clicked, and the group of choices it
/// belongs to when choosing it unchecks the others.
pub struct MenuItemSpec {
    pub id: String,
    pub label: String,
    pub text: String,
    pub enabled: bool,
    pub group: Option<String>,
}

/// A menu item as text.
pub struct ItemShape {
    pub id: Seq<char>,
    pub label: Seq<char>,
    pub text: Seq<char>,
    pub enabled: bool,
    pub group: Option<Seq<char>>,
}

pub open spec fn opt_text(o: Option<String>) -> Option<Seq<char>> {
    match o {
        Some(s) => Some(s@),
        None => None,
    }
}

pub open spec fn opt_str(o: Option<&str>) -> Option<Seq<char>> {
    match o {
        Some(s) => Some(s@),
        None => None,
    }
}

pub open spec fn shape(i: MenuItemSpec) -> ItemShape {
    ItemShape { id: i.id@, label: i.label@, text: i.text@, enabled: i.enabled, group: opt_text(i.group) }
}

pub open spec fn shapes(v: Seq<MenuItemSpec>) -> Seq<ItemShape> {
    v.map_values(|i: MenuItemSpec| shape(i))
}

/// A clickable choice, checked when it is the current one.
pub open spec fn choice_shape(id: Seq<char>, text: Seq<char>, checked: bool, group: Option<Seq<char>>) -> ItemShape {
    ItemShape { id, label: selected_text(text, checked), text, enabled: true, group }
}

/// A line of text that cannot be clicked.
pub open spec fn note_shape(id: Seq<char>, text: Seq<char>) -> ItemShape {
    ItemShape { id, label: text, text, enabled: false, group: None }
}

fn choice_item(id: String, text: &str, checked: bool, group: Option<&str>) -> (r: MenuItemSpec)
    ensures
        shape(r) == choice_shape(id@, text@, checked, opt_str(group)),
{
    let group = match group {
        Some(g) => Some(g.to_string()),
        None => None,
    };
    MenuItemSpec { id, label: selected_label(text, checked), text: text.to_string(), enabled: true, group }
}

fn note_item(id: &str, text: &str) -> (r: MenuItemSpec)
    ensures
        shape(r) == note_shape(id@, text@),
{
    MenuItemSpec { id: id.to_string(), label: text.to_string(), text: text.to_string(), enabled: false, group: None }
}

fn prefixed(prefix: &str, rest: &str) -> (r: String)
    ensures
        r@ == prefix@ + rest@,
{
    let mut s = String::new();
    push_str(&mut s, prefix);
    push_str(&mut s, rest);
    s
}

/// A line of a menu: an item or a separator.
pub enum MenuLine {
    Item(MenuItemSpec),
    Separator,
}

pub enum LineShape {
    Item(ItemShape),
    Separator,
}

pub open spec fn line_shape(l: MenuLine) -> LineShape {
    match l {
        MenuLine::Item(i) => LineShape::Item(shape(i)),
        MenuLine::Separator => LineShape::Separator,
    }
}

pub open spec fn line_shapes(v: Seq<MenuLine>) -> Seq<LineShape> {
    v.map_values(|l: MenuLine| line_shape(l))
}

/// The microphone submenu: the system default, then each input device; the
/// configured one is checked.
pub open spec fn microphone_shapes(device: Option<Seq<char>>, devices: Seq<Seq<char>>) -> Seq<ItemShape> {
    seq![choice_shape("mic:"@, "System Default"@, device is None, None)] + devices.map_values(
        |n: Seq<char>| choice_shape("mic:"@ + n, n, device == Some(n), None),
    )
}

/// The items of the microphone submenu.
pub fn microphone_items(device: Option<&str>, devices: &Vec<String>) -> (r: Vec<MenuItemSpec>)
    ensures
        shapes(r@) == microphone_shapes(opt_str(device), texts(devices@)),
{
    let ghost dev = opt_str(device);
    let ghost names = texts(devices@);
    let mut out: Vec<MenuItemSpec> = Vec::new();
    out.push(choice_item("mic:".to_string(), "System Default", device.is_none(), None));
    let mut i: usize = 0;
    while i < devices.len()
        invariant
            i <= devices@.len(),
            dev == opt_str(device),
            names == texts(devices@),
            shapes(out@) == seq![choice_shape("mic:"@, "System Default"@, dev is None, None)]
                + names.take(i as int).map_values(|n: Seq<char>| choice_shape("mic:"@ + n, n, dev == Some(n), None)),
        decreases devices@.len() - i,
    {
        let name = devices[i].as_str();
        let checked = match device {
            Some(d) => same_text(d, name),
            None => false,
        };
        let ghost before = shapes(out@);
        out.push(choice_item(prefixed("mic:", name), name, checked, None));
        assert(names.take(i + 1) =~= names.take(i as int).push(name@));
        assert(shapes(out@) =~= before.push(choice_shape("mic:"@ + name@, name@, dev == Some(name@), None)));
        i = i + 1;
    }
    assert(names.take(devices@.len() as int) =~= names);
    out
}

/// A configured model as `(id, label)`.
pub open spec fn choice_view(c: ModelChoice) -> (Seq<char>, Seq<char>) {
    (c.id@, c.label@)
}

/// The model submenu: a note when no models are configured; else one item
/// per model, the active one checked, then a separator and a restart note.
pub open spec fn model_shapes(choices: Seq<(Seq<char>, Seq<char>)>, active: Seq<char>) -> Seq<LineShape> {
    if choices.len() == 0 {
        seq![LineShape::Item(note_shape("model_none"@, "No configured models"@))]
    } else {
        choices.map_values(
            |c: (Seq<char>, Seq<char>)| LineShape::Item(choice_shape("model:"@ + c.0, c.1, c.0 == active, None)),
        ) + seq![LineShape::Separator, LineShape::Item(note_shape("model_restart_note"@, "Restart to Apply"@))]
    }
}

/// The lines of the model submenu.
pub fn model_lines(model: &ModelConfig) -> (r: Vec<MenuLine>)
    ensures
        line_shapes(r@) == model_shapes(model.choices@.map_values(|c: ModelChoice| choice_view(c)), model.active@),
{
    let ghost cs = model.choices@.map_values(|c: ModelChoice| choice_view(c));
    let mut out: Vec<MenuLine> = Vec::new();
    if model.choices.len() == 0 {
        out.push(MenuLine::Item(note_item("model_none", "No configured models")));
        assert(line_shapes(out@) =~= model_shapes(cs, model.active@));
        return out;
    }
    let mut i: usize = 0;
    while i < model.choices.len()
        invariant
            i <= model.choices@.len(),
            cs == model.choices@.map_values(|c: ModelChoice| choice_view(c)),
            line_shapes(out@) == cs.take(i as int).map_values(
                |c: (Seq<char>, Seq<char>)| LineShape::Item(choice_shape("model:"@ + c.0, c.1, c.0 == model.active@, None)),
            ),
        decreases model.choices@.len() - i,
    {
        let c = &model.choices[i];
        let checked = same_text(c.id.as_str(), model.active.as_str());
        let ghost before = line_shapes(out@);
        out.push(MenuLine::Item(choice_item(prefixed("model:", c.id.as_str()), c.label.as_str(), checked, None)));
        assert(cs.take(i + 1) =~= cs.take(i as int).push(choice_view(*c)));
        assert(line_shapes(out@) =~= before.push(LineShape::Item(choice_shape("model:"@ + c.id@, c.label@, c.id@ == model.active@, None))));
        i = i + 1;
    }
    let ghost items = line_shapes(out@);
    out.push(MenuLine::Separator);
    out.push(MenuLine::Item(note_item("model_restart_note", "Restart to Apply")));
    assert(cs.take(model.choices@.len() as int) =~= cs);
    assert(line_shapes(out@) =~= items + seq![LineShape::Separator, LineShape::Item(note_shape("model_restart_note"@, "Restart to Apply"@))]);
    out
}

/// The output-language submenu: one item per offered language, the target
/// checked, then a separator and a restart note.
pub open spec fn language_shapes(options: Seq<Seq<char>>, target: Seq<char>) -> Seq<LineShape> {
    options.map_values(|l: Seq<char>| LineShape::Item(choice_shape("lang:"@ + l, l, l == target, None)))
        + seq![LineShape::Separator, LineShape::Item(note_shape("language_restart_note"@, "Restart to Apply"@))]
}

/// The lines of the output-language submenu.
pub fn language_lines(language: &LanguageConfig) -> (r: Vec<MenuLine>)
    ensures
        line_shapes(r@) == language_shapes(texts(language.options@), language.target@),
{
    let ghost opts = texts(language.options@);
    let mut out: Vec<MenuLine> = Vec::new();
    let mut i: usize = 0;
    while i < language.options.len()
        invariant
            i <= language.options@.len(),
            opts == texts(language.options@),
            line_shapes(out@) == opts.take(i as int).map_values(
                |l: Seq<char>| LineShape::Item(choice_shape("lang:"@ + l, l, l == language.target@, None)),
            ),
        decreases language.options@.len() - i,
    {
        let l = language.options[i].as_str();
        let checked = same_text(l, language.target.as_str());
        let ghost before = line_shapes(out@);
        out.push(MenuLine::Item(choice_item(prefixed("lang:", l), l, checked, None)));
        assert(opts.take(i + 1) =~= opts.take(i as int).push(l@));
        assert(line_shapes(out@) =~= before.push(LineShape::Item(choice_shape("lang:"@ + l@, l@, l@ == language.target@, None))));
        i = i + 1;
    }
    let ghost items = line_shapes(out@);
    out.push(MenuLine::Separator);
    out.push(MenuLine::Item(note_item("language_restart_note", "Restart to Apply")));
    assert(opts.take(language.options@.len() as int) =~= opts);
    assert(line_shapes(out@) =~= items + seq![LineShape::Separator, LineShape::Item(note_shape("language_restart_note"@, "Restart to Apply"@))]);
    out
}

/// The speech-backend choices, the configured one checked.
pub open spec fn backend_shapes(backend: Seq<char>) -> Seq<ItemShape> {
    seq![
        choice_shape("speech_backend:supertonic"@, "Supertonic 3"@, backend == "supertonic"@, Some("speech_backend"@)),
        choice_shape("speech_backend:kokoro"@, "Kokoro"@, backend == "kokoro"@, Some("speech_backend"@)),
        choice_shape("speech_backend:say"@, "macOS Say"@, backend == "say"@, Some("speech_backend"@)),
    ]
}

/// The items of the speech-backend submenu.
pub fn backend_items(backend: &str) -> (r: Vec<MenuItemSpec>)
    ensures
        shapes(r@) == backend_shapes(backend@),
{
    let r = vec![
        choice_item("speech_backend:supertonic".to_string(), "Supertonic 3", same_text(backend, "supertonic"), Some("speech_backend")),
        choice_item("speech_backend:kokoro".to_string(), "Kokoro", same_text(backend, "kokoro"), Some("speech_backend")),
        choice_item("speech_backend:say".to_string(), "macOS Say", same_text(backend, "say"), Some("speech_backend")),
    ];
    assert(shapes(r@) =~= backend_shapes(backend@));
    r
}

/// The macOS voice choices: the system default, then each voice by its menu
/// label; the configured voice is checked.
pub open spec fn say_voice_shapes(voice: Option<Seq<char>>, voices: Seq<Seq<char>>) -> Seq<ItemShape> {
    seq![choice_shape("speech_voice:"@, "System Default"@, voice is None, Some("speech_voice"@))]
        + voices.map_values(
        |v: Seq<char>| choice_shape("speech_voice:"@ + v, voice_label_text(v), voice == Some(v), Some("speech_voice"@)),
    )
}

/// The items of the macOS voice submenu.
pub fn say_voice_items(voice: Option<&str>, voices: &Vec<String>) -> (r: Vec<MenuItemSpec>)
    ensures
        shapes(r@) == say_voice_shapes(opt_str(voice), texts(voices@)),
{
    let ghost cur = opt_str(voice);
    let ghost names = texts(voices@);
    let mut out: Vec<MenuItemSpec> = Vec::new();
    out.push(choice_item("speech_voice:".to_string(), "System Default", voice.is_none(), Some("speech_voice")));
    let mut i: usize = 0;
    while i < voices.len()
        invariant
            i <= voices@.len(),
            cur == opt_str(voice),
            names == texts(voices@),
            shapes(out@) == seq![choice_shape("speech_voice:"@, "System Default"@, cur is None, Some("speech_voice"@))]
                + names.take(i as int).map_values(
                |v: Seq<char>| choice_shape("speech_voice:"@ + v, voice_label_text(v), cur == Some(v), Some("speech_voice"@)),
            ),
        decreases voices@.len() - i,
    {
        let v = voices[i].as_str();
        let checked = match voice {
            Some(c) => same_text(c, v),
            None => false,
        };
        let label = say_voice_label(v);
        let ghost before = shapes(out@);
        out.push(choice_item(prefixed("speech_voice:", v), label.as_str(), checked, Some("speech_voice")));
        assert(names.take(i + 1) =~= names.take(i as int).push(v@));
        assert(shapes(out@) =~= before.push(choice_shape("speech_voice:"@ + v@, voice_label_text(v@), cur == Some(v@), Some("speech_voice"@))));
        i = i + 1;
    }
    assert(names.take(voices@.len() as int) =~= names);
    out
}

/// The Supertonic voice choices: the default speaker.
pub open spec fn supertonic_shapes(sid: int) -> Seq<ItemShape> {
    seq![choice_shape("supertonic_sid:0"@, "Default"@, sid == 0, Some("supertonic_sid"@))]
}

/// The items of the Supertonic voice submenu.
pub fn supertonic_items(sid: i32) -> (r: Vec<MenuItemSpec>)
    ensures
        shapes(r@) == supertonic_shapes(sid as int),
{
    let r = vec![choice_item("supertonic_sid:0".to_string(), "Default", sid == 0, Some("supertonic_sid"))];
    assert(shapes(r@) =~= supertonic_shapes(sid as int));
    r
}

/// The Kokoro speaker choices, the configured speaker checked.
pub open spec fn kokoro_shapes(sid: int) -> Seq<ItemShape> {
    kokoro_table().map_values(
        |v: (int, Seq<char>, Seq<char>)| choice_shape("kokoro_sid:"@ + signed_decimal(v.0), kokoro_label(v), v.0 == sid, Some("kokoro_sid"@)),
    )
}

/// The items of the Kokoro speaker submenu.
pub fn kokoro_items(sid: i32) -> (r: Vec<MenuItemSpec>)
    ensures
        shapes(r@) == kokoro_shapes(sid as int),
{
    let voices = kokoro_voices();
    let ghost table = kokoro_table();
    let mut out: Vec<MenuItemSpec> = Vec::new();
    let mut i: usize = 0;
    assert(voices@.len() == table.len()) by {
        assert(voices@.map_values(|v: KokoroVoice| voice_view(v)).len() == voices@.len());
    }
    while i < voices.len()
        invariant
            i <= voices@.len(),
            table == kokoro_table(),
            voices@.map_values(|v: KokoroVoice| voice_view(v)) == table,
            voices@.len() == table.len(),
            shapes(out@) == table.take(i as int).map_values(
                |v: (int, Seq<char>, Seq<char>)| choice_shape("kokoro_sid:"@ + signed_decimal(v.0), kokoro_label(v), v.0 == sid, Some("kokoro_sid"@)),
            ),
        decreases voices@.len() - i,
    {
        let v = &voices[i];
        assert(voice_view(*v) == table[i as int]);
        let mut id = "kokoro_sid:".to_string();
        push_signed_decimal(&mut id, v.sid as i64);
        let label = v.label();
        let ghost before = shapes(out@);
        out.push(choice_item(id, label.as_str(), v.sid == sid, Some("kokoro_sid")));
        assert(table.take(i + 1) =~= table.take(i as int).push(table[i as int]));
        assert(shapes(out@) =~= before.push(choice_shape("kokoro_sid:"@ + signed_decimal(v.sid as int), kokoro_label(voice_view(*v)), v.sid == sid, Some("kokoro_sid"@))));
        i = i + 1;
    }
    assert(table.take(voices@.len() as int) =~= table);
    out
}

/// The version line of the menu.
pub fn version_label(version: &str) -> (r: String)
    ensures
        r@ == "Yappr "@ + version@,
{
    prefixed("Yappr ", version)
}

// ---------------------------------------------------------------- choice groups

/// A remembered choice item: its group, id and plain label.
pub struct SelectableItem {
    pub group: String,
    pub id: String,
    pub label: String,
}

pub open spec fn selectable_view(s: SelectableItem) -> (Seq<char>, Seq<char>, Seq<char>) {
    (s.group@, s.id@, s.label@)
}

/// The choice items that are re-labelled when a choice changes, in menu order.
pub struct SelectableItems {
    pub items: Vec<SelectableItem>,
}

impl SelectableItems {
    pub open spec fn view_items(&self) -> Seq<(Seq<char>, Seq<char>, Seq<char>)> {
        self.items@.map_values(|s: SelectableItem| selectable_view(s))
    }

    /// None remembered.
    pub fn new() -> (r: SelectableItems)
        ensures
            r.view_items().len() == 0,
    {
        SelectableItems { items: Vec::new() }
    }

    /// Remembers a choice item.
    pub fn remember(&mut self, group: &str, id: &str, label: &str)
        ensures
            final(self).view_items() == old(self).view_items().push((group@, id@, label@)),
    {
        self.items.push(SelectableItem { group: group.to_string(), id: id.to_string(), label: label.to_string() });
        assert(self.view_items() =~= old(self).view_items().push((group@, id@, label@)));
    }

    /// Forgets every item, as when the menu is built anew.
    pub fn clear(&mut self)
        ensures
            final(self).view_items().len() == 0,
    {
        self.items = Vec::new();
    }
}

/// The new labels of the items of `group`, by position: the item with
/// `selected` as id is checked, the others are not.
pub open spec fn relabels(items: Seq<(Seq<char>, Seq<char>, Seq<char>)>, group: Seq<char>, selected: Seq<char>) -> Seq<(int, Seq<char>)>
    decreases items.len(),
{
    if items.len() == 0 {
        Seq::empty()
    } else {
        let rest = relabels(items.drop_last(), group, selected);
        let it = items.last();
        if it.0 == group {
            rest.push((items.len() - 1, selected_text(it.2, it.1 == selected)))
        } else {
            rest
        }
    }
}

/// Moves the check mark within `group` to the item `selected_id`: the new
/// label of each item of the group, by position.
pub fn select_menu_item(items: &SelectableItems, group: &str, selected_id: &str) -> (r: Vec<(usize, String)>)
    ensures
        r@.map_values(|p: (usize, String)| (p.0 as int, p.1@)) == relabels(items.view_items(), group@, selected_id@),
{
    let ghost all = items.view_items();
    let mut out: Vec<(usize, String)> = Vec::new();
    let mut i: usize = 0;
    while i < items.items.len()
        invariant
            i <= items.items@.len(),
            all == items.view_items(),
            out@.map_values(|p: (usize, String)| (p.0 as int, p.1@)) == relabels(all.take(i as int), group@, selected_id@),
        decreases items.items@.len() - i,
    {
        let it = &items.items[i];
        assert(all.take(i + 1).drop_last() =~= all.take(i as int));
        assert(all.take(i + 1).last() == selectable_view(*it));
        if same_text(it.group.as_str(), group) {
            let checked = same_text(it.id.as_str(), selected_id);
            let label = selected_label(it.label.as_str(), checked);
            let ghost before = out@.map_values(|p: (usize, String)| (p.0 as int, p.1@));
            out.push((i, label));
            assert(out@.map_values(|p: (usize, String)| (p.0 as int, p.1@)) =~= before.push((i as int, selected_text(it.label@, it.id@ == selected_id@))));
        }
        i = i + 1;
    }
    assert(all.take(items.items@.len() as int) =~= all);
    out
}

} // verus!
