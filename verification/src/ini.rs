//! The INI store behind the configuration file: a map from
//! `(section, key)` to value, kept as a list sorted by section, then key.
use vstd::prelude::*;
use crate::text::{chars_of, compare_chars, find, find_in, lemma_find_from_props, starts_with, starts_with_in, trim, trim_range, string_of, push_range, push_str, push_char, sorted_unique, strictly_sorted, texts, lemma_lex_asymmetric, lemma_lex_irreflexive, lemma_lex_transitive, lex_lt};

verus! {

/// A `(section, key)` pair, as text.
pub type IniKey = (Seq<char>, Seq<char>);

/// Order of keys: by section, then by key.
pub open spec fn key_lt(a: IniKey, b: IniKey) -> bool {
    lex_lt(a.0, b.0) || (a.0 == b.0 && lex_lt(a.1, b.1))
}

pub proof fn lemma_key_lt_transitive(a: IniKey, b: IniKey, c: IniKey)
    requires
        key_lt(a, b),
        key_lt(b, c),
    ensures
        key_lt(a, c),
{
    if lex_lt(a.0, b.0) && lex_lt(b.0, c.0) {
        lemma_lex_transitive(a.0, b.0, c.0);
    } else if lex_lt(a.1, b.1) && lex_lt(b.1, c.1) {
        lemma_lex_transitive(a.1, b.1, c.1);
    }
}

pub proof fn lemma_key_lt_irreflexive(a: IniKey)
    ensures
        !key_lt(a, a),
{
    lemma_lex_irreflexive(a.0);
    lemma_lex_irreflexive(a.1);
}

/// One stored setting.
pub struct IniEntry {
    pub section: String,
    pub key: String,
    pub value: String,
}

impl IniEntry {
    pub open spec fn k(self) -> IniKey {
        (self.section@, self.key@)
    }

    pub open spec fn triple(self) -> (Seq<char>, Seq<char>, Seq<char>) {
        (self.section@, self.key@, self.value@)
    }
}

/// Entries strictly increasing by key (hence no key twice).
pub open spec fn sorted_entries(es: Seq<IniEntry>) -> bool {
    forall|i: int, j: int| 0 <= i < j < es.len() ==> key_lt(#[trigger] es[i].k(), #[trigger] es[j].k())
}

/// The map that a list of entries stands for.
pub open spec fn entries_map(es: Seq<IniEntry>) -> Map<IniKey, Seq<char>> {
    Map::new(
        |k: IniKey| exists|i: int| 0 <= i < es.len() && #[trigger] es[i].k() == k,
        |k: IniKey| es[choose|i: int| 0 <= i < es.len() && #[trigger] es[i].k() == k].value@,
    )
}

pub proof fn lemma_entries_map_at(es: Seq<IniEntry>, i: int)
    requires
        sorted_entries(es),
        0 <= i < es.len(),
    ensures
        entries_map(es).dom().contains(es[i].k()),
        entries_map(es)[es[i].k()] == es[i].value@,
{
    let k = es[i].k();
    assert(0 <= i < es.len() && es[i].k() == k);
    let j = choose|j: int| 0 <= j < es.len() && #[trigger] es[j].k() == k;
    if j < i {
        lemma_key_lt_irreflexive(k);
    } else if j > i {
        lemma_key_lt_irreflexive(k);
    }
}

/// The settings as `(section, key, value)` triples, sorted by section, then key.
pub open spec fn entries_listing(es: Seq<IniEntry>) -> Seq<(Seq<char>, Seq<char>, Seq<char>)> {
    es.map_values(|e: IniEntry| e.triple())
}

/// Compares the keys `(s1, k1)` and `(s2, k2)`.
fn compare_keys(s1: &Vec<char>, k1: &Vec<char>, s2: &Vec<char>, k2: &Vec<char>) -> (r: i8)
    ensures
        r < 0 <==> key_lt((s1@, k1@), (s2@, k2@)),
        r == 0 <==> (s1@, k1@) == (s2@, k2@),
        r > 0 <==> key_lt((s2@, k2@), (s1@, k1@)),
{
    proof {
        lemma_lex_asymmetric(s1@, s2@);
        lemma_lex_irreflexive(s1@);
        lemma_lex_irreflexive(k1@);
    }
    let c = compare_chars(s1, s2);
    if c != 0 {
        c
    } else {
        compare_chars(k1, k2)
    }
}

/// Settings keyed by `(section, key)`.
pub struct Ini {
    entries: Vec<IniEntry>,
}

impl View for Ini {
    type V = Map<IniKey, Seq<char>>;

    closed spec fn view(&self) -> Map<IniKey, Seq<char>> {
        entries_map(self.entries@)
    }
}

impl Ini {
    /// Well-formedness: entries strictly increasing by key.
    #[verifier::type_invariant]
    pub closed spec fn wf(self) -> bool {
        sorted_entries(self.entries@)
    }

    /// The settings as `(section, key, value)` triples in key order.
    pub closed spec fn listing(&self) -> Seq<(Seq<char>, Seq<char>, Seq<char>)> {
        entries_listing(self.entries@)
    }

    /// The listing is in strictly increasing key order and holds exactly the settings.
    pub proof fn lemma_listing(&self)
        requires
            self.wf(),
        ensures
            forall|i: int, j: int|
                0 <= i < j < self.listing().len() ==> key_lt(
                    (#[trigger] self.listing()[i].0, self.listing()[i].1),
                    (#[trigger] self.listing()[j].0, self.listing()[j].1),
                ),
            forall|i: int|
                0 <= i < self.listing().len() ==> self@.dom().contains(
                    (#[trigger] self.listing()[i].0, self.listing()[i].1),
                ) && self@[(self.listing()[i].0, self.listing()[i].1)] == self.listing()[i].2,
            forall|k: IniKey|
                #[trigger] self@.dom().contains(k) ==> exists|i: int|
                    0 <= i < self.listing().len() && (#[trigger] self.listing()[i].0, self.listing()[i].1) == k,
    {
        let es = self.entries@;
        assert forall|i: int| 0 <= i < self.listing().len() implies #[trigger] self.listing()[i]
            == es[i].triple() by {}
        assert forall|i: int, j: int| 0 <= i < j < self.listing().len() implies key_lt(
            (#[trigger] self.listing()[i].0, self.listing()[i].1),
            (#[trigger] self.listing()[j].0, self.listing()[j].1),
        ) by {
            assert(self.listing()[i] == es[i].triple());
            assert(self.listing()[j] == es[j].triple());
            assert(key_lt(es[i].k(), es[j].k()));
        }
        assert forall|i: int| 0 <= i < self.listing().len() implies self@.dom().contains(
            (#[trigger] self.listing()[i].0, self.listing()[i].1),
        ) && self@[(self.listing()[i].0, self.listing()[i].1)] == self.listing()[i].2 by {
            lemma_entries_map_at(es, i);
        }
        assert forall|k: IniKey| #[trigger] self@.dom().contains(k) implies exists|i: int|
            0 <= i < self.listing().len() && (#[trigger] self.listing()[i].0, self.listing()[i].1) == k by {
            let i = choose|i: int| 0 <= i < es.len() && #[trigger] es[i].k() == k;
            assert((self.listing()[i].0, self.listing()[i].1) == k);
        }
    }

    /// An empty store.
    pub fn new() -> (r: Ini)
        ensures
            r@ == Map::<IniKey, Seq<char>>::empty(),
    {
        let r = Ini { entries: Vec::new() };
        assert(r@ =~= Map::<IniKey, Seq<char>>::empty());
        r
    }

    /// Where `(s, k)` is, or would go: the first index whose key is not below it,
    /// and whether the key there equals it.
    fn locate(&self, s: &Vec<char>, k: &Vec<char>) -> (r: (usize, bool))
        ensures
            r.0 <= self.entries@.len(),
            forall|j: int| 0 <= j < r.0 ==> key_lt(#[trigger] self.entries@[j].k(), (s@, k@)),
            r.1 ==> r.0 < self.entries@.len() && self.entries@[r.0 as int].k() == (s@, k@),
            !r.1 ==> r.0 < self.entries@.len() ==> key_lt((s@, k@), self.entries@[r.0 as int].k()),
    {
        let mut i: usize = 0;
        while i < self.entries.len()
            invariant
                i <= self.entries@.len(),
                forall|j: int| 0 <= j < i ==> key_lt(#[trigger] self.entries@[j].k(), (s@, k@)),
            decreases self.entries@.len() - i,
        {
            let es = chars_of(self.entries[i].section.as_str());
            let ek = chars_of(self.entries[i].key.as_str());
            let c = compare_keys(&es, &ek, s, k);
            if c == 0 {
                return (i, true);
            }
            if c > 0 {
                return (i, false);
            }
            i = i + 1;
        }
        (i, false)
    }

    /// The value stored under `(section, key)`, or `default`.
    pub fn get(&self, section: &str, key: &str, default: &str) -> (r: String)
        ensures
            r@ == (if self@.dom().contains((section@, key@)) {
                self@[(section@, key@)]
            } else {
                default@
            }),
    {
        proof {
            use_type_invariant(self);
        }
        let s = chars_of(section);
        let k = chars_of(key);
        let (i, found) = self.locate(&s, &k);
        if found {
            proof {
                lemma_entries_map_at(self.entries@, i as int);
            }
            self.entries[i].value.clone()
        } else {
            proof {
                self.lemma_absent(s@, k@, i as int);
            }
            String::from_str(default)
        }
    }

    proof fn lemma_absent(&self, s: Seq<char>, k: Seq<char>, i: int)
        requires
            sorted_entries(self.entries@),
            0 <= i <= self.entries@.len(),
            forall|j: int| 0 <= j < i ==> key_lt(#[trigger] self.entries@[j].k(), (s, k)),
            i < self.entries@.len() ==> key_lt((s, k), self.entries@[i].k()),
        ensures
            !self@.dom().contains((s, k)),
    {
        let es = self.entries@;
        if self@.dom().contains((s, k)) {
            let j = choose|j: int| 0 <= j < es.len() && #[trigger] es[j].k() == (s, k);
            lemma_key_lt_irreflexive((s, k));
            if j > i {
                lemma_key_lt_transitive((s, k), es[i].k(), es[j].k());
            }
        }
    }

    /// Stores `value` under `(section, key)`, replacing what was there.
    pub fn insert(&mut self, section: String, key: String, value: String)
        ensures
            final(self)@ == old(self)@.insert((section@, key@), value@),
    {
        proof {
            use_type_invariant(&*self);
        }
        let s = chars_of(section.as_str());
        let k = chars_of(key.as_str());
        let (i, found) = self.locate(&s, &k);
        let ghost old_es = self.entries@;
        let ghost old_map = self@;
        let mut es: Vec<IniEntry> = Vec::new();
        std::mem::swap(&mut es, &mut self.entries);
        assert(es@ == old_es);
        let ghost e = IniEntry { section, key, value };
        if found {
            es.set(i, IniEntry { section, key, value });
        } else {
            es.insert(i, IniEntry { section, key, value });
        }
        proof {
            let n = es@;
            if found {
                assert(n =~= old_es.update(i as int, e));
            } else {
                assert(n =~= old_es.insert(i as int, e));
            }
            assert forall|a: int, b: int| 0 <= a < b < n.len() implies key_lt(
                #[trigger] n[a].k(),
                #[trigger] n[b].k(),
            ) by {
                if found {
                    if a == i {
                        assert(old_es[a].k() == n[a].k());
                    }
                    if b == i {
                        assert(old_es[b].k() == n[b].k());
                    }
                } else {
                    if b < i {
                    } else if a < i && b == i {
                    } else if a < i && b > i {
                        if b > i + 1 {
                            lemma_key_lt_transitive(e.k(), old_es[i as int].k(), old_es[b - 1].k());
                        }
                        assert(key_lt(e.k(), n[b].k()));
                        lemma_key_lt_transitive(n[a].k(), e.k(), n[b].k());
                    } else if a == i {
                        if b > i + 1 {
                            lemma_key_lt_transitive(e.k(), old_es[i as int].k(), old_es[b - 1].k());
                        }
                    } else {
                    }
                }
            }
            assert(sorted_entries(n));
            assert forall|key2: IniKey| entries_map(n).dom().contains(key2) <==> old_map.insert(
                (s@, k@),
                e.value@,
            ).dom().contains(key2) by {
                if entries_map(n).dom().contains(key2) {
                    let j = choose|j: int| 0 <= j < n.len() && #[trigger] n[j].k() == key2;
                    if found {
                        if j != i {
                            assert(old_es[j].k() == key2);
                        }
                    } else if j < i {
                        assert(old_es[j].k() == key2);
                    } else if j > i {
                        assert(old_es[j - 1].k() == key2);
                    }
                }
                if old_map.dom().contains(key2) && key2 != (s@, k@) {
                    let j = choose|j: int| 0 <= j < old_es.len() && #[trigger] old_es[j].k() == key2;
                    if found || j < i {
                        assert(n[j].k() == key2);
                    } else {
                        assert(n[j + 1].k() == key2);
                    }
                }
                if key2 == (s@, k@) {
                    assert(n[i as int].k() == key2);
                }
            }
            assert forall|key2: IniKey| #[trigger] entries_map(n).dom().contains(key2) implies entries_map(
                n,
            )[key2] == old_map.insert((s@, k@), e.value@)[key2] by {
                let j = choose|j: int| 0 <= j < n.len() && #[trigger] n[j].k() == key2;
                lemma_entries_map_at(n, j);
                lemma_entries_map_at(n, i as int);
                if key2 != (s@, k@) {
                    if found || j < i {
                        lemma_entries_map_at(old_es, j);
                    } else {
                        lemma_entries_map_at(old_es, j - 1);
                    }
                }
            }
            assert(entries_map(n) =~= old_map.insert((s@, k@), e.value@));
        }
        self.entries = es;
    }
}


/// Which keys a removal drops.
pub enum DropRule {
    /// Every key of this section.
    Section(String),
    /// This one `(section, key)`.
    Key(String, String),
    /// The settings that are no longer used.
    Obsolete,
}

/// Settings that are no longer used: the `[hotkey]` and `[output]` sections,
/// `name` in any `[model:...]` section, and the beep keys of `[audio]`.
pub open spec fn obsolete_key(k: IniKey) -> bool {
    ||| k.0 == "hotkey"@
    ||| k.0 == "output"@
    ||| (starts_with(k.0, "model:"@) && k.1 == "name"@)
    ||| (k.0 == "audio"@ && (k.1 == "beep_start"@ || k.1 == "beep_stop"@))
}

pub open spec fn drops(rule: DropRule, k: IniKey) -> bool {
    match rule {
        DropRule::Section(s) => k.0 == s@,
        DropRule::Key(s, key) => k == (s@, key@),
        DropRule::Obsolete => obsolete_key(k),
    }
}

/// `m` without the keys that `rule` drops.
pub open spec fn without(m: Map<IniKey, Seq<char>>, rule: DropRule) -> Map<IniKey, Seq<char>> {
    Map::new(|k: IniKey| m.dom().contains(k) && !drops(rule, k), |k: IniKey| m[k])
}

/// Whether `v` holds exactly the text `lit`.
pub fn text_is(v: &Vec<char>, lit: &str) -> (b: bool)
    ensures
        b == (v@ == lit@),
{
    let l = chars_of(lit);
    compare_chars(v, &l) == 0
}

fn drops_exec(rule: &DropRule, s: &Vec<char>, k: &Vec<char>) -> (b: bool)
    ensures
        b == drops(*rule, (s@, k@)),
{
    match rule {
        DropRule::Section(sec) => {
            let sv = chars_of(sec.as_str());
            compare_chars(s, &sv) == 0
        },
        DropRule::Key(sec, key) => {
            let sv = chars_of(sec.as_str());
            let kv = chars_of(key.as_str());
            compare_chars(s, &sv) == 0 && compare_chars(k, &kv) == 0
        },
        DropRule::Obsolete => {
            let prefix = chars_of("model:");
            assert(s@.subrange(0, s@.len() as int) =~= s@);
            text_is(s, "hotkey") || text_is(s, "output") || (starts_with_in(s, 0, s.len(), &prefix)
                && text_is(k, "name")) || (text_is(s, "audio") && (text_is(k, "beep_start")
                || text_is(k, "beep_stop")))
        },
    }
}

// ---------------------------------------------------------------- parsing

/// What one line of INI text does, given the current section: blank lines and
/// comments (`#`, `;`) do nothing, `[name]` changes the section, and
/// `key = value` stores a setting (split at the first `=`, both sides trimmed).
/// Other lines do nothing.
pub open spec fn apply_line(m: Map<IniKey, Seq<char>>, sec: Seq<char>, line: Seq<char>) -> (Map<IniKey, Seq<char>>, Seq<char>) {
    let t = trim(line);
    if t.len() == 0 || t[0] == '#' || t[0] == ';' {
        (m, sec)
    } else if t[0] == '[' && t.last() == ']' {
        (m, trim(t.subrange(1, t.len() - 1)))
    } else {
        match find(t, seq!['=']) {
            Some(i) => (m.insert((sec, trim(t.take(i))), trim(t.skip(i + 1))), sec),
            None => (m, sec),
        }
    }
}

/// The settings and section after reading `t` line by line (lines end at `\n`).
pub open spec fn merge_text(m: Map<IniKey, Seq<char>>, sec: Seq<char>, t: Seq<char>) -> (Map<IniKey, Seq<char>>, Seq<char>)
    decreases t.len(),
{
    if t.len() == 0 {
        (m, sec)
    } else {
        let i = match find(t, seq!['\n']) {
            Some(i) => i,
            None => t.len() as int,
        };
        let r = apply_line(m, sec, t.take(i));
        if i >= t.len() || i < 0 {
            r
        } else {
            merge_text(r.0, r.1, t.skip(i + 1))
        }
    }
}

// ---------------------------------------------------------------- rendering

/// `[section]` and a line break; nothing for the unnamed section.
pub open spec fn section_header(s: Seq<char>) -> Seq<char> {
    if s.len() == 0 {
        Seq::empty()
    } else {
        seq!['['] + s + seq![']', '\n']
    }
}

/// `key = value` and a line break.
pub open spec fn entry_line(k: Seq<char>, v: Seq<char>) -> Seq<char> {
    k + seq![' ', '=', ' '] + v + seq!['\n']
}

/// The text of the sorted listing `l`, `prev` being the section of the entry before it:
/// each section opens with its header, its settings follow one per line, and a
/// blank line closes it.
pub open spec fn render_from(l: Seq<(Seq<char>, Seq<char>, Seq<char>)>, prev: Option<Seq<char>>) -> Seq<char>
    decreases l.len(),
{
    if l.len() == 0 {
        Seq::empty()
    } else {
        let e = l[0];
        let head = if prev == Some(e.0) { Seq::empty() } else { section_header(e.0) };
        let tail = if l.len() == 1 || l[1].0 != e.0 { seq!['\n'] } else { Seq::empty() };
        head + entry_line(e.1, e.2) + tail + render_from(l.drop_first(), Some(e.0))
    }
}

pub open spec fn render(l: Seq<(Seq<char>, Seq<char>, Seq<char>)>) -> Seq<char> {
    render_from(l, None)
}

/// `l` lists the settings `m`: in strictly increasing key order, each with its
/// value, and every setting of `m` among them.
pub open spec fn lists(l: Seq<(Seq<char>, Seq<char>, Seq<char>)>, m: Map<IniKey, Seq<char>>) -> bool {
    &&& forall|i: int, j: int|
        0 <= i < j < l.len() ==> key_lt((#[trigger] l[i].0, l[i].1), (#[trigger] l[j].0, l[j].1))
    &&& forall|i: int|
        0 <= i < l.len() ==> m.dom().contains((#[trigger] l[i].0, l[i].1)) && m[(l[i].0, l[i].1)] == l[i].2
    &&& forall|k: IniKey|
        #[trigger] m.dom().contains(k) ==> exists|i: int| 0 <= i < l.len() && (#[trigger] l[i].0, l[i].1) == k
}

/// The INI text of the settings `m`: the rendering of their listing in key order.
pub open spec fn settings_text(m: Map<IniKey, Seq<char>>) -> Seq<char> {
    render(choose|l: Seq<(Seq<char>, Seq<char>, Seq<char>)>| lists(l, m))
}

/// A map of settings has only one listing in key order.
pub proof fn lemma_lists_unique(
    l1: Seq<(Seq<char>, Seq<char>, Seq<char>)>,
    l2: Seq<(Seq<char>, Seq<char>, Seq<char>)>,
    m: Map<IniKey, Seq<char>>,
)
    requires
        lists(l1, m),
        lists(l2, m),
    ensures
        l1 == l2,
    decreases l1.len(),
{
    if l1.len() == 0 {
        if l2.len() > 0 {
            assert(m.dom().contains((l2[0].0, l2[0].1)));
        }
        assert(l1 =~= l2);
    } else if l2.len() == 0 {
        assert(m.dom().contains((l1[0].0, l1[0].1)));
    } else {
        let k1 = (l1[0].0, l1[0].1);
        let k2 = (l2[0].0, l2[0].1);
        assert(m.dom().contains(k1));
        assert(m.dom().contains(k2));
        let j = choose|j: int| 0 <= j < l2.len() && (#[trigger] l2[j].0, l2[j].1) == k1;
        let i = choose|i: int| 0 <= i < l1.len() && (#[trigger] l1[i].0, l1[i].1) == k2;
        if j > 0 && i > 0 {
            assert(key_lt(k2, (l2[j].0, l2[j].1)));
            assert(key_lt(k1, (l1[i].0, l1[i].1)));
            lemma_key_lt_transitive(k1, k2, k1);
            lemma_key_lt_irreflexive(k1);
        } else if j > 0 {
            assert(key_lt(k2, (l2[j].0, l2[j].1)));
            lemma_key_lt_irreflexive(k1);
        } else if i > 0 {
            assert(key_lt(k1, (l1[i].0, l1[i].1)));
            lemma_key_lt_irreflexive(k2);
        }
        assert(k1 == k2);
        assert(l1[0] == l2[0]);
        let r = m.remove(k1);
        let t1 = l1.drop_first();
        let t2 = l2.drop_first();
        assert forall|a: int, b: int| 0 <= a < b < t1.len() implies key_lt((#[trigger] t1[a].0, t1[a].1), (#[trigger] t1[b].0, t1[b].1)) by {
            assert(t1[a] == l1[a + 1] && t1[b] == l1[b + 1]);
        }
        assert forall|a: int, b: int| 0 <= a < b < t2.len() implies key_lt((#[trigger] t2[a].0, t2[a].1), (#[trigger] t2[b].0, t2[b].1)) by {
            assert(t2[a] == l2[a + 1] && t2[b] == l2[b + 1]);
        }
        assert forall|a: int| 0 <= a < t1.len() implies r.dom().contains((#[trigger] t1[a].0, t1[a].1)) && r[(t1[a].0, t1[a].1)] == t1[a].2 by {
            assert(t1[a] == l1[a + 1]);
            assert(key_lt(k1, (l1[a + 1].0, l1[a + 1].1)));
            lemma_key_lt_irreflexive(k1);
            assert(m.dom().contains((l1[a + 1].0, l1[a + 1].1)));
        }
        assert forall|a: int| 0 <= a < t2.len() implies r.dom().contains((#[trigger] t2[a].0, t2[a].1)) && r[(t2[a].0, t2[a].1)] == t2[a].2 by {
            assert(t2[a] == l2[a + 1]);
            assert(key_lt(k1, (l2[a + 1].0, l2[a + 1].1)));
            lemma_key_lt_irreflexive(k1);
            assert(m.dom().contains((l2[a + 1].0, l2[a + 1].1)));
        }
        assert forall|k: IniKey| #[trigger] r.dom().contains(k) implies exists|a: int| 0 <= a < t1.len() && (#[trigger] t1[a].0, t1[a].1) == k by {
            assert(m.dom().contains(k));
            let c = choose|c: int| 0 <= c < l1.len() && (#[trigger] l1[c].0, l1[c].1) == k;
            assert(c != 0);
            assert(t1[c - 1] == l1[c]);
        }
        assert forall|k: IniKey| #[trigger] r.dom().contains(k) implies exists|a: int| 0 <= a < t2.len() && (#[trigger] t2[a].0, t2[a].1) == k by {
            assert(m.dom().contains(k));
            let c = choose|c: int| 0 <= c < l2.len() && (#[trigger] l2[c].0, l2[c].1) == k;
            assert(c != 0);
            assert(t2[c - 1] == l2[c]);
        }
        lemma_lists_unique(t1, t2, r);
        assert(l1 =~= seq![l1[0]] + t1);
        assert(l2 =~= seq![l2[0]] + t2);
    }
}

/// One configurable model: its id (the name after `model:`) and its menu label.
#[derive(Clone)]
pub struct ModelChoice {
    pub id: String,
    pub label: String,
}

/// Ids of the `[model:<id>]` sections present in `m`.
pub open spec fn model_ids(m: Map<IniKey, Seq<char>>) -> Set<Seq<char>> {
    Set::new(
        |id: Seq<char>| exists|k: IniKey| #[trigger] m.dom().contains(k) && k.0 == "model:"@ + id,
    )
}

/// The value under `(section, key)` in `m`, or `default`.
pub open spec fn lookup(m: Map<IniKey, Seq<char>>, section: Seq<char>, key: Seq<char>, default: Seq<char>) -> Seq<char> {
    if m.dom().contains((section, key)) {
        m[(section, key)]
    } else {
        default
    }
}

impl Ini {
    /// Removes the keys that `rule` drops.
    pub fn drop_keys(&mut self, rule: &DropRule)
        ensures
            final(self)@ == without(old(self)@, *rule),
    {
        proof {
            use_type_invariant(&*self);
        }
        let ghost old_es = self.entries@;
        let mut es: Vec<IniEntry> = Vec::new();
        std::mem::swap(&mut es, &mut self.entries);
        let mut kept: Vec<IniEntry> = Vec::new();
        let ghost mut idx: Seq<int> = Seq::empty();
        let mut i: usize = 0;
        while i < es.len()
            invariant
                es@ == old_es,
                sorted_entries(old_es),
                i <= es@.len(),
                idx.len() == kept@.len(),
                forall|a: int| 0 <= a < idx.len() ==> 0 <= #[trigger] idx[a] < i && kept@[a] == old_es[idx[a]],
                forall|a: int, b: int| 0 <= a < b < idx.len() ==> #[trigger] idx[a] < #[trigger] idx[b],
                forall|j: int| 0 <= j < i && !drops(*rule, #[trigger] old_es[j].k()) ==> exists|a: int| 0 <= a < idx.len() && idx[a] == j,
                forall|a: int| 0 <= a < kept@.len() ==> !drops(*rule, #[trigger] kept@[a].k()),
            decreases es@.len() - i,
        {
            let s = chars_of(es[i].section.as_str());
            let k = chars_of(es[i].key.as_str());
            if !drops_exec(rule, &s, &k) {
                let e = IniEntry { section: es[i].section.clone(), key: es[i].key.clone(), value: es[i].value.clone() };
                let ghost old_idx = idx;
                kept.push(e);
                proof {
                    idx = idx.push(i as int);
                    assert forall|j: int| 0 <= j < i + 1 && !drops(*rule, #[trigger] old_es[j].k()) implies exists|a: int| 0 <= a < idx.len() && idx[a] == j by {
                        if j == i {
                            assert(idx[idx.len() - 1] == j);
                        } else {
                            let a = choose|a: int| 0 <= a < old_idx.len() && old_idx[a] == j;
                            assert(idx[a] == j);
                        }
                    }
                }
            }
            i = i + 1;
        }
        proof {
            let n = kept@;
            assert forall|a: int, b: int| 0 <= a < b < n.len() implies key_lt(#[trigger] n[a].k(), #[trigger] n[b].k()) by {
                assert(idx[a] < idx[b]);
            }
            assert(sorted_entries(n));
            let target = without(entries_map(old_es), *rule);
            assert forall|k: IniKey| entries_map(n).dom().contains(k) <==> target.dom().contains(k) by {
                if entries_map(n).dom().contains(k) {
                    let a = choose|a: int| 0 <= a < n.len() && #[trigger] n[a].k() == k;
                    assert(old_es[idx[a]].k() == k);
                }
                if target.dom().contains(k) {
                    let j = choose|j: int| 0 <= j < old_es.len() && #[trigger] old_es[j].k() == k;
                    let a = choose|a: int| 0 <= a < idx.len() && idx[a] == j;
                    assert(n[a].k() == k);
                }
            }
            assert forall|k: IniKey| #[trigger] entries_map(n).dom().contains(k) implies entries_map(n)[k] == target[k] by {
                let a = choose|a: int| 0 <= a < n.len() && #[trigger] n[a].k() == k;
                lemma_entries_map_at(n, a);
                lemma_entries_map_at(old_es, idx[a]);
            }
            assert(entries_map(n) =~= target);
        }
        self.entries = kept;
    }

    /// Removes `(section, key)`.
    pub fn remove(&mut self, section: &str, key: &str)
        ensures
            final(self)@ == old(self)@.remove((section@, key@)),
    {
        let rule = DropRule::Key(String::from_str(section), String::from_str(key));
        self.drop_keys(&rule);
        assert(self@ =~= old(self)@.remove((section@, key@)));
    }

    /// Drops the settings that are no longer used (see `obsolete_key`).
    pub fn remove_obsolete_keys(&mut self)
        ensures
            final(self)@ == without(old(self)@, DropRule::Obsolete),
    {
        self.drop_keys(&DropRule::Obsolete);
    }

    /// Reads `input` as INI text and stores every `key = value` line under the
    /// section in force (initially the unnamed one), later lines winning.
    pub fn merge(&mut self, input: &str)
        ensures
            final(self)@ == merge_text(old(self)@, Seq::empty(), input@).0,
    {
        let v = chars_of(input);
        let nl = vec!['\n'];
        assert(nl@ =~= seq!['\n']);
        let mut section: String = String::new();
        let mut start: usize = 0;
        let ghost goal = merge_text(self@, Seq::empty(), input@);
        assert(v@.subrange(0, v@.len() as int) =~= v@);
        while start < v.len()
            invariant
                start <= v@.len(),
                v@ == input@,
                nl@ == seq!['\n'],
                goal == merge_text(self@, section@, v@.subrange(start as int, v@.len() as int)) || (goal.0 == self@ && start == v@.len()),
            decreases v@.len() - start,
        {
            let ghost t = v@.subrange(start as int, v@.len() as int);
            let end = match find_in(&v, start, v.len(), &nl) {
                Some(j) => j,
                None => v.len(),
            };
            proof {
                lemma_find_from_props(t, seq!['\n'], 0);
                assert(t.take(end - start) =~= v@.subrange(start as int, end as int));
            }
            self.apply_line_exec(&mut section, &v, start, end);
            if end == v.len() {
                start = end;
            } else {
                assert(t.skip(end - start + 1) =~= v@.subrange(end + 1, v@.len() as int));
                start = end + 1;
            }
        }
        proof {
            if goal != merge_text(self@, section@, v@.subrange(start as int, v@.len() as int)) {
            } else {
                assert(v@.subrange(start as int, v@.len() as int).len() == 0);
            }
        }
    }

    fn apply_line_exec(&mut self, section: &mut String, v: &Vec<char>, lo: usize, hi: usize)
        requires
            lo <= hi <= v@.len(),
        ensures
            (final(self)@, final(section)@) == apply_line(old(self)@, old(section)@, v@.subrange(lo as int, hi as int)),
    {
        let (a, b) = trim_range(v, lo, hi);
        let ghost t = v@.subrange(a as int, b as int);
        if a == b || v[a] == '#' || v[a] == ';' {
            return;
        }
        if v[a] == '[' && v[b - 1] == ']' {
            let (c, d) = trim_range(v, a + 1, b - 1);
            assert(t.subrange(1, t.len() - 1) =~= v@.subrange(a + 1, b - 1));
            *section = string_of(v, c, d);
            return;
        }
        let eq = vec!['='];
        assert(eq@ =~= seq!['=']);
        match find_in(v, a, b, &eq) {
            Some(j) => {
                let (c, d) = trim_range(v, a, j);
                let (e, f) = trim_range(v, j + 1, b);
                assert(t.take(j - a) =~= v@.subrange(a as int, j as int));
                assert(t.skip(j - a + 1) =~= v@.subrange(j + 1, b as int));
                let key = string_of(v, c, d);
                let value = string_of(v, e, f);
                let sec = section.clone();
                self.insert(sec, key, value);
            },
            None => {},
        }
    }
}


/// The text that the `i`-th entry of the listing contributes: its section
/// header when the section changes, its line, and a blank line when the section ends.
pub open spec fn entry_piece(l: Seq<(Seq<char>, Seq<char>, Seq<char>)>, i: int) -> Seq<char> {
    let e = l[i];
    let head = if i > 0 && l[i - 1].0 == e.0 { Seq::empty() } else { section_header(e.0) };
    let tail = if i + 1 >= l.len() || l[i + 1].0 != e.0 { seq!['\n'] } else { Seq::empty() };
    head + entry_line(e.1, e.2) + tail
}

pub proof fn lemma_render_step(l: Seq<(Seq<char>, Seq<char>, Seq<char>)>, i: int)
    requires
        0 <= i < l.len(),
    ensures
        render_from(l.skip(i), if i == 0 { None } else { Some(l[i - 1].0) }) == entry_piece(l, i)
            + render_from(l.skip(i + 1), Some(l[i].0)),
{
    let rest = l.skip(i);
    assert(rest[0] == l[i]);
    assert(rest.drop_first() =~= l.skip(i + 1));
    if rest.len() > 1 {
        assert(rest[1] == l[i + 1]);
    }
}

/// Ids `id` such that some entry before `i` has section `prefix + id`.
pub open spec fn ids_upto(es: Seq<IniEntry>, i: int, prefix: Seq<char>) -> Set<Seq<char>> {
    Set::new(|id: Seq<char>| exists|j: int| 0 <= j < i && #[trigger] es[j].section@ == prefix + id)
}

proof fn lemma_ids_upto_step(es: Seq<IniEntry>, i: int, prefix: Seq<char>)
    requires
        0 <= i < es.len(),
    ensures
        ids_upto(es, i + 1, prefix) == (if starts_with(es[i].section@, prefix) {
            ids_upto(es, i, prefix).insert(es[i].section@.skip(prefix.len() as int))
        } else {
            ids_upto(es, i, prefix)
        }),
{
    let sec = es[i].section@;
    let target = if starts_with(sec, prefix) {
        ids_upto(es, i, prefix).insert(sec.skip(prefix.len() as int))
    } else {
        ids_upto(es, i, prefix)
    };
    assert forall|id: Seq<char>| ids_upto(es, i + 1, prefix).contains(id) <==> target.contains(id) by {
        if ids_upto(es, i + 1, prefix).contains(id) {
            let j = choose|j: int| 0 <= j < i + 1 && #[trigger] es[j].section@ == prefix + id;
            if j == i {
                assert(sec.subrange(0, prefix.len() as int) =~= prefix);
                assert(sec.skip(prefix.len() as int) =~= id);
            }
        }
        if target.contains(id) {
            if starts_with(sec, prefix) && id == sec.skip(prefix.len() as int) {
                assert(sec =~= prefix + id);
            }
        }
    }
    assert(ids_upto(es, i + 1, prefix) =~= target);
}

proof fn lemma_ids_upto_all(es: Seq<IniEntry>)
    requires
        sorted_entries(es),
    ensures
        ids_upto(es, es.len() as int, "model:"@) == model_ids(entries_map(es)),
{
    let m = entries_map(es);
    assert forall|id: Seq<char>| ids_upto(es, es.len() as int, "model:"@).contains(id) <==> model_ids(m).contains(id) by {
        if ids_upto(es, es.len() as int, "model:"@).contains(id) {
            let j = choose|j: int| 0 <= j < es.len() && #[trigger] es[j].section@ == "model:"@ + id;
            lemma_entries_map_at(es, j);
            assert(m.dom().contains(es[j].k()));
        }
        if model_ids(m).contains(id) {
            let k = choose|k: IniKey| #[trigger] m.dom().contains(k) && k.0 == "model:"@ + id;
            let j = choose|j: int| 0 <= j < es.len() && #[trigger] es[j].k() == k;
            assert(es[j].section@ == "model:"@ + id);
        }
    }
    assert(ids_upto(es, es.len() as int, "model:"@) =~= model_ids(m));
}

impl Ini {
    fn entry_piece_exec(&self, i: usize) -> (r: String)
        requires
            self.wf(),
            i < self.entries@.len(),
        ensures
            r@ == entry_piece(self.listing(), i as int),
    {
        let ghost l = self.listing();
        assert(l[i as int] == self.entries@[i as int].triple());
        let sv = chars_of(self.entries[i].section.as_str());
        let same_prev = if i > 0 {
            assert(l[i - 1] == self.entries@[i - 1].triple());
            let pv = chars_of(self.entries[i - 1].section.as_str());
            compare_chars(&sv, &pv) == 0
        } else {
            false
        };
        let mut out = String::new();
        if !same_prev && sv.len() > 0 {
            push_char(&mut out, '[');
            push_range(&mut out, &sv, 0, sv.len());
            push_char(&mut out, ']');
            push_char(&mut out, '\n');
            assert(sv@.subrange(0, sv@.len() as int) =~= sv@);
        }
        let ghost out1 = out@;
        assert(out1 =~= (if i > 0 && l[i - 1].0 == l[i as int].0 { Seq::empty() } else { section_header(l[i as int].0) }));
        push_str(&mut out, self.entries[i].key.as_str());
        push_char(&mut out, ' ');
        push_char(&mut out, '=');
        push_char(&mut out, ' ');
        push_str(&mut out, self.entries[i].value.as_str());
        push_char(&mut out, '\n');
        assert(out@ =~= out1 + entry_line(l[i as int].1, l[i as int].2));
        let ghost out2 = out@;
        let last = if i == self.entries.len() - 1 {
            true
        } else {
            assert(l[i + 1] == self.entries@[i + 1].triple());
            let nv = chars_of(self.entries[i + 1].section.as_str());
            compare_chars(&sv, &nv) != 0
        };
        if last {
            push_char(&mut out, '\n');
        }
        assert(out@ =~= out2 + (if i + 1 >= l.len() || l[i + 1].0 != l[i as int].0 { seq!['\n'] } else { Seq::<char>::empty() }));
        out
    }

    /// The settings as INI text: sections in order (the unnamed one first and
    /// without a header), each as `[section]`, then `key = value` lines in key
    /// order, then a blank line.
    pub fn to_text(&self) -> (r: String)
        ensures
            r@ == render(self.listing()),
            r@ == settings_text(self@),
    {
        proof {
            use_type_invariant(self);
            self.lemma_listing();
            assert(lists(self.listing(), self@));
            let l = choose|l: Seq<(Seq<char>, Seq<char>, Seq<char>)>| lists(l, self@);
            lemma_lists_unique(self.listing(), l, self@);
        }
        let ghost l = self.listing();
        let n = self.entries.len();
        let mut out = String::new();
        let mut i: usize = 0;
        assert(l.skip(0) =~= l);
        while i < n
            invariant
                self.wf(),
                n == self.entries@.len(),
                l == self.listing(),
                l.len() == n,
                i <= n,
                out@ + render_from(l.skip(i as int), if i == 0 { None } else { Some(l[i - 1].0) }) == render(l),
            decreases n - i,
        {
            proof {
                lemma_render_step(l, i as int);
            }
            let piece = self.entry_piece_exec(i);
            let ghost out0 = out@;
            push_str(&mut out, piece.as_str());
            assert(out0 + (entry_piece(l, i as int) + render_from(l.skip(i + 1), Some(l[i as int].0))) =~= out@ + render_from(l.skip(i + 1), Some(l[i as int].0)));
            i = i + 1;
        }
        assert(l.skip(n as int) =~= Seq::<(Seq<char>, Seq<char>, Seq<char>)>::empty());
        assert(out@ + Seq::<char>::empty() =~= out@);
        out
    }

    fn model_ids_exec(&self) -> (ids: Vec<String>)
        requires
            self.wf(),
        ensures
            texts(ids@).to_set() == model_ids(self@),
    {
        let prefix = chars_of("model:");
        let ghost es = self.entries@;
        let mut ids: Vec<String> = Vec::new();
        let mut i: usize = 0;
        assert(texts(ids@).to_set() =~= ids_upto(es, 0, prefix@));
        while i < self.entries.len()
            invariant
                es == self.entries@,
                i <= es.len(),
                prefix@ == "model:"@,
                texts(ids@).to_set() == ids_upto(es, i as int, prefix@),
            decreases es.len() - i,
        {
            proof {
                lemma_ids_upto_step(es, i as int, prefix@);
            }
            let sv = chars_of(self.entries[i].section.as_str());
            assert(sv@.subrange(0, sv@.len() as int) =~= sv@);
            if starts_with_in(&sv, 0, sv.len(), &prefix) {
                let id = string_of(&sv, prefix.len(), sv.len());
                let ghost old_ids = ids@;
                ids.push(id);
                proof {
                    assert(texts(ids@) =~= texts(old_ids) + seq![id@]);
                    Seq::lemma_to_set_insert_commutes(texts(old_ids), id@);
                    assert(id@ =~= sv@.skip(prefix@.len() as int));
                }
            }
            i = i + 1;
        }
        proof {
            lemma_ids_upto_all(es);
        }
        ids
    }

    /// Ids of the `[model:<id>]` sections, sorted, each with its `label` (default: the id).
    pub fn model_choices(&self) -> (r: Vec<ModelChoice>)
        ensures
            strictly_sorted(r@.map_values(|c: ModelChoice| c.id@)),
            r@.map_values(|c: ModelChoice| c.id@).to_set() == model_ids(self@),
            forall|i: int| 0 <= i < r@.len() ==> (#[trigger] r@[i]).label@ == lookup(self@, "model:"@ + r@[i].id@, "label"@, r@[i].id@),
    {
        proof {
            use_type_invariant(self);
        }
        let ids = self.model_ids_exec();
        let sorted = sorted_unique(ids);
        let mut r: Vec<ModelChoice> = Vec::new();
        let mut k: usize = 0;
        while k < sorted.len()
            invariant
                k <= sorted@.len(),
                r@.len() == k,
                forall|a: int| 0 <= a < k ==> (#[trigger] r@[a]).id@ == sorted@[a]@ && r@[a].label@ == lookup(self@, "model:"@ + r@[a].id@, "label"@, r@[a].id@),
            decreases sorted@.len() - k,
        {
            let id = sorted[k].clone();
            let mut section = String::from_str("model:");
            push_str(&mut section, id.as_str());
            let label = self.get(section.as_str(), "label", id.as_str());
            r.push(ModelChoice { id, label });
            k = k + 1;
        }
        assert(r@.map_values(|c: ModelChoice| c.id@) =~= texts(sorted@));
        r
    }

    /// The value of `key` in `section`, falling back to the `[model]` section,
    /// then to `default`.
    pub fn model_value(&self, section: &str, key: &str, default: &str) -> (r: String)
        ensures
            r@ == lookup(self@, section@, key@, lookup(self@, "model"@, key@, default@)),
    {
        let fallback = self.get("model", key, default);
        self.get(section, key, fallback.as_str())
    }
}


/// `m` without the keys of section `s`.
pub open spec fn without_section(m: Map<IniKey, Seq<char>>, s: Seq<char>) -> Map<IniKey, Seq<char>> {
    Map::new(|k: IniKey| m.dom().contains(k) && k.0 != s, |k: IniKey| m[k])
}

/// A trimmed value, or nothing when it is blank.
pub open spec fn non_empty_text(s: Seq<char>) -> Option<Seq<char>> {
    if trim(s).len() == 0 {
        None
    } else {
        Some(trim(s))
    }
}

/// `value` trimmed, or `None` when it is blank.
pub fn non_empty(value: String) -> (r: Option<String>)
    ensures
        r matches Some(t) ==> non_empty_text(value@) == Some(t@),
        r is None ==> non_empty_text(value@) is None,
{
    let t = crate::text::trimmed(value.as_str());
    if t.as_str().is_empty() {
        None
    } else {
        Some(t)
    }
}

/// `m` after retiring the old model defaults: the `[model:e4b-q4km]` section is
/// dropped and an active `e4b-q4km` becomes `e2b-qat`; a `[model]` section still
/// holding the old E4B repo and weights while `e4b-qat` is active moves to the
/// E2B defaults.
pub open spec fn migrated_model_defaults(m: Map<IniKey, Seq<char>>) -> Map<IniKey, Seq<char>> {
    let m1 = without_section(m, "model:e4b-q4km"@);
    let m2 = if lookup(m1, "models"@, "active"@, ""@) == "e4b-q4km"@ {
        m1.insert(("models"@, "active"@), "e2b-qat"@)
    } else {
        m1
    };
    if lookup(m2, "model"@, "repo"@, ""@) == "google/gemma-4-E4B-it-qat-q4_0-gguf"@ && lookup(
        m2,
        "model"@,
        "weights"@,
        ""@,
    ) == "gemma-4-E4B_q4_0-it.gguf"@ && lookup(m2, "models"@, "active"@, ""@) == "e4b-qat"@ {
        m2.insert(("models"@, "active"@), "e2b-qat"@).insert(
            ("model"@, "repo"@),
            "google/gemma-4-E2B-it-qat-q4_0-gguf"@,
        ).insert(("model"@, "weights"@), "gemma-4-E2B_q4_0-it.gguf"@).insert(
            ("model"@, "mmproj"@),
            "gemma-4-E2B-it-mmproj.gguf"@,
        )
    } else {
        m2
    }
}

/// `m` after moving the old `[chat]` voice and rate to `[speech]`: the voice moves
/// when `[speech]` has none, the rate when `[speech]` still has the default 190;
/// both old keys are removed.
pub open spec fn migrated_speech_defaults(m: Map<IniKey, Seq<char>>) -> Map<IniKey, Seq<char>> {
    let chat_voice = non_empty_text(lookup(m, "chat"@, "voice"@, ""@));
    let speech_voice = non_empty_text(lookup(m, "speech"@, "voice"@, ""@));
    let m1 = if speech_voice is None && chat_voice is Some {
        m.insert(("speech"@, "voice"@), chat_voice->0)
    } else {
        m
    };
    let chat_rate = lookup(m1, "chat"@, "rate"@, ""@);
    let m2 = if chat_rate.len() > 0 && lookup(m1, "speech"@, "rate"@, "190"@) == "190"@ {
        m1.insert(("speech"@, "rate"@), chat_rate)
    } else {
        m1
    };
    m2.remove(("chat"@, "voice"@)).remove(("chat"@, "rate"@))
}

fn string_lit(s: &str) -> (r: String)
    ensures
        r@ == s@,
{
    String::from_str(s)
}

fn text_equals(a: &String, b: &str) -> (r: bool)
    ensures
        r == (a@ == b@),
{
    let av = chars_of(a.as_str());
    text_is(&av, b)
}

impl Ini {
    /// Retires the old model defaults (see `migrated_model_defaults`).
    pub fn migrate_old_model_defaults(&mut self)
        ensures
            final(self)@ == migrated_model_defaults(old(self)@),
    {
        let rule = DropRule::Section(string_lit("model:e4b-q4km"));
        let ghost m0 = self@;
        self.drop_keys(&rule);
        assert(self@ =~= without_section(m0, "model:e4b-q4km"@));
        let active = self.get("models", "active", "");
        if text_equals(&active, "e4b-q4km") {
            self.insert(string_lit("models"), string_lit("active"), string_lit("e2b-qat"));
        }
        let repo = self.get("model", "repo", "");
        let weights = self.get("model", "weights", "");
        let active2 = self.get("models", "active", "");
        if text_equals(&repo, "google/gemma-4-E4B-it-qat-q4_0-gguf") && text_equals(&weights, "gemma-4-E4B_q4_0-it.gguf") && text_equals(&active2, "e4b-qat") {
            self.insert(string_lit("models"), string_lit("active"), string_lit("e2b-qat"));
            self.insert(string_lit("model"), string_lit("repo"), string_lit("google/gemma-4-E2B-it-qat-q4_0-gguf"));
            self.insert(string_lit("model"), string_lit("weights"), string_lit("gemma-4-E2B_q4_0-it.gguf"));
            self.insert(string_lit("model"), string_lit("mmproj"), string_lit("gemma-4-E2B-it-mmproj.gguf"));
        }
    }

    /// Moves the old `[chat]` voice and rate to `[speech]` (see `migrated_speech_defaults`).
    pub fn migrate_old_speech_defaults(&mut self)
        ensures
            final(self)@ == migrated_speech_defaults(old(self)@),
    {
        let chat_voice = non_empty(self.get("chat", "voice", ""));
        let speech_voice = non_empty(self.get("speech", "voice", ""));
        if speech_voice.is_none() {
            if let Some(voice) = chat_voice {
                self.insert(string_lit("speech"), string_lit("voice"), voice);
            }
        }
        let chat_rate = self.get("chat", "rate", "");
        let speech_rate = self.get("speech", "rate", "190");
        if !chat_rate.as_str().is_empty() && text_equals(&speech_rate, "190") {
            self.insert(string_lit("speech"), string_lit("rate"), chat_rate);
        }
        self.remove("chat", "voice");
        self.remove("chat", "rate");
    }
}

} // verus!
