//! Reading back what was written: the INI text of a store, read into an empty
//! store, gives the same settings.
use vstd::prelude::*;
use crate::text::{find, is_ws, lemma_find_from_props, lemma_ws_prefix_len_at, lemma_ws_suffix_len_at, matches_at, lex_lt, trim, ws_prefix_len, ws_suffix_len};
use crate::ini::{apply_line, entry_line, entry_piece, key_lt, lemma_render_step, merge_text, render, render_from, section_header, Ini, IniKey};

verus! {

/// No leading or trailing whitespace.
pub open spec fn clean(x: Seq<char>) -> bool {
    x.len() == 0 || (!is_ws(x[0]) && !is_ws(x.last()))
}

pub open spec fn no_char(x: Seq<char>, c: char) -> bool {
    forall|i: int| 0 <= i < x.len() ==> x[i] != c
}

/// A setting that survives being written as `key = value` under `[section]` and
/// read back: all parts trimmed and on one line, no `=` in the key, the key not
/// starting a comment, and the line not looking like a section header.
pub open spec fn writable(s: Seq<char>, k: Seq<char>, v: Seq<char>) -> bool {
    &&& clean(s) && clean(k) && clean(v)
    &&& no_char(s, '\n') && no_char(k, '\n') && no_char(v, '\n')
    &&& no_char(k, '=')
    &&& (k.len() > 0 ==> k[0] != '#' && k[0] != ';')
    &&& !(k.len() > 0 && k[0] == '[' && v.len() > 0 && v.last() == ']')
}

/// Every setting of `m` is writable.
pub open spec fn all_writable(m: Map<IniKey, Seq<char>>) -> bool {
    forall|k: IniKey| #[trigger] m.dom().contains(k) ==> writable(k.0, k.1, m[k])
}

proof fn lemma_trim_pad(pre: Seq<char>, core: Seq<char>, post: Seq<char>)
    requires
        forall|i: int| 0 <= i < pre.len() ==> is_ws(#[trigger] pre[i]),
        forall|i: int| 0 <= i < post.len() ==> is_ws(#[trigger] post[i]),
        clean(core),
        core.len() > 0,
    ensures
        trim(pre + core + post) == core,
{
    let x = pre + core + post;
    assert forall|j: int| 0 <= j < pre.len() implies is_ws(#[trigger] x[j]) by {
        assert(x[j] == pre[j]);
    }
    assert(x[pre.len() as int] == core[0]);
    lemma_ws_prefix_len_at(x, pre.len() as int);
    let y = x.skip(pre.len() as int);
    assert(y =~= core + post);
    assert forall|j: int| y.len() - post.len() <= j < y.len() implies is_ws(#[trigger] y[j]) by {
        assert(y[j] == post[j - core.len()]);
    }
    assert(y[y.len() - post.len() - 1] == core.last());
    lemma_ws_suffix_len_at(y, post.len() as int);
    assert(y.take(y.len() - post.len()) =~= core);
}

proof fn lemma_trim_blank(x: Seq<char>)
    requires
        forall|i: int| 0 <= i < x.len() ==> is_ws(#[trigger] x[i]),
    ensures
        trim(x) == Seq::<char>::empty(),
{
    lemma_ws_prefix_len_at(x, x.len() as int);
    assert(x.skip(x.len() as int) =~= Seq::<char>::empty());
    lemma_ws_suffix_len_at(Seq::<char>::empty(), 0);
}

proof fn lemma_find_at(s: Seq<char>, c: char, k: int)
    requires
        0 <= k < s.len(),
        s[k] == c,
        forall|j: int| 0 <= j < k ==> s[j] != c,
    ensures
        find(s, seq![c]) == Some(k),
{
    lemma_find_from_props(s, seq![c], 0);
    assert(s.subrange(k, k + 1) =~= seq![c]);
    assert(matches_at(s, k, seq![c]));
    match find(s, seq![c]) {
        Some(j) => {
            if j < k {
                assert(s.subrange(j, j + 1)[0] == s[j]);
            }
        },
        None => {},
    }
}

/// Reading text made of `a` (ending in a line break) and then `b` reads `a`, then `b`.
pub proof fn lemma_merge_concat(m: Map<IniKey, Seq<char>>, sec: Seq<char>, a: Seq<char>, b: Seq<char>)
    requires
        a.len() > 0,
        a.last() == '\n',
    ensures
        merge_text(m, sec, a + b) == merge_text(merge_text(m, sec, a).0, merge_text(m, sec, a).1, b),
    decreases a.len(),
{
    let ab = a + b;
    lemma_find_from_props(a, seq!['\n'], 0);
    assert(a.subrange(a.len() - 1, a.len() as int) =~= seq!['\n']);
    assert(matches_at(a, a.len() - 1, seq!['\n']));
    let i = find(a, seq!['\n'])->0;
    assert(a[i] == '\n') by {
        assert(a.subrange(i, i + 1)[0] == a[i]);
    }
    assert forall|j: int| 0 <= j < i implies ab[j] != '\n' by {
        assert(!matches_at(a, j, seq!['\n']));
        if a[j] == '\n' {
            assert(a.subrange(j, j + 1) =~= seq!['\n']);
        }
    }
    lemma_find_at(ab, '\n', i);
    assert(ab.take(i) =~= a.take(i));
    let r = apply_line(m, sec, a.take(i));
    if i + 1 == a.len() {
        assert(ab.skip(i + 1) =~= b);
        assert(a.skip(i + 1) =~= Seq::<char>::empty());
        assert(merge_text(r.0, r.1, Seq::<char>::empty()) == r);
        assert(merge_text(m, sec, a) == r);
    } else {
        assert(ab.skip(i + 1) =~= a.skip(i + 1) + b);
        lemma_merge_concat(r.0, r.1, a.skip(i + 1), b);
    }
}

/// Reading one line (without line breaks) followed by a line break.
pub proof fn lemma_merge_line(m: Map<IniKey, Seq<char>>, sec: Seq<char>, line: Seq<char>)
    requires
        no_char(line, '\n'),
    ensures
        merge_text(m, sec, line.push('\n')) == apply_line(m, sec, line),
{
    let t = line.push('\n');
    assert(t[line.len() as int] == '\n');
    lemma_find_at(t, '\n', line.len() as int);
    assert(t.take(line.len() as int) =~= line);
    assert(t.skip(line.len() as int + 1) =~= Seq::<char>::empty());
    let r = apply_line(m, sec, line);
    assert(merge_text(r.0, r.1, Seq::<char>::empty()) == r);
}

#[verifier::rlimit(60)]
proof fn lemma_apply_header(m: Map<IniKey, Seq<char>>, sec: Seq<char>, s: Seq<char>)
    requires
        clean(s),
        s.len() > 0,
    ensures
        apply_line(m, sec, seq!['['] + s + seq![']']) == (m, s),
{
    let line = seq!['['] + s + seq![']'];
    assert(clean(line));
    lemma_trim_pad(Seq::empty(), line, Seq::empty());
    assert(Seq::<char>::empty() + line + Seq::<char>::empty() =~= line);
    let t = trim(line);
    assert(t.subrange(1, t.len() - 1) =~= s);
    lemma_trim_pad(Seq::empty(), s, Seq::empty());
    assert(Seq::<char>::empty() + s + Seq::<char>::empty() =~= s);
}

#[verifier::rlimit(60)]
proof fn lemma_apply_entry(m: Map<IniKey, Seq<char>>, sec: Seq<char>, k: Seq<char>, v: Seq<char>)
    requires
        writable(sec, k, v),
    ensures
        apply_line(m, sec, k + seq![' ', '=', ' '] + v) == (m.insert((sec, k), v), sec),
{
    let line = k + seq![' ', '=', ' '] + v;
    let eqpos: int = k.len() as int + 1;
    assert(line[eqpos] == '=');
    // the trimmed line
    let a: int = if k.len() == 0 { 1 } else { 0 };
    let b: int = if v.len() == 0 { line.len() - 1 } else { line.len() as int };
    let t = line.subrange(a, b);
    if k.len() > 0 && v.len() > 0 {
        assert(clean(line));
        lemma_trim_pad(Seq::empty(), line, Seq::empty());
        assert(Seq::<char>::empty() + line + Seq::<char>::empty() =~= line);
    } else if k.len() > 0 {
        let core = k + seq![' ', '='];
        assert(clean(core));
        lemma_trim_pad(Seq::empty(), core, seq![' ']);
        assert(Seq::<char>::empty() + core + seq![' '] =~= line);
        assert(core =~= t);
    } else if v.len() > 0 {
        let core = seq!['=', ' '] + v;
        assert(clean(core));
        lemma_trim_pad(seq![' '], core, Seq::empty());
        assert(seq![' '] + core + Seq::<char>::empty() =~= line);
        assert(core =~= t);
    } else {
        lemma_trim_pad(seq![' '], seq!['='], seq![' ']);
        assert(seq![' '] + seq!['='] + seq![' '] =~= line);
        assert(seq!['='] =~= t);
    }
    assert(trim(line) == t);
    assert(t.len() > 0);
    // not a comment and not a header
    if k.len() > 0 {
        assert(t[0] == k[0]);
    } else {
        assert(t[0] == '=');
    }
    if v.len() > 0 {
        assert(t.last() == v.last());
    } else {
        assert(t.last() == '=');
    }
    // the first '=' is the separator
    assert forall|j: int| 0 <= j < eqpos - a implies t[j] != '=' by {
        if j + a < k.len() {
            assert(t[j] == k[j + a]);
        } else {
            assert(t[j] == ' ');
        }
    }
    assert(t[eqpos - a] == '=');
    lemma_find_at(t, '=', eqpos - a);
    let key_part = t.take(eqpos - a);
    let value_part = t.skip(eqpos - a + 1);
    if k.len() > 0 {
        lemma_trim_pad(Seq::empty(), k, seq![' ']);
        assert(Seq::<char>::empty() + k + seq![' '] =~= key_part);
    } else {
        lemma_trim_blank(key_part);
        assert(key_part.len() == 0);
        assert(k =~= Seq::<char>::empty());
    }
    if v.len() > 0 {
        lemma_trim_pad(seq![' '], v, Seq::empty());
        assert(seq![' '] + v + Seq::<char>::empty() =~= value_part);
    } else {
        lemma_trim_blank(value_part);
        assert(v =~= Seq::<char>::empty());
    }
}


/// The map of the first `i` triples of a listing.
pub open spec fn prefix_map(l: Seq<(Seq<char>, Seq<char>, Seq<char>)>, i: int) -> Map<IniKey, Seq<char>>
    decreases i,
{
    if i <= 0 {
        Map::empty()
    } else {
        prefix_map(l, i - 1).insert((l[i - 1].0, l[i - 1].1), l[i - 1].2)
    }
}

pub open spec fn key_of(t: (Seq<char>, Seq<char>, Seq<char>)) -> IniKey {
    (t.0, t.1)
}

proof fn lemma_prefix_map(l: Seq<(Seq<char>, Seq<char>, Seq<char>)>, i: int)
    requires
        0 <= i <= l.len(),
        forall|a: int, b: int| 0 <= a < b < l.len() ==> key_lt((#[trigger] l[a].0, l[a].1), (#[trigger] l[b].0, l[b].1)),
    ensures
        forall|k: IniKey| prefix_map(l, i).dom().contains(k) <==> exists|j: int| 0 <= j < i && #[trigger] key_of(l[j]) == k,
        forall|j: int| 0 <= j < i ==> prefix_map(l, i)[#[trigger] key_of(l[j])] == l[j].2,
    decreases i,
{
    if i > 0 {
        lemma_prefix_map(l, i - 1);
        let last = key_of(l[i - 1]);
        assert forall|j: int| 0 <= j < i implies prefix_map(l, i)[#[trigger] key_of(l[j])] == l[j].2 by {
            if j < i - 1 {
                crate::ini::lemma_key_lt_irreflexive(key_of(l[j]));
                assert(key_lt((l[j].0, l[j].1), (l[i - 1].0, l[i - 1].1)));
                assert(key_of(l[j]) != last);
                assert(prefix_map(l, i - 1).dom().contains(key_of(l[j])));
            }
        }
        assert forall|k: IniKey| prefix_map(l, i).dom().contains(k) implies exists|j: int| 0 <= j < i && #[trigger] key_of(l[j]) == k by {
            if k == last {
                assert(key_of(l[i - 1]) == k);
            } else {
                assert(prefix_map(l, i - 1).dom().contains(k));
                let j = choose|j: int| 0 <= j < i - 1 && #[trigger] key_of(l[j]) == k;
                assert(key_of(l[j]) == k);
            }
        }
        assert forall|k: IniKey| (exists|j: int| 0 <= j < i && #[trigger] key_of(l[j]) == k) implies prefix_map(l, i).dom().contains(k) by {
            let j = choose|j: int| 0 <= j < i && #[trigger] key_of(l[j]) == k;
            if j < i - 1 {
                assert(prefix_map(l, i - 1).dom().contains(k));
            }
        }
    }
}

proof fn lemma_nothing_below_empty(x: Seq<char>)
    ensures
        !lex_lt(x, Seq::<char>::empty()),
{
}

proof fn lemma_piece(l: Seq<(Seq<char>, Seq<char>, Seq<char>)>, i: int)
    requires
        0 <= i < l.len(),
        forall|a: int, b: int| 0 <= a < b < l.len() ==> key_lt((#[trigger] l[a].0, l[a].1), (#[trigger] l[b].0, l[b].1)),
        writable(l[i].0, l[i].1, l[i].2),
    ensures
        merge_text(prefix_map(l, i), if i == 0 { Seq::<char>::empty() } else { l[i - 1].0 }, entry_piece(l, i))
            == (prefix_map(l, i + 1), l[i].0),
{
    let e = l[i];
    let m = prefix_map(l, i);
    let sec = if i == 0 { Seq::<char>::empty() } else { l[i - 1].0 };
    let head = if i > 0 && l[i - 1].0 == e.0 { Seq::<char>::empty() } else { section_header(e.0) };
    let tail = if i + 1 >= l.len() || l[i + 1].0 != e.0 { seq!['\n'] } else { Seq::<char>::empty() };
    let body = e.1 + seq![' ', '=', ' '] + e.2;
    let line = entry_line(e.1, e.2);
    assert(line =~= body.push('\n'));
    assert(no_char(body, '\n')) by {
        assert forall|j: int| 0 <= j < body.len() implies body[j] != '\n' by {
            if j < e.1.len() {
                assert(body[j] == e.1[j]);
            } else if j >= e.1.len() + 3 {
                assert(body[j] == e.2[j - e.1.len() - 3]);
            }
        }
    }
    // reading the line (and the blank line after it) from the entry's section
    lemma_merge_line(m, e.0, body);
    lemma_apply_entry(m, e.0, e.1, e.2);
    let after = (m.insert((e.0, e.1), e.2), e.0);
    assert(after == (prefix_map(l, i + 1), l[i].0));
    if tail.len() > 0 {
        lemma_merge_concat(m, e.0, line, tail);
        lemma_merge_line(after.0, after.1, Seq::<char>::empty());
        assert(Seq::<char>::empty().push('\n') =~= tail);
        lemma_trim_blank(Seq::<char>::empty());
    } else {
        assert(line + tail =~= line);
    }
    assert(merge_text(m, e.0, line + tail) == after);
    // the header (if any) switches to the entry's section
    if head.len() > 0 {
        let hline = seq!['['] + e.0 + seq![']'];
        assert(head =~= hline.push('\n'));
        assert(no_char(hline, '\n')) by {
            assert forall|j: int| 0 <= j < hline.len() implies hline[j] != '\n' by {
                if 0 < j < hline.len() - 1 {
                    assert(hline[j] == e.0[j - 1]);
                }
            }
        }
        lemma_merge_line(m, sec, hline);
        lemma_apply_header(m, sec, e.0);
        lemma_merge_concat(m, sec, head, line + tail);
        assert(head + (line + tail) =~= entry_piece(l, i));
    } else {
        assert(sec == e.0) by {
            if i > 0 && l[i - 1].0 != e.0 {
                assert(e.0.len() == 0);
                lemma_nothing_below_empty(l[i - 1].0);
                assert(key_lt((l[i - 1].0, l[i - 1].1), (l[i].0, l[i].1)));
            }
            if i == 0 {
                assert(e.0 =~= Seq::<char>::empty());
            }
        }
        assert(head + (line + tail) =~= entry_piece(l, i));
        assert(head + (line + tail) =~= line + tail);
    }
}

proof fn lemma_render_rest(l: Seq<(Seq<char>, Seq<char>, Seq<char>)>, i: int)
    requires
        0 <= i <= l.len(),
        forall|a: int, b: int| 0 <= a < b < l.len() ==> key_lt((#[trigger] l[a].0, l[a].1), (#[trigger] l[b].0, l[b].1)),
        forall|j: int| 0 <= j < l.len() ==> writable(#[trigger] l[j].0, l[j].1, l[j].2),
    ensures
        merge_text(
            prefix_map(l, i),
            if i == 0 { Seq::<char>::empty() } else { l[i - 1].0 },
            render_from(l.skip(i), if i == 0 { None } else { Some(l[i - 1].0) }),
        ).0 == prefix_map(l, l.len() as int),
    decreases l.len() - i,
{
    if i == l.len() {
        assert(l.skip(i) =~= Seq::<(Seq<char>, Seq<char>, Seq<char>)>::empty());
    } else {
        lemma_render_step(l, i);
        lemma_piece(l, i);
        let piece = entry_piece(l, i);
        assert(piece.len() > 0 && piece.last() == '\n');
        lemma_merge_concat(
            prefix_map(l, i),
            if i == 0 { Seq::<char>::empty() } else { l[i - 1].0 },
            piece,
            render_from(l.skip(i + 1), Some(l[i].0)),
        );
        lemma_render_rest(l, i + 1);
    }
}

/// Writing a store as INI text and reading that text into an empty store gives
/// back the same settings, provided each setting can be written on one line.
pub proof fn lemma_text_round_trip(ini: &Ini)
    requires
        ini.wf(),
        all_writable(ini@),
    ensures
        merge_text(Map::empty(), Seq::empty(), render(ini.listing())).0 == ini@,
{
    ini.lemma_listing();
    let l = ini.listing();
    assert forall|j: int| 0 <= j < l.len() implies writable(#[trigger] l[j].0, l[j].1, l[j].2) by {
        assert(ini@.dom().contains((l[j].0, l[j].1)));
    }
    assert(l.skip(0) =~= l);
    lemma_render_rest(l, 0);
    lemma_prefix_map(l, l.len() as int);
    let pm = prefix_map(l, l.len() as int);
    assert forall|k: IniKey| pm.dom().contains(k) <==> ini@.dom().contains(k) by {
        if ini@.dom().contains(k) {
            let j = choose|j: int| 0 <= j < l.len() && (#[trigger] l[j].0, l[j].1) == k;
            assert(key_of(l[j]) == k);
        }
        if pm.dom().contains(k) {
            let j = choose|j: int| 0 <= j < l.len() && #[trigger] key_of(l[j]) == k;
            assert(ini@.dom().contains((l[j].0, l[j].1)));
        }
    }
    assert forall|k: IniKey| #[trigger] pm.dom().contains(k) implies pm[k] == ini@[k] by {
        let j = choose|j: int| 0 <= j < l.len() && #[trigger] key_of(l[j]) == k;
        assert(pm[key_of(l[j])] == l[j].2);
        assert(ini@[(l[j].0, l[j].1)] == l[j].2);
    }
    assert(pm =~= ini@);
}


/// `trim(x)` is the part of `x` between its leading and trailing whitespace.
pub proof fn lemma_trim_range(x: Seq<char>) -> (r: (int, int))
    ensures
        0 <= r.0 <= r.1 <= x.len(),
        trim(x) == x.subrange(r.0, r.1),
        forall|j: int| 0 <= j < r.0 ==> is_ws(#[trigger] x[j]),
        forall|j: int| r.1 <= j < x.len() ==> is_ws(#[trigger] x[j]),
        r.0 < r.1 ==> !is_ws(x[r.0]) && !is_ws(x[r.1 - 1]),
{
    crate::text::lemma_ws_prefix_len_bound(x);
    let a = ws_prefix_len(x) as int;
    let y = x.skip(a);
    crate::text::lemma_ws_suffix_len_bound(y);
    let b = x.len() - ws_suffix_len(y);
    assert(y.take(y.len() - ws_suffix_len(y)) =~= x.subrange(a, b));
    assert forall|j: int| b <= j < x.len() implies is_ws(#[trigger] x[j]) by {
        assert(x[j] == y[j - a]);
    }
    if a < b {
        assert(x[b - 1] == y[b - 1 - a]);
    }
    (a, b)
}

proof fn lemma_subrange_no_char(x: Seq<char>, a: int, b: int, c: char)
    requires
        0 <= a <= b <= x.len(),
        no_char(x, c),
    ensures
        no_char(x.subrange(a, b), c),
{
    assert forall|j: int| 0 <= j < b - a implies x.subrange(a, b)[j] != c by {
        assert(x.subrange(a, b)[j] == x[a + j]);
    }
}

#[verifier::rlimit(60)]
proof fn lemma_apply_keeps_writable(m: Map<IniKey, Seq<char>>, sec: Seq<char>, line: Seq<char>)
    requires
        all_writable(m),
        clean(sec),
        no_char(sec, '\n'),
        no_char(line, '\n'),
    ensures
        all_writable(apply_line(m, sec, line).0),
        clean(apply_line(m, sec, line).1),
        no_char(apply_line(m, sec, line).1, '\n'),
{
    let (a, b) = lemma_trim_range(line);
    let t = trim(line);
    lemma_subrange_no_char(line, a, b, '\n');
    if t.len() == 0 || t[0] == '#' || t[0] == ';' {
    } else if t[0] == '[' && t.last() == ']' {
        let inner = t.subrange(1, t.len() - 1);
        lemma_subrange_no_char(t, 1, t.len() - 1, '\n');
        let (c, d) = lemma_trim_range(inner);
        lemma_subrange_no_char(inner, c, d, '\n');
    } else {
        match find(t, seq!['=']) {
            Some(i) => {
                lemma_find_from_props(t, seq!['='], 0);
                assert forall|j: int| 0 <= j < i implies t[j] != '=' by {
                    if t[j] == '=' {
                        assert(t.subrange(j, j + 1) =~= seq!['=']);
                        assert(matches_at(t, j, seq!['=']));
                    }
                }
                let kp = t.take(i);
                let vp = t.skip(i + 1);
                let (c, d) = lemma_trim_range(kp);
                let (e, f) = lemma_trim_range(vp);
                let key = trim(kp);
                let value = trim(vp);
                lemma_subrange_no_char(t, 0, i, '\n');
                lemma_subrange_no_char(t, i + 1, t.len() as int, '\n');
                assert(kp =~= t.subrange(0, i));
                assert(vp =~= t.subrange(i + 1, t.len() as int));
                lemma_subrange_no_char(kp, c, d, '\n');
                lemma_subrange_no_char(vp, e, f, '\n');
                assert(no_char(kp, '=')) by {
                    assert forall|j: int| 0 <= j < kp.len() implies kp[j] != '=' by {
                        assert(kp[j] == t[j]);
                    }
                }
                lemma_subrange_no_char(kp, c, d, '=');
                if key.len() > 0 {
                    assert(!is_ws(t[0]));
                    assert(kp[0] == t[0]);
                    assert(c == 0);
                    assert(key[0] == t[0]);
                }
                if key.len() > 0 && value.len() > 0 {
                    assert(!is_ws(t.last()));
                    assert(vp.last() == t.last());
                    assert(f == vp.len());
                    assert(value.last() == t.last());
                }
                assert(writable(sec, key, value));
                let m2 = m.insert((sec, key), value);
                assert forall|k: IniKey| #[trigger] m2.dom().contains(k) implies writable(k.0, k.1, m2[k]) by {
                    if k != (sec, key) {
                        assert(m.dom().contains(k));
                    }
                }
            },
            None => {},
        }
    }
}

/// Reading any text into a store whose settings are all writable leaves them all writable.
pub proof fn lemma_merge_keeps_writable(m: Map<IniKey, Seq<char>>, sec: Seq<char>, t: Seq<char>)
    requires
        all_writable(m),
        clean(sec),
        no_char(sec, '\n'),
    ensures
        all_writable(merge_text(m, sec, t).0),
        clean(merge_text(m, sec, t).1),
        no_char(merge_text(m, sec, t).1, '\n'),
    decreases t.len(),
{
    if t.len() > 0 {
        lemma_find_from_props(t, seq!['\n'], 0);
        let i = match find(t, seq!['\n']) {
            Some(i) => i,
            None => t.len() as int,
        };
        assert(no_char(t.take(i), '\n')) by {
            assert forall|j: int| 0 <= j < i implies t.take(i)[j] != '\n' by {
                if t[j] == '\n' {
                    assert(t.subrange(j, j + 1) =~= seq!['\n']);
                    assert(matches_at(t, j, seq!['\n']));
                }
            }
        }
        lemma_apply_keeps_writable(m, sec, t.take(i));
        let r = apply_line(m, sec, t.take(i));
        if i < t.len() {
            lemma_merge_keeps_writable(r.0, r.1, t.skip(i + 1));
        }
    }
}

} // verus!
