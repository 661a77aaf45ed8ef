//! Character-level text utilities with their mathematical models.
//!
//! Text is modelled as `Seq<char>`. Executable helpers work on `Vec<char>`
//! and character ranges inside it.
use vstd::prelude::*;

verus! {

/// Appends one character to a string.
/// Trusted: `String::push` appends the character at the end (std documentation).
#[verifier::external_body]
pub(crate) fn push_char(s: &mut String, c: char)
    ensures
        final(s)@ == old(s)@.push(c),
{
    s.push(c);
}

/// The characters of `s`, in order.
pub fn chars_of(s: &str) -> (v: Vec<char>)
    ensures
        v@ == s@,
{
    let mut v: Vec<char> = Vec::new();
    for c in it: s.chars()
        invariant
            v@ == it.seq().take(it.index() as int),
    {
        v.push(c);
    }
    v
}

/// A string holding `v[lo..hi]`.
pub fn string_of(v: &Vec<char>, lo: usize, hi: usize) -> (s: String)
    requires
        lo <= hi <= v@.len(),
    ensures
        s@ == v@.subrange(lo as int, hi as int),
{
    let mut s = String::new();
    let mut i = lo;
    while i < hi
        invariant
            lo <= i <= hi <= v@.len(),
            s@ == v@.subrange(lo as int, i as int),
        decreases hi - i,
    {
        push_char(&mut s, v[i]);
        i = i + 1;
        assert(s@ =~= v@.subrange(lo as int, i as int));
    }
    s
}

/// Appends `v[lo..hi]` to `s`.
pub fn push_range(s: &mut String, v: &Vec<char>, lo: usize, hi: usize)
    requires
        lo <= hi <= v@.len(),
    ensures
        final(s)@ == old(s)@ + v@.subrange(lo as int, hi as int),
{
    let mut i = lo;
    while i < hi
        invariant
            lo <= i <= hi <= v@.len(),
            s@ == old(s)@ + v@.subrange(lo as int, i as int),
        decreases hi - i,
    {
        push_char(s, v[i]);
        i = i + 1;
        assert(s@ =~= old(s)@ + v@.subrange(lo as int, i as int));
    }
}

/// Appends all of `t` to `s`.
pub fn push_str(s: &mut String, t: &str)
    ensures
        final(s)@ == old(s)@ + t@,
{
    let v = chars_of(t);
    push_range(s, &v, 0, v.len());
    assert(v@.subrange(0, v@.len() as int) =~= v@);
}

// ---------------------------------------------------------------- whitespace

/// Unicode `White_Space`, the set that `char::is_whitespace` tests.
pub open spec fn is_ws(c: char) -> bool {
    ||| ('\u{9}' <= c && c <= '\u{d}')
    ||| c == ' '
    ||| c == '\u{85}'
    ||| c == '\u{a0}'
    ||| c == '\u{1680}'
    ||| ('\u{2000}' <= c && c <= '\u{200a}')
    ||| c == '\u{2028}'
    ||| c == '\u{2029}'
    ||| c == '\u{202f}'
    ||| c == '\u{205f}'
    ||| c == '\u{3000}'
}

pub fn is_whitespace(c: char) -> (b: bool)
    ensures
        b == is_ws(c),
{
    ('\u{9}' <= c && c <= '\u{d}') || c == ' ' || c == '\u{85}' || c == '\u{a0}' || c
        == '\u{1680}' || ('\u{2000}' <= c && c <= '\u{200a}') || c == '\u{2028}' || c
        == '\u{2029}' || c == '\u{202f}' || c == '\u{205f}' || c == '\u{3000}'
}

/// Number of leading whitespace characters.
pub open spec fn ws_prefix_len(s: Seq<char>) -> nat
    decreases s.len(),
{
    if s.len() > 0 && is_ws(s[0]) {
        1 + ws_prefix_len(s.drop_first())
    } else {
        0
    }
}

/// Number of trailing whitespace characters.
pub open spec fn ws_suffix_len(s: Seq<char>) -> nat
    decreases s.len(),
{
    if s.len() > 0 && is_ws(s.last()) {
        1 + ws_suffix_len(s.drop_last())
    } else {
        0
    }
}

/// `str::trim_start`: `s` without its leading whitespace.
pub open spec fn trim_start(s: Seq<char>) -> Seq<char> {
    s.skip(ws_prefix_len(s) as int)
}

/// `str::trim_end`: `s` without its trailing whitespace.
pub open spec fn trim_end(s: Seq<char>) -> Seq<char> {
    s.take(s.len() - ws_suffix_len(s))
}

/// `str::trim`: `s` without leading and trailing whitespace.
pub open spec fn trim(s: Seq<char>) -> Seq<char> {
    trim_end(trim_start(s))
}

pub proof fn lemma_ws_prefix_len_bound(s: Seq<char>)
    ensures
        ws_prefix_len(s) <= s.len(),
        forall|j: int| 0 <= j < ws_prefix_len(s) ==> is_ws(#[trigger] s[j]),
        ws_prefix_len(s) < s.len() ==> !is_ws(s[ws_prefix_len(s) as int]),
    decreases s.len(),
{
    if s.len() > 0 && is_ws(s[0]) {
        lemma_ws_prefix_len_bound(s.drop_first());
        assert forall|j: int| 0 <= j < ws_prefix_len(s) implies is_ws(#[trigger] s[j]) by {
            if j > 0 {
                assert(s[j] == s.drop_first()[j - 1]);
            }
        }
    }
}

pub proof fn lemma_ws_suffix_len_bound(s: Seq<char>)
    ensures
        ws_suffix_len(s) <= s.len(),
        forall|j: int| s.len() - ws_suffix_len(s) <= j < s.len() ==> is_ws(#[trigger] s[j]),
        ws_suffix_len(s) < s.len() ==> !is_ws(s[s.len() - ws_suffix_len(s) - 1]),
    decreases s.len(),
{
    if s.len() > 0 && is_ws(s.last()) {
        lemma_ws_suffix_len_bound(s.drop_last());
        assert forall|j: int|
            s.len() - ws_suffix_len(s) <= j < s.len() implies is_ws(#[trigger] s[j]) by {
            if j < s.len() - 1 {
                assert(s[j] == s.drop_last()[j]);
            }
        }
    }
}

/// Characterises the leading-whitespace count by the position of the first other character.
pub proof fn lemma_ws_prefix_len_at(s: Seq<char>, k: int)
    requires
        0 <= k <= s.len(),
        forall|j: int| 0 <= j < k ==> is_ws(#[trigger] s[j]),
        k < s.len() ==> !is_ws(s[k]),
    ensures
        ws_prefix_len(s) == k,
    decreases s.len(),
{
    if k > 0 {
        assert(is_ws(s[0]));
        assert forall|j: int| 0 <= j < k - 1 implies is_ws(#[trigger] s.drop_first()[j]) by {
            assert(s.drop_first()[j] == s[j + 1]);
        }
        lemma_ws_prefix_len_at(s.drop_first(), k - 1);
    }
}

/// Characterises the trailing-whitespace count by the position of the last other character.
pub proof fn lemma_ws_suffix_len_at(s: Seq<char>, k: int)
    requires
        0 <= k <= s.len(),
        forall|j: int| s.len() - k <= j < s.len() ==> is_ws(#[trigger] s[j]),
        k < s.len() ==> !is_ws(s[s.len() - k - 1]),
    ensures
        ws_suffix_len(s) == k,
    decreases s.len(),
{
    if k > 0 {
        assert(is_ws(s.last()));
        assert forall|j: int|
            s.drop_last().len() - (k - 1) <= j < s.drop_last().len() implies is_ws(
            #[trigger] s.drop_last()[j],
        ) by {
            assert(s.drop_last()[j] == s[j]);
        }
        lemma_ws_suffix_len_at(s.drop_last(), k - 1);
    }
}

/// The range of `v[lo..hi]` that remains after `str::trim`.
pub fn trim_range(v: &Vec<char>, lo: usize, hi: usize) -> (r: (usize, usize))
    requires
        lo <= hi <= v@.len(),
    ensures
        lo <= r.0 <= r.1 <= hi,
        v@.subrange(r.0 as int, r.1 as int) == trim(v@.subrange(lo as int, hi as int)),
{
    let ghost s = v@.subrange(lo as int, hi as int);
    let mut a = lo;
    while a < hi && is_whitespace(v[a])
        invariant
            lo <= a <= hi <= v@.len(),
            forall|j: int| lo <= j < a ==> is_ws(#[trigger] v@[j]),
        decreases hi - a,
    {
        a = a + 1;
    }
    proof {
        assert forall|j: int| 0 <= j < a - lo implies is_ws(#[trigger] s[j]) by {
            assert(s[j] == v@[lo + j]);
        }
        lemma_ws_prefix_len_at(s, a - lo);
    }
    let ghost t = trim_start(s);
    assert(t =~= v@.subrange(a as int, hi as int));
    let mut b = hi;
    while b > a && is_whitespace(v[b - 1])
        invariant
            lo <= a <= b <= hi <= v@.len(),
            forall|j: int| b <= j < hi ==> is_ws(#[trigger] v@[j]),
        decreases b - a,
    {
        b = b - 1;
    }
    proof {
        assert forall|j: int| t.len() - (hi - b) <= j < t.len() implies is_ws(#[trigger] t[j]) by {
            assert(t[j] == v@[a + j]);
        }
        if hi - b < t.len() {
            assert(t[t.len() - (hi - b) - 1] == v@[b - 1]);
        }
        lemma_ws_suffix_len_at(t, hi - b);
        assert(trim_end(t) =~= v@.subrange(a as int, b as int));
    }
    (a, b)
}

/// `str::trim` as a new string.
pub fn trimmed(s: &str) -> (r: String)
    ensures
        r@ == trim(s@),
{
    let v = chars_of(s);
    let (a, b) = trim_range(&v, 0, v.len());
    assert(v@.subrange(0, v@.len() as int) =~= v@);
    string_of(&v, a, b)
}


// ---------------------------------------------------------------- matching

/// `p` occurs in `s` starting at `i`.
pub open spec fn matches_at(s: Seq<char>, i: int, p: Seq<char>) -> bool {
    0 <= i && i + p.len() <= s.len() && s.subrange(i, i + p.len()) == p
}

/// First start index `>= i` at which `p` occurs in `s`.
pub open spec fn find_from(s: Seq<char>, p: Seq<char>, i: int) -> Option<int>
    decreases s.len() + 1 - i,
{
    if i < 0 || i + p.len() > s.len() {
        None
    } else if matches_at(s, i, p) {
        Some(i)
    } else {
        find_from(s, p, i + 1)
    }
}

/// `str::find`: the first occurrence of `p` in `s` (as a character index).
pub open spec fn find(s: Seq<char>, p: Seq<char>) -> Option<int> {
    find_from(s, p, 0)
}

/// Last start index `<= i` at which `p` occurs in `s`.
pub open spec fn rfind_to(s: Seq<char>, p: Seq<char>, i: int) -> Option<int>
    decreases i + 1,
{
    if i < 0 {
        None
    } else if matches_at(s, i, p) {
        Some(i)
    } else {
        rfind_to(s, p, i - 1)
    }
}

/// `str::rfind`: the last occurrence of `p` in `s` (as a character index).
pub open spec fn rfind(s: Seq<char>, p: Seq<char>) -> Option<int> {
    rfind_to(s, p, s.len() - p.len())
}

/// `str::starts_with`.
pub open spec fn starts_with(s: Seq<char>, p: Seq<char>) -> bool {
    matches_at(s, 0, p)
}

/// `str::ends_with`.
pub open spec fn ends_with(s: Seq<char>, p: Seq<char>) -> bool {
    matches_at(s, s.len() - p.len(), p)
}

pub proof fn lemma_find_from_props(s: Seq<char>, p: Seq<char>, i: int)
    requires
        0 <= i,
    ensures
        find_from(s, p, i) matches Some(k) ==> i <= k && matches_at(s, k, p) && forall|j: int|
            i <= j < k ==> !matches_at(s, j, p),
        find_from(s, p, i) is None ==> forall|j: int| i <= j ==> !matches_at(s, j, p),
    decreases s.len() + 1 - i,
{
    if i + p.len() > s.len() {
    } else if matches_at(s, i, p) {
    } else {
        lemma_find_from_props(s, p, i + 1);
    }
}

/// Searching a suffix of `s` is searching `s` from where the suffix starts.
pub proof fn lemma_find_shift(s: Seq<char>, p: Seq<char>, from: int)
    requires
        0 <= from <= s.len(),
    ensures
        find(s.subrange(from, s.len() as int), p) matches Some(j) ==> find_from(s, p, from) == Some(
            j + from,
        ),
        find(s.subrange(from, s.len() as int), p) is None ==> find_from(s, p, from) is None,
{
    lemma_find_shift_from(s, p, from, 0);
}

proof fn lemma_find_shift_from(s: Seq<char>, p: Seq<char>, from: int, k: int)
    requires
        0 <= from <= s.len(),
        0 <= k,
    ensures
        find_from(s.subrange(from, s.len() as int), p, k) matches Some(j) ==> find_from(s, p, from + k)
            == Some(j + from),
        find_from(s.subrange(from, s.len() as int), p, k) is None ==> find_from(s, p, from + k) is None,
    decreases s.len() + 1 - from - k,
{
    let t = s.subrange(from, s.len() as int);
    if k + p.len() > t.len() {
    } else {
        assert(t.subrange(k, k + p.len()) =~= s.subrange(from + k, from + k + p.len()));
        if !matches_at(t, k, p) {
            lemma_find_shift_from(s, p, from, k + 1);
        }
    }
}

pub proof fn lemma_rfind_to_props(s: Seq<char>, p: Seq<char>, i: int)
    ensures
        rfind_to(s, p, i) matches Some(k) ==> k <= i && matches_at(s, k, p) && forall|j: int|
            k < j <= i ==> !matches_at(s, j, p),
        rfind_to(s, p, i) is None ==> forall|j: int| j <= i ==> !matches_at(s, j, p),
    decreases i + 1,
{
    if i >= 0 && !matches_at(s, i, p) {
        lemma_rfind_to_props(s, p, i - 1);
    }
}

/// Whether `v[i..i+|p|]` equals `p`.
pub fn matches_at_exec(v: &Vec<char>, i: usize, hi: usize, p: &Vec<char>) -> (b: bool)
    requires
        i <= hi <= v@.len(),
    ensures
        b == matches_at(v@.subrange(0, hi as int), i as int, p@),
{
    let ghost s = v@.subrange(0, hi as int);
    if p.len() > hi - i {
        return false;
    }
    let mut k: usize = 0;
    while k < p.len()
        invariant
            s == v@.subrange(0, hi as int),
            i + p@.len() <= hi <= v@.len(),
            k <= p@.len(),
            forall|j: int| 0 <= j < k ==> v@[i + j] == p@[j],
        decreases p@.len() - k,
    {
        if v[i + k] != p[k] {
            assert(s.subrange(i as int, i + p@.len())[k as int] != p@[k as int]);
            return false;
        }
        k = k + 1;
    }
    assert(s.subrange(i as int, i + p@.len()) =~= p@);
    true
}

/// First occurrence of `p` in `v[lo..hi]`, as an index into `v`.
pub fn find_in(v: &Vec<char>, lo: usize, hi: usize, p: &Vec<char>) -> (r: Option<usize>)
    requires
        lo <= hi <= v@.len(),
    ensures
        r matches Some(k) ==> lo <= k && k + p@.len() <= hi && find(
            v@.subrange(lo as int, hi as int),
            p@,
        ) == Some(k - lo),
        r is None ==> find(v@.subrange(lo as int, hi as int), p@) is None,
{
    let ghost s = v@.subrange(lo as int, hi as int);
    let mut i = lo;
    while p.len() <= hi - i
        invariant
            s == v@.subrange(lo as int, hi as int),
            lo <= i <= hi,
            hi <= v@.len(),
            find(s, p@) == find_from(s, p@, i - lo),
        decreases hi - i,
    {
        assert(s.subrange(i - lo, i - lo + p@.len()) =~= v@.subrange(0, hi as int).subrange(
            i as int,
            i + p@.len(),
        ));
        if matches_at_exec(v, i, hi, p) {
            return Some(i);
        }
        if i == hi {
            assert(find_from(s, p@, i - lo + 1) is None);
            return None;
        }
        i = i + 1;
    }
    None
}

/// Last occurrence of `p` in `v[lo..hi]`, as an index into `v`.
pub fn rfind_in(v: &Vec<char>, lo: usize, hi: usize, p: &Vec<char>) -> (r: Option<usize>)
    requires
        lo <= hi <= v@.len(),
    ensures
        r matches Some(k) ==> lo <= k && k + p@.len() <= hi && rfind(
            v@.subrange(lo as int, hi as int),
            p@,
        ) == Some(k - lo),
        r is None ==> rfind(v@.subrange(lo as int, hi as int), p@) is None,
{
    let ghost s = v@.subrange(lo as int, hi as int);
    if p.len() > hi - lo {
        return None;
    }
    let mut j = hi - p.len();
    loop
        invariant
            s == v@.subrange(lo as int, hi as int),
            lo <= j <= hi - p@.len(),
            lo <= hi <= v@.len(),
            p@.len() <= hi - lo,
            rfind(s, p@) == rfind_to(s, p@, j - lo),
        decreases j,
    {
        assert(s.subrange(j - lo, j - lo + p@.len()) =~= v@.subrange(0, hi as int).subrange(
            j as int,
            j + p@.len(),
        ));
        if matches_at_exec(v, j, hi, p) {
            return Some(j);
        }
        if j == lo {
            assert(rfind_to(s, p@, -1) is None);
            return None;
        }
        j = j - 1;
    }
}

/// Whether `v[lo..hi]` starts with `p`.
pub fn starts_with_in(v: &Vec<char>, lo: usize, hi: usize, p: &Vec<char>) -> (b: bool)
    requires
        lo <= hi <= v@.len(),
    ensures
        b == starts_with(v@.subrange(lo as int, hi as int), p@),
{
    let b = matches_at_exec(v, lo, hi, p);
    proof {
        let s = v@.subrange(lo as int, hi as int);
        if lo + p@.len() <= hi {
            assert(s.subrange(0, p@.len() as int) =~= v@.subrange(0, hi as int).subrange(
                lo as int,
                lo + p@.len(),
            ));
        }
    }
    b
}

/// Whether `v[lo..hi]` ends with `p`.
pub fn ends_with_in(v: &Vec<char>, lo: usize, hi: usize, p: &Vec<char>) -> (b: bool)
    requires
        lo <= hi <= v@.len(),
    ensures
        b == ends_with(v@.subrange(lo as int, hi as int), p@),
{
    if p.len() > hi - lo {
        return false;
    }
    let b = matches_at_exec(v, hi - p.len(), hi, p);
    proof {
        let s = v@.subrange(lo as int, hi as int);
        assert(s.subrange(s.len() - p@.len(), s.len() as int) =~= v@.subrange(
            0,
            hi as int,
        ).subrange(hi - p@.len(), hi as int));
    }
    b
}


/// `str::trim_start_matches`: `s` with every leading repetition of `p` removed.
pub open spec fn strip_all(s: Seq<char>, p: Seq<char>) -> Seq<char>
    decreases s.len(),
{
    if p.len() > 0 && starts_with(s, p) {
        strip_all(s.skip(p.len() as int), p)
    } else {
        s
    }
}

/// `s.trim_start_matches(p)`.
pub fn strip_all_str(s: &str, p: &str) -> (r: String)
    ensures
        r@ == strip_all(s@, p@),
{
    let v = chars_of(s);
    let pv = chars_of(p);
    let mut i: usize = 0;
    assert(v@.skip(0) =~= v@);
    while pv.len() > 0 && starts_with_in(&v, i, v.len(), &pv)
        invariant
            i <= v@.len(),
            v@ == s@,
            pv@ == p@,
            strip_all(s@, p@) == strip_all(v@.skip(i as int), p@),
        decreases v@.len() - i,
    {
        assert(v@.subrange(i as int, v@.len() as int) =~= v@.skip(i as int));
        assert(v@.skip(i as int).skip(pv@.len() as int) =~= v@.skip(i + pv@.len()));
        i = i + pv.len();
    }
    assert(v@.subrange(i as int, v@.len() as int) =~= v@.skip(i as int));
    string_of(&v, i, v.len())
}

/// `s.strip_prefix(p)`.
pub fn strip_prefix_str(s: &str, p: &str) -> (r: Option<String>)
    ensures
        r matches Some(t) ==> starts_with(s@, p@) && t@ == s@.skip(p@.len() as int),
        r is None ==> !starts_with(s@, p@),
{
    let v = chars_of(s);
    let pv = chars_of(p);
    assert(v@.subrange(0, v@.len() as int) =~= v@);
    if starts_with_in(&v, 0, v.len(), &pv) {
        let t = string_of(&v, pv.len(), v.len());
        assert(t@ =~= s@.skip(p@.len() as int));
        Some(t)
    } else {
        None
    }
}

/// Whether `s` starts with `p`.
pub fn starts_with_str(s: &str, p: &str) -> (b: bool)
    ensures
        b == starts_with(s@, p@),
{
    let v = chars_of(s);
    let pv = chars_of(p);
    assert(v@.subrange(0, v@.len() as int) =~= v@);
    starts_with_in(&v, 0, v.len(), &pv)
}

/// Whether `a` and `b` hold the same text.
pub fn same_text(a: &str, b: &str) -> (r: bool)
    ensures
        r == (a@ == b@),
{
    let av = chars_of(a);
    let bv = chars_of(b);
    compare_chars(&av, &bv) == 0
}

// ---------------------------------------------------------------- replacing

/// `str::replace` for a non-empty pattern: every non-overlapping occurrence of
/// `p`, scanning left to right, is replaced by `r`.
pub open spec fn replace(s: Seq<char>, p: Seq<char>, r: Seq<char>) -> Seq<char>
    decreases s.len(),
{
    if p.len() == 0 || s.len() == 0 {
        s
    } else if matches_at(s, 0, p) {
        r + replace(s.skip(p.len() as int), p, r)
    } else {
        seq![s[0]] + replace(s.drop_first(), p, r)
    }
}

/// `v[lo..hi]` with every occurrence of `p` replaced by `r`.
pub fn replace_in(v: &Vec<char>, lo: usize, hi: usize, p: &Vec<char>, r: &Vec<char>) -> (out:
    Vec<char>)
    requires
        lo <= hi <= v@.len(),
        p@.len() > 0,
    ensures
        out@ == replace(v@.subrange(lo as int, hi as int), p@, r@),
{
    let ghost s = v@.subrange(lo as int, hi as int);
    let mut out: Vec<char> = Vec::new();
    let mut i = lo;
    while i < hi
        invariant
            s == v@.subrange(lo as int, hi as int),
            lo <= i <= hi <= v@.len(),
            p@.len() > 0,
            replace(s, p@, r@) == out@ + replace(v@.subrange(i as int, hi as int), p@, r@),
        decreases hi - i,
    {
        let ghost rest = v@.subrange(i as int, hi as int);
        let m = matches_at_exec(v, i, hi, p);
        if m {
            assert(rest.subrange(0, p@.len() as int) =~= v@.subrange(0, hi as int).subrange(
                i as int,
                i + p@.len(),
            ));
            assert(rest.skip(p@.len() as int) =~= v@.subrange(i + p@.len(), hi as int));
            let mut k: usize = 0;
            let ghost out0 = out@;
            while k < r.len()
                invariant
                    k <= r@.len(),
                    out@ == out0 + r@.take(k as int),
                decreases r@.len() - k,
            {
                out.push(r[k]);
                k = k + 1;
                assert(out@ =~= out0 + r@.take(k as int));
            }
            assert(r@.take(r@.len() as int) =~= r@);
            i = i + p.len();
        } else {
            if p.len() <= hi - i {
                assert(rest.subrange(0, p@.len() as int) =~= v@.subrange(0, hi as int).subrange(
                    i as int,
                    i + p@.len(),
                ));
            }
            assert(rest.drop_first() =~= v@.subrange(i + 1, hi as int));
            out.push(v[i]);
            i = i + 1;
        }
    }
    assert(v@.subrange(hi as int, hi as int) =~= Seq::<char>::empty());
    assert(out@ + Seq::<char>::empty() =~= out@);
    out
}

/// `s.replace(p, r)` for a non-empty pattern.
pub fn replace_str(s: &str, p: &str, r: &str) -> (out: String)
    requires
        p@.len() > 0,
    ensures
        out@ == replace(s@, p@, r@),
{
    let v = chars_of(s);
    let pv = chars_of(p);
    let rv = chars_of(r);
    let o = replace_in(&v, 0, v.len(), &pv, &rv);
    assert(v@.subrange(0, v@.len() as int) =~= v@);
    string_of(&o, 0, o.len())
}

// ---------------------------------------------------------------- splitting

/// `str::split` on a single character: the pieces between occurrences of `c`.
pub open spec fn split_char(s: Seq<char>, c: char) -> Seq<Seq<char>>
    decreases s.len(),
{
    if s.len() == 0 {
        seq![Seq::<char>::empty()]
    } else {
        let prev = split_char(s.drop_last(), c);
        if s.last() == c {
            prev.push(Seq::<char>::empty())
        } else {
            prev.update(prev.len() - 1, prev.last().push(s.last()))
        }
    }
}

pub proof fn lemma_split_char_nonempty(s: Seq<char>, c: char)
    ensures
        split_char(s, c).len() >= 1,
    decreases s.len(),
{
    if s.len() > 0 {
        lemma_split_char_nonempty(s.drop_last(), c);
    }
}

/// The pieces of `v[lo..hi]` between occurrences of `c`, as index ranges into `v`.
pub fn split_ranges(v: &Vec<char>, lo: usize, hi: usize, c: char) -> (r: Vec<(usize, usize)>)
    requires
        lo <= hi <= v@.len(),
    ensures
        r@.len() == split_char(v@.subrange(lo as int, hi as int), c).len(),
        forall|k: int|
            0 <= k < r@.len() ==> lo <= (#[trigger] r@[k]).0 <= r@[k].1 <= hi && v@.subrange(
                r@[k].0 as int,
                r@[k].1 as int,
            ) == split_char(v@.subrange(lo as int, hi as int), c)[k],
{
    let mut r: Vec<(usize, usize)> = Vec::new();
    let mut start = lo;
    let mut i = lo;
    while i < hi
        invariant
            lo <= start <= i <= hi <= v@.len(),
            split_char(v@.subrange(lo as int, i as int), c).len() == r@.len() + 1,
            forall|k: int|
                0 <= k < r@.len() ==> lo <= (#[trigger] r@[k]).0 <= r@[k].1 <= hi && v@.subrange(
                    r@[k].0 as int,
                    r@[k].1 as int,
                ) == split_char(v@.subrange(lo as int, i as int), c)[k],
            split_char(v@.subrange(lo as int, i as int), c).last() == v@.subrange(
                start as int,
                i as int,
            ),
        decreases hi - i,
    {
        let ghost prefix = v@.subrange(lo as int, i as int);
        let ghost next = v@.subrange(lo as int, i + 1);
        assert(next.drop_last() =~= prefix);
        assert(next.last() == v@[i as int]);
        if v[i] == c {
            r.push((start, i));
            start = i + 1;
            assert(v@.subrange(start as int, i + 1) =~= Seq::<char>::empty());
        } else {
            assert(v@.subrange(start as int, i + 1) =~= v@.subrange(start as int, i as int).push(
                v@[i as int],
            ));
        }
        i = i + 1;
    }
    r.push((start, hi));
    r
}

/// The pieces of `s` between whitespace characters.
pub open spec fn split_ws(s: Seq<char>) -> Seq<Seq<char>>
    decreases s.len(),
{
    if s.len() == 0 {
        seq![Seq::<char>::empty()]
    } else {
        let prev = split_ws(s.drop_last());
        if is_ws(s.last()) {
            prev.push(Seq::<char>::empty())
        } else {
            prev.update(prev.len() - 1, prev.last().push(s.last()))
        }
    }
}

/// The non-empty pieces, in order.
pub open spec fn nonempty_only(p: Seq<Seq<char>>) -> Seq<Seq<char>>
    decreases p.len(),
{
    if p.len() == 0 {
        Seq::empty()
    } else if p.last().len() > 0 {
        nonempty_only(p.drop_last()).push(p.last())
    } else {
        nonempty_only(p.drop_last())
    }
}

/// `str::split_whitespace`: the maximal runs of non-whitespace characters.
pub open spec fn words(s: Seq<char>) -> Seq<Seq<char>> {
    nonempty_only(split_ws(s))
}

/// The pieces joined with `sep` between them (`[T]::join`).
pub open spec fn join(p: Seq<Seq<char>>, sep: Seq<char>) -> Seq<char>
    decreases p.len(),
{
    if p.len() == 0 {
        Seq::empty()
    } else if p.len() == 1 {
        p[0]
    } else {
        join(p.drop_last(), sep) + sep + p.last()
    }
}

/// Trimmed, non-blank pieces, in order.
pub open spec fn non_blank_pieces(pieces: Seq<Seq<char>>) -> Seq<Seq<char>>
    decreases pieces.len(),
{
    if pieces.len() == 0 {
        Seq::empty()
    } else {
        let sub = non_blank_pieces(pieces.drop_last());
        let t = trim(pieces.last());
        if t.len() > 0 {
            sub.push(t)
        } else {
            sub
        }
    }
}

/// Appends `p` after `sep` (or alone when `out` holds nothing yet), building a join.
pub fn push_joined(out: &mut Vec<char>, count: usize, sep: &Vec<char>, p: &Vec<char>, lo: usize, hi: usize)
    requires
        lo <= hi <= p@.len(),
        count == 0 ==> old(out)@.len() == 0,
    ensures
        final(out)@ == (if count == 0 { p@.subrange(lo as int, hi as int) } else { old(out)@ + sep@ + p@.subrange(lo as int, hi as int) }),
{
    let ghost o = out@;
    if count > 0 {
        let mut k: usize = 0;
        while k < sep.len()
            invariant
                k <= sep@.len(),
                out@ == o + sep@.take(k as int),
            decreases sep@.len() - k,
        {
            out.push(sep[k]);
            k = k + 1;
            assert(out@ =~= o + sep@.take(k as int));
        }
        assert(sep@.take(sep@.len() as int) =~= sep@);
    }
    let ghost o2 = out@;
    let mut i = lo;
    while i < hi
        invariant
            lo <= i <= hi <= p@.len(),
            out@ == o2 + p@.subrange(lo as int, i as int),
        decreases hi - i,
    {
        out.push(p[i]);
        i = i + 1;
        assert(out@ =~= o2 + p@.subrange(lo as int, i as int));
    }
    assert(o2 + p@.subrange(lo as int, hi as int) =~= (if count == 0 { p@.subrange(lo as int, hi as int) } else { o + sep@ + p@.subrange(lo as int, hi as int) }));
}

/// The strings of `parts` joined with `sep` between them (`[String]::join`).
pub fn join_strings(parts: &Vec<String>, sep: &str) -> (r: String)
    ensures
        r@ == join(texts(parts@), sep@),
{
    let sv = chars_of(sep);
    let mut out: Vec<char> = Vec::new();
    let mut i: usize = 0;
    while i < parts.len()
        invariant
            i <= parts@.len(),
            sv@ == sep@,
            i == 0 ==> out@.len() == 0,
            out@ == join(texts(parts@).take(i as int), sep@),
        decreases parts@.len() - i,
    {
        let p = chars_of(parts[i].as_str());
        let ghost before = texts(parts@).take(i as int);
        assert(texts(parts@).take(i + 1) =~= before.push(p@));
        assert(before.push(p@).drop_last() =~= before);
        push_joined(&mut out, i, &sv, &p, 0, p.len());
        assert(p@.subrange(0, p@.len() as int) =~= p@);
        i = i + 1;
    }
    assert(texts(parts@).take(parts@.len() as int) =~= texts(parts@));
    string_of(&out, 0, out.len())
}

/// `s.split_whitespace().collect::<Vec<_>>().join(" ")`: the words of `v[lo..hi]`
/// separated by single spaces.
pub fn collapse_whitespace(v: &Vec<char>, lo: usize, hi: usize) -> (out: Vec<char>)
    requires
        lo <= hi <= v@.len(),
    ensures
        out@ == join(words(v@.subrange(lo as int, hi as int)), seq![' ']),
{
    let sep = vec![' '];
    let mut out: Vec<char> = Vec::new();
    let mut count: usize = 0;
    let mut start = lo;
    let mut i = lo;
    assert(v@.subrange(lo as int, lo as int) =~= Seq::<char>::empty());
    while i < hi
        invariant
            lo <= start <= i <= hi <= v@.len(),
            count <= i,
            sep@ == seq![' '],
            split_ws(v@.subrange(lo as int, i as int)).last() == v@.subrange(start as int, i as int),
            split_ws(v@.subrange(lo as int, i as int)).len() >= 1,
            count == nonempty_only(split_ws(v@.subrange(lo as int, i as int)).drop_last()).len(),
            count == 0 ==> out@.len() == 0,
            out@ == join(nonempty_only(split_ws(v@.subrange(lo as int, i as int)).drop_last()), seq![' ']),
        decreases hi - i,
    {
        let ghost prefix = v@.subrange(lo as int, i as int);
        let ghost next = v@.subrange(lo as int, i + 1);
        assert(next.drop_last() =~= prefix);
        assert(next.last() == v@[i as int]);
        let ghost done = split_ws(prefix).drop_last();
        let ghost w = split_ws(prefix).last();
        let ghost x = nonempty_only(done);
        assert(split_ws(prefix) =~= done.push(w));
        assert(done.push(w).drop_last() =~= done);
        if is_whitespace(v[i]) {
            assert(split_ws(next).drop_last() =~= split_ws(prefix));
            if start < i {
                assert(nonempty_only(done.push(w)) == x.push(w));
                assert(x.push(w).drop_last() =~= x);
                assert(join(x.push(w), seq![' ']) == (if x.len() == 0 { w } else { join(x, seq![' ']) + seq![' '] + w }));
                push_joined(&mut out, count, &sep, v, start, i);
                count = count + 1;
            } else {
                assert(w =~= Seq::<char>::empty());
                assert(nonempty_only(done.push(w)) == x);
            }
            start = i + 1;
            assert(v@.subrange(start as int, i + 1) =~= Seq::<char>::empty());
        } else {
            assert(split_ws(next).drop_last() =~= split_ws(prefix).drop_last());
            assert(v@.subrange(start as int, i + 1) =~= v@.subrange(start as int, i as int).push(v@[i as int]));
        }
        i = i + 1;
    }
    let ghost all = split_ws(v@.subrange(lo as int, hi as int));
    let ghost done = all.drop_last();
    let ghost w = all.last();
    let ghost x = nonempty_only(done);
    assert(all =~= done.push(w));
    assert(done.push(w).drop_last() =~= done);
    if start < hi {
        assert(nonempty_only(done.push(w)) == x.push(w));
        assert(x.push(w).drop_last() =~= x);
        assert(join(x.push(w), seq![' ']) == (if x.len() == 0 { w } else { join(x, seq![' ']) + seq![' '] + w }));
        push_joined(&mut out, count, &sep, v, start, hi);
    } else {
        assert(w =~= Seq::<char>::empty());
        assert(nonempty_only(done.push(w)) == x);
    }
    out
}

// ---------------------------------------------------------------- ordering

/// Lexicographic order by code point (the order of `str`/`String`, since
/// UTF-8 preserves code-point order byte-wise).
pub open spec fn lex_lt(a: Seq<char>, b: Seq<char>) -> bool
    decreases a.len(),
{
    if a.len() == 0 {
        b.len() > 0
    } else if b.len() == 0 {
        false
    } else if a[0] != b[0] {
        a[0] < b[0]
    } else {
        lex_lt(a.drop_first(), b.drop_first())
    }
}

pub proof fn lemma_lex_irreflexive(a: Seq<char>)
    ensures
        !lex_lt(a, a),
    decreases a.len(),
{
    if a.len() > 0 {
        lemma_lex_irreflexive(a.drop_first());
    }
}

pub proof fn lemma_lex_asymmetric(a: Seq<char>, b: Seq<char>)
    ensures
        lex_lt(a, b) ==> !lex_lt(b, a),
    decreases a.len(),
{
    if a.len() > 0 && b.len() > 0 && a[0] == b[0] {
        lemma_lex_asymmetric(a.drop_first(), b.drop_first());
    }
}

pub proof fn lemma_lex_transitive(a: Seq<char>, b: Seq<char>, c: Seq<char>)
    requires
        lex_lt(a, b),
        lex_lt(b, c),
    ensures
        lex_lt(a, c),
    decreases a.len(),
{
    if a.len() > 0 && b.len() > 0 && c.len() > 0 && a[0] == b[0] && b[0] == c[0] {
        lemma_lex_transitive(a.drop_first(), b.drop_first(), c.drop_first());
    }
}

/// Three-way comparison: negative, zero or positive as `a` is below, equal to or above `b`.
pub fn compare_chars(a: &Vec<char>, b: &Vec<char>) -> (r: i8)
    ensures
        r < 0 <==> lex_lt(a@, b@),
        r == 0 <==> a@ == b@,
        r > 0 <==> lex_lt(b@, a@),
{
    let mut i: usize = 0;
    assert(a@.skip(0) =~= a@);
    assert(b@.skip(0) =~= b@);
    while i < a.len() && i < b.len()
        invariant
            i <= a@.len(),
            i <= b@.len(),
            a@.take(i as int) == b@.take(i as int),
            lex_lt(a@, b@) == lex_lt(a@.skip(i as int), b@.skip(i as int)),
            lex_lt(b@, a@) == lex_lt(b@.skip(i as int), a@.skip(i as int)),
        decreases a@.len() - i,
    {
        let ghost sa = a@.skip(i as int);
        let ghost sb = b@.skip(i as int);
        if a[i] != b[i] {
            proof {
                lemma_lex_asymmetric(a@, b@);
                if a@ == b@ {
                    assert(a@[i as int] == b@[i as int]);
                }
            }
            if a[i] < b[i] {
                return -1;
            } else {
                return 1;
            }
        }
        assert(sa.drop_first() =~= a@.skip(i + 1));
        assert(sb.drop_first() =~= b@.skip(i + 1));
        assert(a@.take(i + 1) =~= a@.take(i as int).push(a@[i as int]));
        assert(b@.take(i + 1) =~= b@.take(i as int).push(b@[i as int]));
        i = i + 1;
    }
    proof {
        lemma_lex_irreflexive(a@);
        if a@.len() == b@.len() {
            assert(a@ =~= a@.take(i as int));
            assert(b@ =~= b@.take(i as int));
        } else if a@.len() == i {
            assert(a@.take(i as int) =~= a@);
        } else {
            assert(b@.take(i as int) =~= b@);
        }
    }
    if a.len() < b.len() {
        -1
    } else if a.len() == b.len() {
        0
    } else {
        1
    }
}

/// The text of each string in `v`.
pub open spec fn texts(v: Seq<String>) -> Seq<Seq<char>> {
    v.map_values(|s: String| s@)
}

/// Strictly increasing in lexicographic order (so also free of repeats).
pub open spec fn strictly_sorted(v: Seq<Seq<char>>) -> bool {
    forall|i: int, j: int| 0 <= i < j < v.len() ==> lex_lt(#[trigger] v[i], #[trigger] v[j])
}

/// Inserts `x` into the strictly sorted `v`, unless it is already there.
pub fn insert_sorted_unique(v: &mut Vec<String>, x: String)
    requires
        strictly_sorted(texts(old(v)@)),
    ensures
        strictly_sorted(texts(final(v)@)),
        texts(final(v)@).to_set() == texts(old(v)@).to_set().insert(x@),
{
    let xv = chars_of(x.as_str());
    let mut i: usize = 0;
    let mut stop = false;
    while i < v.len() && !stop
        invariant
            i <= v@.len(),
            v@ == old(v)@,
            xv@ == x@,
            strictly_sorted(texts(v@)),
            forall|j: int| 0 <= j < i ==> lex_lt(#[trigger] texts(v@)[j], x@),
            stop ==> i < v@.len() && lex_lt(x@, texts(v@)[i as int]),
        decreases v@.len() - i, (if stop { 0int } else { 1int }),
    {
        let yv = chars_of(v[i].as_str());
        let c = compare_chars(&yv, &xv);
        if c == 0 {
            proof {
                assert(texts(v@)[i as int] == x@);
                assert(texts(v@).to_set() =~= texts(v@).to_set().insert(x@));
            }
            return;
        }
        if c > 0 {
            stop = true;
        } else {
            i = i + 1;
        }
    }
    let ghost old_t = texts(v@);
    v.insert(i, x);
    proof {
        let t = texts(v@);
        assert(t =~= old_t.insert(i as int, x@));
        assert forall|a: int, b: int| 0 <= a < b < t.len() implies lex_lt(
            #[trigger] t[a],
            #[trigger] t[b],
        ) by {
            if b < i {
            } else if a < i && b == i {
            } else if a < i && b > i {
                if b > i + 1 {
                    lemma_lex_transitive(x@, old_t[i as int], old_t[b - 1]);
                }
                lemma_lex_transitive(t[a], x@, t[b]);
            } else if a == i {
                if b > i + 1 {
                    lemma_lex_transitive(x@, old_t[i as int], old_t[b - 1]);
                }
            } else {
            }
        }
        assert forall|y: Seq<char>| t.to_set().contains(y) <==> old_t.to_set().insert(
            x@,
        ).contains(y) by {
            if t.to_set().contains(y) {
                let k = choose|k: int| 0 <= k < t.len() && t[k] == y;
                if k < i {
                    assert(old_t[k] == y);
                } else if k > i {
                    assert(old_t[k - 1] == y);
                }
            }
            if old_t.to_set().contains(y) && y != x@ {
                let k = choose|k: int| 0 <= k < old_t.len() && old_t[k] == y;
                if k < i {
                    assert(t[k] == y);
                } else {
                    assert(t[k + 1] == y);
                }
            }
            if y == x@ {
                assert(t[i as int] == y);
            }
        }
        assert(t.to_set() =~= old_t.to_set().insert(x@));
    }
}

/// `v` sorted with repeats removed (as `sort` then `dedup` leave it).
pub fn sorted_unique(v: Vec<String>) -> (r: Vec<String>)
    ensures
        strictly_sorted(texts(r@)),
        texts(r@).to_set() == texts(v@).to_set(),
{
    let mut r: Vec<String> = Vec::new();
    let mut i: usize = 0;
    while i < v.len()
        invariant
            i <= v@.len(),
            strictly_sorted(texts(r@)),
            texts(r@).to_set() == texts(v@.take(i as int)).to_set(),
        decreases v@.len() - i,
    {
        let x = v[i].clone();
        insert_sorted_unique(&mut r, x);
        proof {
            assert(texts(v@.take(i + 1)) =~= texts(v@.take(i as int)) + seq![v@[i as int]@]);
            Seq::lemma_to_set_insert_commutes(texts(v@.take(i as int)), v@[i as int]@);
        }
        i = i + 1;
    }
    assert(v@.take(v@.len() as int) =~= v@);
    r
}


// ---------------------------------------------------------------- numbers

/// The ASCII digit for `d` (which is below ten).
pub open spec fn digit_char(d: nat) -> char {
    if d == 0 { '0' }
    else if d == 1 { '1' }
    else if d == 2 { '2' }
    else if d == 3 { '3' }
    else if d == 4 { '4' }
    else if d == 5 { '5' }
    else if d == 6 { '6' }
    else if d == 7 { '7' }
    else if d == 8 { '8' }
    else { '9' }
}

/// Decimal notation of `n`, as `Display` writes it.
pub open spec fn decimal(n: nat) -> Seq<char>
    decreases n,
{
    if n < 10 {
        seq![digit_char(n)]
    } else {
        decimal(n / 10).push(digit_char(n % 10))
    }
}

/// Decimal notation of a signed integer, with a leading `-` when negative.
pub open spec fn signed_decimal(n: int) -> Seq<char> {
    if n < 0 {
        seq!['-'] + decimal((-n) as nat)
    } else {
        decimal(n as nat)
    }
}

fn digit_of(d: u64) -> (c: char)
    requires
        d < 10,
    ensures
        c == digit_char(d as nat),
{
    if d == 0 { '0' }
    else if d == 1 { '1' }
    else if d == 2 { '2' }
    else if d == 3 { '3' }
    else if d == 4 { '4' }
    else if d == 5 { '5' }
    else if d == 6 { '6' }
    else if d == 7 { '7' }
    else if d == 8 { '8' }
    else { '9' }
}

/// Appends the decimal notation of `n`.
pub fn push_decimal(s: &mut String, n: u64)
    ensures
        final(s)@ == old(s)@ + decimal(n as nat),
    decreases n,
{
    if n >= 10 {
        push_decimal(s, n / 10);
    }
    push_char(s, digit_of(n % 10));
    assert(final(s)@ =~= old(s)@ + decimal(n as nat));
}

/// Appends the decimal notation of a signed `n`.
pub fn push_signed_decimal(s: &mut String, n: i64)
    ensures
        final(s)@ == old(s)@ + signed_decimal(n as int),
{
    if n < 0 {
        push_char(s, '-');
        let m: u64 = if n == i64::MIN { 9223372036854775808u64 } else { (-n) as u64 };
        push_decimal(s, m);
        assert(final(s)@ =~= old(s)@ + signed_decimal(n as int));
    } else {
        push_decimal(s, n as u64);
    }
}

/// An ASCII decimal digit.
pub open spec fn is_digit(c: char) -> bool {
    '0' <= c && c <= '9'
}

/// Value of the digits of `s`, most significant first.
pub open spec fn digits_value(s: Seq<char>) -> nat
    decreases s.len(),
{
    if s.len() == 0 {
        0
    } else {
        digits_value(s.drop_last()) * 10 + ((s.last() as int) - ('0' as int)) as nat
    }
}

pub open spec fn all_digits(s: Seq<char>) -> bool {
    forall|i: int| 0 <= i < s.len() ==> is_digit(#[trigger] s[i])
}

/// The number that `FromStr` reads from `s` for an integer type, before its range
/// is checked: an optional `+` (or, for a signed type, `-`), then at least one
/// ASCII digit and nothing else.
pub open spec fn integer_text_value(s: Seq<char>, signed: bool) -> Option<int> {
    if s.len() == 0 {
        None
    } else {
        let neg = signed && s[0] == '-';
        let body = if s[0] == '+' || neg { s.drop_first() } else { s };
        if body.len() == 0 || !all_digits(body) {
            None
        } else if neg {
            Some(-(digits_value(body) as int))
        } else {
            Some(digits_value(body) as int)
        }
    }
}

/// `str::parse` for an integer type whose values are `min..=max`.
pub open spec fn parse_integer(s: Seq<char>, signed: bool, min: int, max: int) -> Option<int> {
    match integer_text_value(s, signed) {
        Some(v) => if min <= v <= max { Some(v) } else { None },
        None => None,
    }
}

pub proof fn lemma_digits_value_prefix(s: Seq<char>, i: int)
    requires
        0 <= i <= s.len(),
    ensures
        digits_value(s.take(i)) <= digits_value(s),
    decreases s.len(),
{
    if i < s.len() {
        assert(s.drop_last().take(i) =~= s.take(i));
        lemma_digits_value_prefix(s.drop_last(), i);
    } else {
        assert(s.take(i) =~= s);
    }
}

/// `str::parse` for an integer type whose values are `min..=max`.
#[verifier::rlimit(40)]
pub fn parse_integer_exec(t: &Vec<char>, signed: bool, min: i128, max: i128) -> (r: Option<i128>)
    requires
        -0x1_0000_0000_0000_0000 <= min <= 0 <= max <= 0x1_0000_0000_0000_0000,
    ensures
        r matches Some(v) ==> parse_integer(t@, signed, min as int, max as int) == Some(v as int),
        r is None ==> parse_integer(t@, signed, min as int, max as int) is None,
{
    if t.len() == 0 {
        return None;
    }
    let neg = signed && t[0] == '-';
    let start: usize = if t[0] == '+' || neg { 1 } else { 0 };
    let ghost body = t@.skip(start as int);
    assert(body =~= (if t@[0] == '+' || neg { t@.drop_first() } else { t@ }));
    if start == t.len() {
        return None;
    }
    let bound: u128 = if neg { (-min) as u128 } else { max as u128 };
    let mut acc: u128 = 0;
    let mut i = start;
    while i < t.len()
        invariant
            start <= i <= t@.len(),
            start <= 1,
            t@.len() > 0,
            neg == (signed && t@[0] == '-'),
            body == (if t@[0] == '+' || neg { t@.drop_first() } else { t@ }),
            start as int == t@.len() - body.len(),
            -0x1_0000_0000_0000_0000 <= min <= 0 <= max <= 0x1_0000_0000_0000_0000,
            bound == (if neg { -min } else { max as int }),
            body == t@.skip(start as int),
            acc == digits_value(body.take(i - start)),
            acc <= bound,
            bound <= 0x1_0000_0000_0000_0000,
            all_digits(body.take(i - start)),
        decreases t@.len() - i,
    {
        let c = t[i];
        if !('0' <= c && c <= '9') {
            assert(!all_digits(body)) by {
                assert(body[i - start] == c);
            }
            return None;
        }
        let d = (c as u32 - '0' as u32) as u128;
        assert(body.take(i - start + 1).drop_last() =~= body.take(i - start));
        assert(body.take(i - start + 1).last() == c);
        acc = acc * 10 + d;
        i = i + 1;
        assert(all_digits(body.take(i - start))) by {
            assert forall|j: int| 0 <= j < i - start implies is_digit(
                #[trigger] body.take(i - start)[j],
            ) by {
                if j < i - start - 1 {
                    assert(body.take(i - start)[j] == body.take(i - start - 1)[j]);
                }
            }
        }
        if acc > bound {
            proof {
                lemma_digits_value_prefix(body, i - start);
            }
            return None;
        }
    }
    assert(body.take(i - start) =~= body);
    if neg {
        Some(-(acc as i128))
    } else {
        Some(acc as i128)
    }
}

/// `str::parse::<bool>`: exactly `true` or `false`.
pub open spec fn parse_bool(s: Seq<char>) -> Option<bool> {
    if s == seq!['t', 'r', 'u', 'e'] {
        Some(true)
    } else if s == seq!['f', 'a', 'l', 's', 'e'] {
        Some(false)
    } else {
        None
    }
}

pub fn parse_bool_exec(t: &Vec<char>) -> (r: Option<bool>)
    ensures
        r == parse_bool(t@),
{
    if t.len() == 4 && t[0] == 't' && t[1] == 'r' && t[2] == 'u' && t[3] == 'e' {
        assert(t@ =~= seq!['t', 'r', 'u', 'e']);
        Some(true)
    } else if t.len() == 5 && t[0] == 'f' && t[1] == 'a' && t[2] == 'l' && t[3] == 's' && t[4]
        == 'e' {
        assert(t@ =~= seq!['f', 'a', 'l', 's', 'e']);
        Some(false)
    } else {
        proof {
            if t@ == seq!['t', 'r', 'u', 'e'] {
                assert(t@[0] == 't' && t@[1] == 'r' && t@[2] == 'u' && t@[3] == 'e');
            }
            if t@ == seq!['f', 'a', 'l', 's', 'e'] {
                assert(t@[0] == 'f' && t@[1] == 'a' && t@[4] == 'e');
            }
        }
        None
    }
}

} // verus!
