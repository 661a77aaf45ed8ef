//! The `web_search` tool: reading DuckDuckGo's lite results page, formatting
//! hits for the model, and deciding when to probe or fall back.
use vstd::prelude::*;
use crate::text::{
    chars_of, collapse_whitespace, find, find_from, find_in, join, lemma_find_from_props,
    lemma_find_shift, push_joined, push_str, replace, replace_in, rfind, rfind_in, string_of,
    words,
};
use crate::config::SearchConfig;

verus! {

/// One search result.
#[derive(Clone)]
pub struct Hit {
    pub title: String,
    pub snippet: String,
    pub url: String,
}

/// A result as `(title, snippet, url)`.
pub open spec fn hit_view(h: Hit) -> (Seq<char>, Seq<char>, Seq<char>) {
    (h.title@, h.snippet@, h.url@)
}

pub open spec fn hits_view(v: Seq<Hit>) -> Seq<(Seq<char>, Seq<char>, Seq<char>)> {
    v.map_values(|h: Hit| hit_view(h))
}

// ---------------------------------------------------------------- markup

/// The characters outside `<...>` tags (`<` opens a tag, `>` closes one; both are dropped).
pub open spec fn untagged(s: Seq<char>, in_tag: bool) -> Seq<char>
    decreases s.len(),
{
    if s.len() == 0 {
        Seq::empty()
    } else {
        let c = s[0];
        let rest = s.drop_first();
        if c == '<' {
            untagged(rest, true)
        } else if c == '>' {
            untagged(rest, false)
        } else if in_tag {
            untagged(rest, true)
        } else {
            seq![c] + untagged(rest, false)
        }
    }
}

/// Text without tags, its words separated by single spaces.
pub open spec fn stripped(s: Seq<char>) -> Seq<char> {
    join(words(untagged(s, false)), seq![' '])
}

/// The HTML entities the results page uses, decoded in this order:
/// `&amp;`, `&lt;`, `&gt;`, `&quot;`, `&#x27;`, `&#39;`.
pub open spec fn decoded(s: Seq<char>) -> Seq<char> {
    replace(
        replace(
            replace(replace(replace(replace(s, "&amp;"@, "&"@), "&lt;"@, "<"@), "&gt;"@, ">"@), "&quot;"@, "\""@),
            "&#x27;"@,
            "'"@,
        ),
        "&#39;"@,
        "'"@,
    )
}

fn untag_range(v: &Vec<char>, lo: usize, hi: usize) -> (out: Vec<char>)
    requires
        lo <= hi <= v@.len(),
    ensures
        out@ == untagged(v@.subrange(lo as int, hi as int), false),
{
    let mut out: Vec<char> = Vec::new();
    let mut in_tag = false;
    let mut i = lo;
    assert(v@.subrange(lo as int, hi as int) =~= v@.subrange(lo as int, hi as int));
    while i < hi
        invariant
            lo <= i <= hi <= v@.len(),
            untagged(v@.subrange(lo as int, hi as int), false) == out@ + untagged(v@.subrange(i as int, hi as int), in_tag),
        decreases hi - i,
    {
        let c = v[i];
        let ghost rest = v@.subrange(i as int, hi as int);
        assert(rest[0] == c);
        assert(rest.drop_first() =~= v@.subrange(i + 1, hi as int));
        if c == '<' {
            in_tag = true;
        } else if c == '>' {
            in_tag = false;
        } else if !in_tag {
            let ghost o = out@;
            out.push(c);
            assert(o + (seq![c] + untagged(rest.drop_first(), false)) =~= out@ + untagged(rest.drop_first(), false));
        }
        i = i + 1;
    }
    assert(v@.subrange(hi as int, hi as int) =~= Seq::<char>::empty());
    assert(out@ + Seq::<char>::empty() =~= out@);
    out
}

/// Removes tags and collapses whitespace to single spaces.
pub fn strip_tags(s: &str) -> (r: String)
    ensures
        r@ == stripped(s@),
{
    let v = chars_of(s);
    let u = untag_range(&v, 0, v.len());
    assert(v@.subrange(0, v@.len() as int) =~= v@);
    let c = collapse_whitespace(&u, 0, u.len());
    assert(u@.subrange(0, u@.len() as int) =~= u@);
    string_of(&c, 0, c.len())
}

fn replace_vec(v: Vec<char>, p: &str, r: &str) -> (out: Vec<char>)
    requires
        p@.len() > 0,
    ensures
        out@ == replace(v@, p@, r@),
{
    let pv = chars_of(p);
    let rv = chars_of(r);
    assert(v@.subrange(0, v@.len() as int) =~= v@);
    replace_in(&v, 0, v.len(), &pv, &rv)
}

fn decode_range(v: Vec<char>) -> (out: Vec<char>)
    ensures
        out@ == decoded(v@),
{
    proof {
        reveal_strlit("&amp;");
        reveal_strlit("&lt;");
        reveal_strlit("&gt;");
        reveal_strlit("&quot;");
        reveal_strlit("&#x27;");
        reveal_strlit("&#39;");
    }
    let a = replace_vec(v, "&amp;", "&");
    let b = replace_vec(a, "&lt;", "<");
    let c = replace_vec(b, "&gt;", ">");
    let d = replace_vec(c, "&quot;", "\"");
    let e = replace_vec(d, "&#x27;", "'");
    replace_vec(e, "&#39;", "'")
}

/// Decodes the HTML entities of `s`.
pub fn decode_entities(s: &str) -> (r: String)
    ensures
        r@ == decoded(s@),
{
    let v = chars_of(s);
    let d = decode_range(v);
    string_of(&d, 0, d.len())
}

/// The text from the first `>` up to `close`, without tags and with entities
/// decoded; `None` when either is missing.
pub open spec fn inner_text_of(s: Seq<char>, close: Seq<char>) -> Option<Seq<char>> {
    match find(s, seq!['>']) {
        None => None,
        Some(i) => match find(s.skip(i + 1), close) {
            None => None,
            Some(j) => Some(decoded(stripped(s.subrange(i + 1, i + 1 + j)))),
        },
    }
}

fn inner_text_range(v: &Vec<char>, lo: usize, hi: usize, close: &str) -> (r: Option<Vec<char>>)
    requires
        lo <= hi <= v@.len(),
    ensures
        r matches Some(t) ==> inner_text_of(v@.subrange(lo as int, hi as int), close@) == Some(t@),
        r is None ==> inner_text_of(v@.subrange(lo as int, hi as int), close@) is None,
{
    let ghost s = v@.subrange(lo as int, hi as int);
    let gt = vec!['>'];
    assert(gt@ =~= seq!['>']);
    let cv = chars_of(close);
    match find_in(v, lo, hi, &gt) {
        None => None,
        Some(i) => {
            let start = i + 1;
            assert(s.skip(i - lo + 1) =~= v@.subrange(start as int, hi as int));
            match find_in(v, start, hi, &cv) {
                None => None,
                Some(j) => {
                    assert(s.subrange(i - lo + 1, i - lo + 1 + (j - start)) =~= v@.subrange(start as int, j as int));
                    let u = untag_range(v, start, j);
                    let c = collapse_whitespace(&u, 0, u.len());
                    assert(u@.subrange(0, u@.len() as int) =~= u@);
                    Some(decode_range(c))
                },
            }
        },
    }
}

/// The text between the first `>` of `s` and `close`.
pub fn inner_text(s: &str, close: &str) -> (r: Option<String>)
    ensures
        r matches Some(t) ==> inner_text_of(s@, close@) == Some(t@),
        r is None ==> inner_text_of(s@, close@) is None,
{
    let v = chars_of(s);
    assert(v@.subrange(0, v@.len() as int) =~= v@);
    match inner_text_range(&v, 0, v.len(), close) {
        Some(t) => Some(string_of(&t, 0, t.len())),
        None => None,
    }
}

/// The value of `name="..."` in the last tag that opens in `before`.
pub open spec fn attr_of(before: Seq<char>, name: Seq<char>) -> Option<Seq<char>> {
    match rfind(before, seq!['<']) {
        None => None,
        Some(t) => {
            let tag = before.skip(t);
            let key = name + seq!['=', '"'];
            match find(tag, key) {
                None => None,
                Some(a) => {
                    let at = a + key.len();
                    match find(tag.skip(at), seq!['"']) {
                        None => None,
                        Some(e) => Some(tag.subrange(at, at + e)),
                    }
                },
            }
        },
    }
}

fn attr_range(v: &Vec<char>, hi: usize, name: &str) -> (r: Option<String>)
    requires
        hi <= v@.len(),
    ensures
        r matches Some(t) ==> attr_of(v@.subrange(0, hi as int), name@) == Some(t@),
        r is None ==> attr_of(v@.subrange(0, hi as int), name@) is None,
{
    let ghost before = v@.subrange(0, hi as int);
    let lt = vec!['<'];
    assert(lt@ =~= seq!['<']);
    let quote = vec!['"'];
    assert(quote@ =~= seq!['"']);
    let mut key = chars_of(name);
    key.push('=');
    key.push('"');
    assert(key@ =~= name@ + seq!['=', '"']);
    match rfind_in(v, 0, hi, &lt) {
        None => None,
        Some(t) => {
            let ghost tag = before.skip(t as int);
            assert(tag =~= v@.subrange(t as int, hi as int));
            match find_in(v, t, hi, &key) {
                None => None,
                Some(a) => {
                    let at = a + key.len();
                    assert(tag.skip(a - t + key@.len()) =~= v@.subrange(at as int, hi as int));
                    match find_in(v, at, hi, &quote) {
                        None => None,
                        Some(e) => {
                            assert(tag.subrange(a - t + key@.len(), a - t + key@.len() + (e - at)) =~= v@.subrange(at as int, e as int));
                            Some(string_of(v, at, e))
                        },
                    }
                },
            }
        },
    }
}

/// The value of `name="..."` in the last opening tag of `before`.
pub fn attr_before(before: &str, name: &str) -> (r: Option<String>)
    ensures
        r matches Some(t) ==> attr_of(before@, name@) == Some(t@),
        r is None ==> attr_of(before@, name@) is None,
{
    let v = chars_of(before);
    assert(v@.subrange(0, v@.len() as int) =~= v@);
    attr_range(&v, v.len(), name)
}

// ---------------------------------------------------------------- results page

/// The hit whose `result-link` marker starts at `idx`: the link's `href`, the
/// anchor text as title, and the text of the following `result-snippet` cell;
/// none when there is no `href` or the url or title is empty.
pub open spec fn hit_at(html: Seq<char>, idx: int) -> Option<(Seq<char>, Seq<char>, Seq<char>)> {
    let after = html.skip(idx);
    match attr_of(html.take(idx), "href"@) {
        None => None,
        Some(url) => {
            let title = match inner_text_of(after, "</a>"@) {
                Some(t) => t,
                None => Seq::empty(),
            };
            let snippet = match find(after, "result-snippet"@) {
                Some(s) => match inner_text_of(after.skip(s), "</td>"@) {
                    Some(x) => x,
                    None => Seq::empty(),
                },
                None => Seq::empty(),
            };
            if url.len() > 0 && title.len() > 0 {
                Some((title, snippet, url))
            } else {
                None
            }
        },
    }
}

/// The hits at the occurrences of `marker` at or after `from`, in order.
pub open spec fn hits_from(html: Seq<char>, marker: Seq<char>, from: int) -> Seq<(Seq<char>, Seq<char>, Seq<char>)>
    decreases html.len() + 1 - from,
{
    if from < 0 || marker.len() == 0 {
        Seq::empty()
    } else {
        match find_from(html, marker, from) {
            None => Seq::empty(),
            Some(i) => {
                proof {
                    lemma_find_from_props(html, marker, from);
                }
                (match hit_at(html, i) {
                    Some(h) => seq![h],
                    None => Seq::empty(),
                }) + hits_from(html, marker, i + marker.len())
            },
        }
    }
}

/// The hits of a DuckDuckGo lite results page.
pub open spec fn ddg_hits(html: Seq<char>) -> Seq<(Seq<char>, Seq<char>, Seq<char>)> {
    hits_from(html, "result-link"@, 0)
}

fn hit_at_exec(v: &Vec<char>, idx: usize) -> (r: Option<Hit>)
    requires
        idx <= v@.len(),
    ensures
        r matches Some(h) ==> hit_at(v@, idx as int) == Some(hit_view(h)),
        r is None ==> hit_at(v@, idx as int) is None,
{
    let ghost after = v@.skip(idx as int);
    assert(v@.subrange(0, idx as int) =~= v@.take(idx as int));
    assert(v@.subrange(idx as int, v@.len() as int) =~= after);
    let url = match attr_range(v, idx, "href") {
        None => return None,
        Some(u) => u,
    };
    let title = match inner_text_range(v, idx, v.len(), "</a>") {
        Some(t) => string_of(&t, 0, t.len()),
        None => String::new(),
    };
    let marker = chars_of("result-snippet");
    let snippet = match find_in(v, idx, v.len(), &marker) {
        Some(s) => {
            assert(after.skip(s - idx) =~= v@.subrange(s as int, v@.len() as int));
            match inner_text_range(v, s, v.len(), "</td>") {
                Some(x) => string_of(&x, 0, x.len()),
                None => String::new(),
            }
        },
        None => String::new(),
    };
    if !url.as_str().is_empty() && !title.as_str().is_empty() {
        Some(Hit { title, snippet, url })
    } else {
        None
    }
}

/// Reads the hits of a DuckDuckGo lite results page: each
/// `result-link` anchor gives one hit with its `href`, its text and the next
/// `result-snippet` cell; anchors without url or title are skipped.
pub fn parse_ddg_lite(html: &str) -> (r: Vec<Hit>)
    ensures
        hits_view(r@) == ddg_hits(html@),
{
    let v = chars_of(html);
    let marker = chars_of("result-link");
    proof {
        reveal_strlit("result-link");
    }
    let mut hits: Vec<Hit> = Vec::new();
    let mut from: usize = 0;
    while from <= v.len()
        invariant
            v@ == html@,
            marker@ == "result-link"@,
            marker@.len() > 0,
            ddg_hits(html@) == hits_view(hits@) + hits_from(v@, marker@, from as int),
        decreases v@.len() + 1 - from,
    {
        assert(v@.subrange(from as int, v@.len() as int) =~= v@.skip(from as int));
        proof {
            lemma_find_from_props(v@, marker@, from as int);
        }
        let found = find_in(&v, from, v.len(), &marker);
        match found {
            None => {
                proof {
                    lemma_find_shift(v@, marker@, from as int);
                }
                assert(hits_from(v@, marker@, from as int) =~= Seq::empty());
                assert(hits_view(hits@) + Seq::<(Seq<char>, Seq<char>, Seq<char>)>::empty() =~= hits_view(hits@));
                return hits;
            },
            Some(i) => {
                proof {
                    lemma_find_shift(v@, marker@, from as int);
                }
                let ghost old_view = hits_view(hits@);
                match hit_at_exec(&v, i) {
                    Some(h) => {
                        hits.push(h);
                        assert(hits_view(hits@) =~= old_view + seq![hit_view(h)]);
                    },
                    None => {},
                }
                from = i + marker.len();
            },
        }
    }
    hits
}

// ---------------------------------------------------------------- answers

/// `value` cut to its first `max` characters, with `...` appended when it was longer.
pub open spec fn truncated(value: Seq<char>, max: nat) -> Seq<char> {
    if value.len() > max {
        value.take(max as int) + "..."@
    } else {
        value
    }
}

/// Cuts a snippet to `max_chars` characters.
pub fn truncate(value: &str, max_chars: usize) -> (r: String)
    ensures
        r@ == truncated(value@, max_chars as nat),
{
    let v = chars_of(value);
    if v.len() > max_chars {
        let mut out = string_of(&v, 0, max_chars);
        push_str(&mut out, "...");
        assert(v@.subrange(0, max_chars as int) =~= v@.take(max_chars as int));
        out
    } else {
        let out = string_of(&v, 0, v.len());
        assert(v@.subrange(0, v@.len() as int) =~= v@);
        out
    }
}

/// How one hit is shown to the model: `- TITLE: SNIPPET (URL)`, the snippet
/// cut to 160 characters.
pub open spec fn result_line(h: (Seq<char>, Seq<char>, Seq<char>)) -> Seq<char> {
    "- "@ + h.0 + ": "@ + truncated(h.1, 160) + " ("@ + h.2 + ")"@
}

/// The first `max` hits, one line each.
pub open spec fn formatted(hits: Seq<(Seq<char>, Seq<char>, Seq<char>)>, max: nat) -> Seq<char> {
    let shown = if max < hits.len() { hits.take(max as int) } else { hits };
    join(shown.map_values(|h: (Seq<char>, Seq<char>, Seq<char>)| result_line(h)), "\n"@)
}

fn result_line_exec(h: &Hit) -> (r: Vec<char>)
    ensures
        r@ == result_line(hit_view(*h)),
{
    let mut s = String::new();
    push_str(&mut s, "- ");
    push_str(&mut s, h.title.as_str());
    push_str(&mut s, ": ");
    let t = truncate(h.snippet.as_str(), 160);
    push_str(&mut s, t.as_str());
    push_str(&mut s, " (");
    push_str(&mut s, h.url.as_str());
    push_str(&mut s, ")");
    chars_of(s.as_str())
}

/// The first `max_results` hits, one `- TITLE: SNIPPET (URL)` line each.
pub fn format_results(results: Vec<Hit>, max_results: usize) -> (r: String)
    ensures
        r@ == formatted(hits_view(results@), max_results as nat),
{
    let ghost all = hits_view(results@);
    let n = if max_results < results.len() { max_results } else { results.len() };
    let ghost shown = if max_results < all.len() { all.take(max_results as int) } else { all };
    let ghost lines = shown.map_values(|h: (Seq<char>, Seq<char>, Seq<char>)| result_line(h));
    let sep = chars_of("\n");
    let mut out: Vec<char> = Vec::new();
    let mut i: usize = 0;
    while i < n
        invariant
            n <= results@.len(),
            n == shown.len(),
            all == hits_view(results@),
            shown =~= all.take(n as int),
            lines == shown.map_values(|h: (Seq<char>, Seq<char>, Seq<char>)| result_line(h)),
            sep@ == "\n"@,
            i <= n,
            i == 0 ==> out@.len() == 0,
            out@ == join(lines.take(i as int), sep@),
        decreases n - i,
    {
        let line = result_line_exec(&results[i]);
        let ghost before = lines.take(i as int);
        assert(lines.take(i + 1) =~= before.push(line@));
        assert(before.push(line@).drop_last() =~= before);
        push_joined(&mut out, i, &sep, &line, 0, line.len());
        assert(line@.subrange(0, line@.len() as int) =~= line@);
        i = i + 1;
    }
    assert(lines.take(n as int) =~= lines);
    string_of(&out, 0, out.len())
}

/// What a search backend gave back: its hits, or the text of its error.
pub open spec fn outcome_view(o: Result<Vec<Hit>, String>) -> Result<Seq<(Seq<char>, Seq<char>, Seq<char>)>, Seq<char>> {
    match o {
        Ok(h) => Ok(hits_view(h@)),
        Err(e) => Err(e@),
    }
}

/// The answer from the SearXNG endpoint, when it gave any hits.
pub open spec fn primary_text(max: nat, o: Result<Seq<(Seq<char>, Seq<char>, Seq<char>)>, Seq<char>>) -> Option<Seq<char>> {
    match o {
        Ok(h) => if h.len() > 0 { Some(formatted(h, max)) } else { None },
        Err(_) => None,
    }
}

/// The answer from the DuckDuckGo fallback: its hits, or why there are none.
pub open spec fn fallback_text(max: nat, o: Result<Seq<(Seq<char>, Seq<char>, Seq<char>)>, Seq<char>>) -> Seq<char> {
    match o {
        Ok(h) => if h.len() > 0 {
            formatted(h, max)
        } else {
            "web_search returned no results"@
        },
        Err(e) => "web_search unavailable: "@ + e,
    }
}

/// The tool's answer from the SearXNG outcome; `None` sends the query on to DuckDuckGo.
pub fn primary_answer(max_results: usize, outcome: Result<Vec<Hit>, String>) -> (r: Option<String>)
    ensures
        r matches Some(t) ==> primary_text(max_results as nat, outcome_view(outcome)) == Some(t@),
        r is None ==> primary_text(max_results as nat, outcome_view(outcome)) is None,
{
    match outcome {
        Ok(hits) => {
            if hits.len() > 0 {
                Some(format_results(hits, max_results))
            } else {
                None
            }
        },
        Err(_) => None,
    }
}

/// The tool's answer from the DuckDuckGo outcome.
pub fn fallback_answer(max_results: usize, outcome: Result<Vec<Hit>, String>) -> (r: String)
    ensures
        r@ == fallback_text(max_results as nat, outcome_view(outcome)),
{
    match outcome {
        Ok(hits) => {
            if hits.len() > 0 {
                format_results(hits, max_results)
            } else {
                "web_search returned no results".to_string()
            }
        },
        Err(e) => {
            let mut s = "web_search unavailable: ".to_string();
            push_str(&mut s, e.as_str());
            s
        },
    }
}

/// Runs the `web_search` tool: the SearXNG hits when there are any, else what
/// the DuckDuckGo fallback gives. The fallback is needed to be callable only
/// when SearXNG gave no hits, so it is asked at most then: with hits it is
/// never called.
pub fn web_search<F>(cfg: &SearchConfig, primary: Result<Vec<Hit>, String>, fallback: F) -> (r:
    String) where F: FnOnce() -> Result<Vec<Hit>, String>
    requires
        primary_text(cfg.max_results as nat, outcome_view(primary)) is None ==> call_requires(fallback, ()),
    ensures
        primary_text(cfg.max_results as nat, outcome_view(primary)) matches Some(t) ==> r@ == t,
        primary_text(cfg.max_results as nat, outcome_view(primary)) is None ==> exists|o: Result<Vec<Hit>, String>|
            call_ensures(fallback, (), o) && r@ == fallback_text(cfg.max_results as nat, outcome_view(o)),
{
    match primary_answer(cfg.max_results, primary) {
        Some(t) => t,
        None => {
            let o = fallback();
            let ghost og = o;
            let r = fallback_answer(cfg.max_results, o);
            assert(call_ensures(fallback, (), og) && r@ == fallback_text(cfg.max_results as nat, outcome_view(og)));
            r
        },
    }
}

/// One SearXNG result; missing fields read as empty.
pub struct SearchResult {
    pub title: Option<String>,
    pub content: Option<String>,
    pub url: Option<String>,
}

/// A SearXNG JSON response.
pub struct SearchResponse {
    pub results: Vec<SearchResult>,
}

/// The text of an optional field, empty when absent.
pub open spec fn or_empty(o: Option<String>) -> Seq<char> {
    match o {
        Some(s) => s@,
        None => Seq::empty(),
    }
}

/// A SearXNG result as a hit.
pub open spec fn result_hit(r: SearchResult) -> (Seq<char>, Seq<char>, Seq<char>) {
    (or_empty(r.title), or_empty(r.content), or_empty(r.url))
}

fn or_default(o: Option<String>) -> (r: String)
    ensures
        r@ == or_empty(o),
{
    match o {
        Some(s) => s,
        None => String::new(),
    }
}

impl SearchResponse {
    /// The results as hits, in order: title, content as snippet, and url.
    pub fn hits(self) -> (r: Vec<Hit>)
        ensures
            hits_view(r@) == self.results@.map_values(|x: SearchResult| result_hit(x)),
    {
        let ghost src = self.results@;
        let mut results = self.results;
        let mut out: Vec<Hit> = Vec::new();
        let mut rev: Vec<Hit> = Vec::new();
        while results.len() > 0
            invariant
                src.len() == results@.len() + rev@.len(),
                results@ == src.take(results@.len() as int),
                forall|k: int| 0 <= k < rev@.len() ==> hit_view(#[trigger] rev@[k]) == result_hit(src[src.len() - 1 - k]),
            decreases results@.len(),
        {
            let r = results.pop().unwrap();
            let h = Hit { title: or_default(r.title), snippet: or_default(r.content), url: or_default(r.url) };
            rev.push(h);
            assert(results@ =~= src.take(results@.len() as int));
        }
        while rev.len() > 0
            invariant
                src.len() == out@.len() + rev@.len(),
                forall|k: int| 0 <= k < rev@.len() ==> hit_view(#[trigger] rev@[k]) == result_hit(src[src.len() - 1 - k]),
                forall|k: int| 0 <= k < out@.len() ==> hit_view(#[trigger] out@[k]) == result_hit(src[k]),
            decreases rev@.len(),
        {
            let h = rev.pop().unwrap();
            out.push(h);
        }
        assert(hits_view(out@) =~= src.map_values(|x: SearchResult| result_hit(x)));
        out
    }
}

// ---------------------------------------------------------------- availability

/// How long a reachability probe is trusted, in milliseconds.
pub const AVAILABILITY_TTL_MS: u64 = 60000;

/// The last reachability probe: when it ran (milliseconds on a monotonic
/// clock) and what it found.
pub struct AvailabilityCache {
    pub checked: Option<(u64, bool)>,
}

impl AvailabilityCache {
    /// No probe yet.
    pub fn new() -> (r: AvailabilityCache)
        ensures
            r.checked is None,
    {
        AvailabilityCache { checked: None }
    }
}

/// Time since `at`, zero when the clock reads earlier (as `Instant::elapsed` saturates).
pub open spec fn elapsed_ms(at: u64, now: u64) -> int {
    if now >= at { now - at } else { 0 }
}

/// The remembered answer, while it is younger than the TTL.
pub open spec fn cached_answer(checked: Option<(u64, bool)>, now: u64) -> Option<bool> {
    match checked {
        Some((at, v)) => if elapsed_ms(at, now) < AVAILABILITY_TTL_MS { Some(v) } else { None },
        None => None,
    }
}

/// What an availability check does: answer at once, or probe the backends.
pub enum Availability {
    Answer(bool),
    Probe,
}

/// The decision of an availability check: `false` when search is disabled;
/// the remembered answer while it is fresh; else a probe.
pub open spec fn availability_of(enabled: bool, checked: Option<(u64, bool)>, now_ms: u64) -> Availability {
    if !enabled {
        Availability::Answer(false)
    } else {
        match cached_answer(checked, now_ms) {
            Some(v) => Availability::Answer(v),
            None => Availability::Probe,
        }
    }
}

/// Decides whether an availability check can answer without probing.
pub fn availability_decision(cfg: &SearchConfig, cache: &AvailabilityCache, now_ms: u64) -> (r: Availability)
    ensures
        r == availability_of(cfg.enabled, cache.checked, now_ms),
{
    if !cfg.enabled {
        return Availability::Answer(false);
    }
    match cache.checked {
        Some((at, value)) => {
            let elapsed = if now_ms >= at { now_ms - at } else { 0 };
            if elapsed < AVAILABILITY_TTL_MS {
                return Availability::Answer(value);
            }
        },
        None => {},
    }
    Availability::Probe
}

/// Whether the `web_search` tool can be offered: never when search is
/// disabled; otherwise the remembered answer while it is fresh; else whether
/// SearXNG answers (`searxng`) or, failing that, DuckDuckGo does (`ddg`); that
/// answer is remembered with the time `now_ms`. The probes need to be
/// callable only when the decision is to probe, and DuckDuckGo only once
/// SearXNG has answered no: they are run at most then, and never when search
/// is disabled or the remembered answer is fresh.
pub fn available<F, G>(cfg: &SearchConfig, cache: &mut AvailabilityCache, now_ms: u64, searxng: F, ddg: G) -> (r:
    bool) where F: FnOnce() -> bool, G: FnOnce() -> bool
    requires
        availability_of(cfg.enabled, old(cache).checked, now_ms) is Probe ==> call_requires(searxng, ()),
        forall|s: bool| #[trigger] call_ensures(searxng, (), s) && !s ==> call_requires(ddg, ()),
    ensures
        availability_of(cfg.enabled, old(cache).checked, now_ms) matches Availability::Answer(v)
            ==> r == v && final(cache).checked == old(cache).checked,
        availability_of(cfg.enabled, old(cache).checked, now_ms) is Probe
            ==> final(cache).checked == Some((now_ms, r)) && exists|s: bool|
                #[trigger] call_ensures(searxng, (), s) && if s { r } else { call_ensures(ddg, (), r) },
        !cfg.enabled ==> !r,
{
    match availability_decision(cfg, cache, now_ms) {
        Availability::Answer(v) => v,
        Availability::Probe => {
            let value = if searxng() { true } else { ddg() };
            cache.checked = Some((now_ms, value));
            value
        },
    }
}

/// A probe's answer is given again, without probing, until the TTL has
/// passed since it ran; from then on a new probe is needed.
pub proof fn lemma_probe_answer_reused(at: u64, value: bool, now: u64)
    ensures
        at <= now < at + AVAILABILITY_TTL_MS ==> cached_answer(Some((at, value)), now) == Some(value),
        now >= at + AVAILABILITY_TTL_MS ==> cached_answer(Some((at, value)), now) is None,
{
}

} // verus!
