use yappr::config::SearchConfig;
use yappr::search::{
    available, availability_decision, decode_entities, fallback_answer, format_results, inner_text, parse_ddg_lite,
    strip_tags, truncate, web_search, attr_before, Availability, AvailabilityCache, Hit, SearchResponse, SearchResult,
};

fn cfg(enabled: bool, max_results: usize) -> SearchConfig {
    SearchConfig {
        enabled,
        endpoint: "http://127.0.0.1:9/unused".to_string(),
        max_results,
        timeout_secs: 1,
    }
}

fn hit(title: &str, snippet: &str, url: &str) -> Hit {
    Hit {
        title: title.to_string(),
        snippet: snippet.to_string(),
        url: url.to_string(),
    }
}

#[test]
fn unavailable_when_search_disabled() {
    // Must short-circuit without any network probe when disabled.
    let cfg = SearchConfig {
        enabled: false,
        endpoint: "http://127.0.0.1:9/unused".to_string(),
        max_results: 5,
        timeout_secs: 1,
    };
    let mut cache = AvailabilityCache::new();
    assert!(!available(
        &cfg,
        &mut cache,
        0,
        || -> bool { panic!("no probe when disabled") },
        || -> bool { panic!("no probe when disabled") },
    ));
}

#[test]
fn strip_tags_removes_highlights_and_collapses_space() {
    assert_eq!(
        strip_tags("<b>Rust</b>  is\n a   language"),
        "Rust is a language"
    );
}

#[test]
fn truncates_long_search_snippets() {
    assert_eq!(truncate("abcdef", 3), "abc...");
}

#[test]
fn leaves_short_search_snippets_unchanged() {
    assert_eq!(truncate("abc", 3), "abc");
}

#[test]
fn parses_ddg_lite_rows() {
    // Mirrors real lite.duckduckgo.com markup: single-quoted class, href
    // before class, and <b> highlights inside the snippet.
    let html = r#"
            <table>
              <tr><td>
                <a rel="nofollow" href="https://example.com/a" class='result-link'>First &amp; Best</a>
              </td></tr>
              <tr><td class='result-snippet'><b>A</b> short snippet here.</td></tr>
              <tr><td>
                <a rel="nofollow" href="https://example.org/b" class='result-link'>Second</a>
              </td></tr>
              <tr><td class='result-snippet'>Another snippet.</td></tr>
            </table>
        "#;
    let hits = parse_ddg_lite(html);
    assert_eq!(hits.len(), 2);
    assert_eq!(hits[0].title, "First & Best");
    assert_eq!(hits[0].url, "https://example.com/a");
    assert_eq!(hits[0].snippet, "A short snippet here.");
    assert_eq!(hits[1].url, "https://example.org/b");
    assert_eq!(hits[1].snippet, "Another snippet.");
}

#[test]
fn rows_without_url_or_title_are_skipped() {
    let html = "<a class='result-link'>No href</a><a href=\"\" class='result-link'>Empty</a><a href=\"u\" class='result-link'></a><a href=\"v\" class='result-link'>Ok</a>";
    let hits = parse_ddg_lite(html);
    assert_eq!(hits.len(), 1);
    assert_eq!(hits[0].url, "v");
    assert_eq!(hits[0].snippet, "");
    assert!(parse_ddg_lite("").is_empty());
}

#[test]
fn entities_and_attributes_are_read() {
    assert_eq!(decode_entities("&lt;a&gt; &quot;b&quot; &#x27;c&#39; &amp;amp;"), "<a> \"b\" 'c' &amp;");
    assert_eq!(inner_text("<td class='x'>a <b>b</b>  c</td>", "</td>").as_deref(), Some("a b c"));
    assert_eq!(inner_text("no tag", "</td>"), None);
    assert_eq!(attr_before("<p><a href=\"x\" ", "href").as_deref(), Some("x"));
    assert_eq!(attr_before("<p><a name=\"x\" ", "href"), None);
}

#[test]
fn results_are_formatted_one_per_line() {
    let long = "s".repeat(170);
    let text = format_results(vec![hit("A", "short", "http://a"), hit("B", &long, "http://b"), hit("C", "c", "http://c")], 2);
    let expected = format!("- A: short (http://a)\n- B: {}... (http://b)", "s".repeat(160));
    assert_eq!(text, expected);
    assert_eq!(format_results(Vec::new(), 5), "");
}

#[test]
fn search_falls_back_to_duckduckgo() {
    let c = cfg(true, 5);
    let first = web_search(&c, Ok(vec![hit("T", "s", "u")]), || -> Result<Vec<Hit>, String> { panic!("no fallback needed") });
    assert_eq!(first, "- T: s (u)");
    let fallback = web_search(&c, Err("refused".to_string()), || Ok(vec![hit("D", "d", "v")]));
    assert_eq!(fallback, "- D: d (v)");
    let empty = web_search(&c, Ok(Vec::new()), || Ok(Vec::new()));
    assert_eq!(empty, "web_search returned no results");
    let failed = web_search(&c, Ok(Vec::new()), || Err("timed out".to_string()));
    assert_eq!(failed, "web_search unavailable: timed out");
    assert_eq!(fallback_answer(1, Ok(vec![hit("a", "b", "c"), hit("d", "e", "f")])), "- a: b (c)");
}

#[test]
fn availability_probe_is_cached_for_a_minute() {
    let c = cfg(true, 5);
    let mut cache = AvailabilityCache::new();
    let stale = || -> bool { panic!("still fresh") };
    assert!(available(&c, &mut cache, 1_000, || true, || -> bool { panic!("searxng answered") }));
    assert!(available(&c, &mut cache, 60_999, stale, stale));
    assert!(!available(&c, &mut cache, 61_000, || false, || false));
    assert!(!available(&c, &mut cache, 500, stale, stale));
}

#[test]
fn availability_falls_back_to_duckduckgo() {
    let c = cfg(true, 5);
    let mut cache = AvailabilityCache::new();
    assert!(available(&c, &mut cache, 0, || false, || true));
    assert_eq!(cache.checked, Some((0, true)));
}

#[test]
fn searxng_results_become_hits() {
    let response = SearchResponse {
        results: vec![
            SearchResult { title: Some("T".to_string()), content: None, url: Some("u".to_string()) },
            SearchResult { title: None, content: Some("c".to_string()), url: None },
        ],
    };
    let hits = response.hits();
    assert_eq!(hits.len(), 2);
    assert_eq!((hits[0].title.as_str(), hits[0].snippet.as_str(), hits[0].url.as_str()), ("T", "", "u"));
    assert_eq!((hits[1].title.as_str(), hits[1].snippet.as_str(), hits[1].url.as_str()), ("", "c", ""));
}

#[test]
fn availability_decision_answers_or_probes() {
    let mut cache = AvailabilityCache::new();
    assert!(matches!(availability_decision(&cfg(false, 5), &cache, 0), Availability::Answer(false)));
    assert!(matches!(availability_decision(&cfg(true, 5), &cache, 0), Availability::Probe));
    cache.checked = Some((1_000, true));
    assert!(matches!(availability_decision(&cfg(true, 5), &cache, 60_999), Availability::Answer(true)));
    assert!(matches!(availability_decision(&cfg(true, 5), &cache, 61_000), Availability::Probe));
}
