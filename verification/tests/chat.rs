use yappr::chat::{
    chat_system_prompt, chat_system_prompt_at, clean_spoken_text, first_reply,
    parse_translation_target, reply_text, transcript_from, transcription_prompt,
    transcription_request, ChatResponse, Choice, ConversationMemory, FirstReply, Message, ToolCall,
    ToolFunction,
};
use yappr::config::Config;
use yappr::ini::Ini;
use yappr::config::DEFAULT_CONFIG;

fn config_from(input: &str) -> Config {
    let mut ini = Ini::new();
    ini.merge(DEFAULT_CONFIG);
    ini.merge(input);
    Config::from_ini(&mut ini)
}

fn call(id: &str, kind: Option<&str>, name: Option<&str>, arguments: &str) -> ToolCall {
    ToolCall {
        id: id.to_string(),
        kind: kind.map(|k| k.to_string()),
        function: ToolFunction {
            name: name.map(|n| n.to_string()),
            arguments: arguments.to_string(),
        },
    }
}

fn choice(finish_reason: Option<&str>, content: Option<&str>, tool_calls: Option<Vec<ToolCall>>) -> Choice {
    Choice {
        message: Message {
            content: content.map(|c| c.to_string()),
            tool_calls,
        },
        finish_reason: finish_reason.map(|f| f.to_string()),
    }
}

#[test]
fn parses_translation_after_target_marker() {
    let text = "hello there\nSpanish: hola";
    assert_eq!(parse_translation_target(text, "Spanish"), "hola");
}

#[test]
fn translation_parse_falls_back_to_last_non_empty_line() {
    let text = "hello there\n\nhola";
    assert_eq!(parse_translation_target(text, "Spanish"), "hola");
}

#[test]
fn spoken_text_removes_markdown_noise() {
    assert_eq!(
        clean_spoken_text("# Title\n\n*hello* `there`"),
        "Title hello there"
    );
}

#[test]
fn extracts_tool_query_json() {
    let call = call(
        "1",
        Some("function"),
        Some("web_search"),
        r#"{"query":"weather June 8 2026 San Francisco"}"#,
    );
    assert_eq!(
        call.query().as_deref(),
        Some("weather June 8 2026 San Francisco")
    );
}

#[test]
fn tool_query_is_none_for_malformed_arguments() {
    let call = call("1", None, Some("web_search"), "not json");
    assert_eq!(call.query(), None);
}

#[test]
fn hands_off_when_finish_reason_is_tool_calls() {
    let choice = choice(
        Some("tool_calls"),
        None,
        Some(vec![call("a", Some("function"), Some("web_search"), "{\"query\":\"x\"}")]),
    );
    assert!(choice.requested_tool_call().is_some());
}

#[test]
fn hands_off_when_tool_calls_present_but_finish_reason_is_stop() {
    let choice = choice(Some("stop"), None, Some(vec![call("a", None, Some("web_search"), "{}")]));
    assert!(choice.requested_tool_call().is_some());
}

#[test]
fn no_hand_off_when_no_tool_calls() {
    let choice = choice(Some("stop"), Some("just an answer"), None);
    assert!(choice.requested_tool_call().is_none());
}

#[test]
fn ignores_tool_call_for_unknown_function() {
    let choice = choice(
        Some("tool_calls"),
        None,
        Some(vec![call("a", None, Some("do_something_else"), "{}")]),
    );
    assert!(choice.requested_tool_call().is_none());
}

#[test]
fn hands_off_when_tool_call_names_no_function() {
    let choice = choice(None, None, Some(vec![call("a", None, None, "{}")]));
    assert!(choice.requested_tool_call().is_some());
    let empty = choice_with_no_calls();
    assert!(empty.requested_tool_call().is_none());
}

fn choice_with_no_calls() -> Choice {
    choice(Some("tool_calls"), None, Some(Vec::new()))
}

#[test]
fn translation_uses_last_marker_and_auto_keeps_everything() {
    assert_eq!(
        parse_translation_target("Spanish: uno\nSpanish:  dos  ", "Spanish"),
        "dos"
    );
    assert_eq!(parse_translation_target("  just text \n", "auto"), "just text");
    assert_eq!(parse_translation_target("   \n  ", "Spanish"), "");
}

#[test]
fn spoken_text_joins_lines_and_drops_blank_ones() {
    assert_eq!(clean_spoken_text("  a  \n\n  b\n"), "a b");
    assert_eq!(clean_spoken_text("***"), "");
}

#[test]
fn spoken_text_drops_emoji() {
    assert_eq!(clean_spoken_text("Penguins 🐧 are great! 👍🏽\n☀️ Sunny"), "Penguins  are great! Sunny");
    assert_eq!(clean_spoken_text("Family: 👨\u{200D}👩\u{200D}👧 … done ⭐"), "Family:  … done");
    assert_eq!(clean_spoken_text("🎉"), "");
}

#[test]
fn transcription_prompt_names_languages() {
    let auto = config_from("");
    assert_eq!(
        transcription_prompt(&auto),
        "Transcribe the following speech segment in the original language into text. Output only the transcription with no extra commentary and no newlines. Write digits rather than words (e.g. write 1.7 not one point seven, and 3 not three)."
    );
    let translate = config_from("[language]\nsource = English\ntarget = Spanish\n");
    assert_eq!(
        transcription_prompt(&translate),
        "Transcribe the following speech segment in English, then translate it into Spanish. First output the transcription, then a newline, then 'Spanish: ' followed by the translation. Write digits rather than words (e.g. write 1.7 not one point seven, and 3 not three)."
    );
}

#[test]
fn transcription_request_encodes_audio_in_base64() {
    let cfg = config_from("");
    let request = transcription_request(&cfg, b"hi!?");
    assert_eq!(request.audio, "aGkhPw==");
    assert_eq!(transcription_request(&cfg, b"").audio, "");
    assert_eq!(transcription_request(&cfg, b"abc").audio, "YWJj");
    assert_eq!(request.prompt, transcription_prompt(&cfg));
}

#[test]
fn system_prompt_states_the_time() {
    let p = chat_system_prompt_at("June 8, 2026 9:00 AM PDT");
    assert!(p.starts_with("The current date and time is June 8, 2026 9:00 AM PDT. Answer"));
    assert!(chat_system_prompt().starts_with("The current date and time is "));
}

#[test]
fn first_reply_answers_searches_or_fails() {
    let none = ChatResponse { choices: Vec::new() };
    assert_eq!(
        first_reply(&none, "q").err().as_deref(),
        Some("chat response had no choices")
    );
    let plain = ChatResponse {
        choices: vec![choice(Some("stop"), Some("**Hi** there"), None)],
    };
    match first_reply(&plain, "q") {
        Ok(FirstReply::Answer(a)) => assert_eq!(a, "Hi there"),
        _ => panic!("expected an answer"),
    }
    let search = ChatResponse {
        choices: vec![choice(None, None, Some(vec![call("c1", None, None, "{\"query\":\"news\"}")]))],
    };
    match first_reply(&search, "q") {
        Ok(FirstReply::Search { query, call }) => {
            assert_eq!(query, "news");
            assert_eq!(call.id, "c1");
            assert_eq!(call.kind, "function");
            assert_eq!(call.name, "web_search");
            assert_eq!(call.arguments, "{\"query\":\"news\"}");
        }
        _ => panic!("expected a search"),
    }
    let no_query = ChatResponse {
        choices: vec![choice(None, None, Some(vec![call("c2", Some("function"), Some("web_search"), "{}")]))],
    };
    match first_reply(&no_query, "what is new") {
        Ok(FirstReply::Search { query, .. }) => assert_eq!(query, "what is new"),
        _ => panic!("expected a search"),
    }
}

#[test]
fn replies_are_read_from_the_first_choice() {
    let r = ChatResponse {
        choices: vec![
            choice(None, Some("  hello there\nSpanish: hola \n"), None),
            choice(None, Some("other"), None),
        ],
    };
    assert_eq!(transcript_from(&r, "Spanish"), "hola");
    assert_eq!(reply_text(&r), "hello there Spanish: hola");
    let empty = ChatResponse { choices: Vec::new() };
    assert_eq!(reply_text(&empty), "");
}

#[test]
fn memory_keeps_the_newest_four_and_forgets_old_turns() {
    let mut memory = ConversationMemory::new();
    for i in 0..6u64 {
        memory.remember(i * 1000, &format!("q{i}"), &format!("a{i}"));
    }
    let recent = memory.recent(5000, 60);
    assert_eq!(recent.len(), 4);
    assert_eq!(recent[0], ("q2".to_string(), "a2".to_string()));
    assert_eq!(recent[3], ("q5".to_string(), "a5".to_string()));
    let fresh = memory.recent(6500, 3);
    assert_eq!(fresh.len(), 2);
    assert_eq!(fresh[0].0, "q4");
    assert!(memory.recent(100_000, 0).is_empty());
    let mut clocked = ConversationMemory::new();
    clocked.remember(5000, "q", "a");
    assert_eq!(clocked.recent(1000, -5).len(), 1);
}
