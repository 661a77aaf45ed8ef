//! Talking to the chat model: the prompts it is given, how its replies are
//! read, when a reply hands off to `web_search`, and the short memory of
//! recent exchanges that goes with each question.
use vstd::prelude::*;
use crate::config::Config;
use crate::text::{
    chars_of, join, join_strings, non_blank_pieces, push_str, rfind, rfind_in, same_text,
    split_char, split_ranges, string_of, texts, trim, trim_range, trimmed,
};
use crate::config::{non_blank_split, views};

verus! {

/// How an answer is delivered. Answers are spoken.
#[derive(Clone, Copy)]
pub enum ChatMode {
    Spoken,
}

// ---------------------------------------------------------------- prompts

/// The sentence on numbers that ends every transcription prompt.
pub const DIGITS_NOTE: &'static str = "Write digits rather than words (e.g. write 1.7 not one point seven, and 3 not three).";

/// How the prompt names the spoken language (`auto`: not named).
pub open spec fn source_phrase(source: Seq<char>) -> Seq<char> {
    if source == "auto"@ {
        "the original language"@
    } else {
        source
    }
}

/// The instruction sent with recorded audio: transcribe, or transcribe and
/// then translate into `target` after a `TARGET: ` marker line.
pub open spec fn transcription_prompt_text(source: Seq<char>, target: Seq<char>) -> Seq<char> {
    if target == "auto"@ {
        "Transcribe the following speech segment in "@ + source_phrase(source)
            + " into text. Output only the transcription with no extra commentary and no newlines. "@
            + DIGITS_NOTE@
    } else {
        "Transcribe the following speech segment in "@ + source_phrase(source)
            + ", then translate it into "@ + target
            + ". First output the transcription, then a newline, then '"@ + target
            + ": ' followed by the translation. "@ + DIGITS_NOTE@
    }
}

/// The transcription prompt for the configured languages.
pub fn transcription_prompt(cfg: &Config) -> (r: String)
    ensures
        r@ == transcription_prompt_text(cfg.language.source@, cfg.language.target@),
{
    let source: &str = if same_text(cfg.language.source.as_str(), "auto") {
        "the original language"
    } else {
        cfg.language.source.as_str()
    };
    let target = cfg.language.target.as_str();
    let mut s = String::new();
    push_str(&mut s, "Transcribe the following speech segment in ");
    push_str(&mut s, source);
    if same_text(target, "auto") {
        push_str(
            &mut s,
            " into text. Output only the transcription with no extra commentary and no newlines. ",
        );
    } else {
        push_str(&mut s, ", then translate it into ");
        push_str(&mut s, target);
        push_str(&mut s, ". First output the transcription, then a newline, then '");
        push_str(&mut s, target);
        push_str(&mut s, ": ' followed by the translation. ");
    }
    push_str(&mut s, DIGITS_NOTE);
    s
}

/// What the system prompt says after the date and time.
pub const SYSTEM_PROMPT_REST: &'static str = ". Answer the user's spoken question concisely in plain spoken prose. Do not use markdown, headings, bullet points, code blocks, or emoji. When time-sensitive or local, search with a specific keyword query that includes today's date and any place name. After searching, give the best direct answer from the results, including specific facts and numbers. Do not tell the user to check websites; summarize what the results say.";

/// The system prompt at the local time written `now`.
pub open spec fn system_prompt_text(now: Seq<char>) -> Seq<char> {
    "The current date and time is "@ + now + SYSTEM_PROMPT_REST@
}

/// The system prompt for the given local time text.
pub fn chat_system_prompt_at(now: &str) -> (r: String)
    ensures
        r@ == system_prompt_text(now@),
{
    let mut s = String::new();
    push_str(&mut s, "The current date and time is ");
    push_str(&mut s, now);
    push_str(&mut s, SYSTEM_PROMPT_REST);
    s
}

/// The local date and time, as `chrono::Local::now().format("%B %-d, %Y %-I:%M %p %Z")`
/// writes it. It depends on the clock and the time zone, so nothing is stated of it.
#[verifier::external_body]
fn local_time_text() -> String {
    chrono::Local::now().format("%B %-d, %Y %-I:%M %p %Z").to_string()
}

/// The system prompt at the current local time.
pub fn chat_system_prompt() -> (r: String)
    ensures
        exists|now: Seq<char>| r@ == system_prompt_text(now),
{
    let now = local_time_text();
    chat_system_prompt_at(now.as_str())
}

// ---------------------------------------------------------------- reading replies

/// The last line of `lines` that is not blank.
pub open spec fn last_non_blank(lines: Seq<Seq<char>>) -> Option<Seq<char>>
    decreases lines.len(),
{
    if lines.len() == 0 {
        None
    } else if trim(lines.last()).len() > 0 {
        Some(lines.last())
    } else {
        last_non_blank(lines.drop_last())
    }
}

/// The translation in a transcription reply: all of it, trimmed, when the
/// target is `auto`; else the text after the last `TARGET:` marker; else the
/// last non-blank line; all trimmed.
pub open spec fn translation_of(content: Seq<char>, target: Seq<char>) -> Seq<char> {
    if target == "auto"@ {
        trim(content)
    } else {
        let marker = target.push(':');
        match rfind(content, marker) {
            Some(i) => trim(content.skip(i + marker.len())),
            None => match last_non_blank(split_char(content, '\n')) {
                Some(line) => trim(line),
                None => trim(content),
            },
        }
    }
}

/// Picks the translation out of a transcription reply.
pub fn parse_translation_target(content: &str, target: &str) -> (r: String)
    ensures
        r@ == translation_of(content@, target@),
{
    if same_text(target, "auto") {
        return trimmed(content);
    }
    let v = chars_of(content);
    let mut marker = chars_of(target);
    marker.push(':');
    assert(marker@ =~= target@.push(':'));
    assert(v@.subrange(0, v@.len() as int) =~= v@);
    let found = rfind_in(&v, 0, v.len(), &marker);
    if let Some(i) = found {
        let start = i + marker.len();
        let (a, b) = trim_range(&v, start, v.len());
        assert(v@.subrange(start as int, v@.len() as int) =~= content@.skip(i + marker@.len()));
        return string_of(&v, a, b);
    }
    assert(rfind(content@, target@.push(':')) is None);
    let lines = split_ranges(&v, 0, v.len(), '\n');
    let ghost pieces = split_char(content@, '\n');
    assert(pieces.take(lines@.len() as int) =~= pieces);
    let mut k = lines.len();
    while k > 0
        invariant
            k <= lines@.len(),
            lines@.len() == pieces.len(),
            v@ == content@,
            pieces == split_char(content@, '\n'),
            target@ != "auto"@,
            rfind(content@, target@.push(':')) is None,
            forall|j: int|
                0 <= j < lines@.len() ==> (#[trigger] lines@[j]).0 <= lines@[j].1 <= v@.len()
                    && v@.subrange(lines@[j].0 as int, lines@[j].1 as int) == pieces[j],
            last_non_blank(pieces) == last_non_blank(pieces.take(k as int)),
        decreases k,
    {
        let (lo, hi) = lines[k - 1];
        let (a, b) = trim_range(&v, lo, hi);
        let ghost upto = pieces.take(k as int);
        assert(upto.last() == pieces[k - 1]);
        assert(upto.drop_last() =~= pieces.take(k - 1));
        if a < b {
            return string_of(&v, a, b);
        }
        k = k - 1;
    }
    assert(pieces.take(0) =~= Seq::<Seq<char>>::empty());
    trimmed(content)
}

/// Markdown characters that are not read aloud.
pub open spec fn is_markup(c: char) -> bool {
    c == '*' || c == '`' || c == '#'
}

/// Emoji and the characters that build them, which `say` would read out by
/// name: the pictograph, emoticon, transport, flag and supplemental symbol
/// blocks (U+1F000 to U+1FAFF), miscellaneous symbols and dingbats (U+2600 to
/// U+27BF), miscellaneous symbols and arrows (U+2B00 to U+2BFF), the variation
/// selectors (U+FE00 to U+FE0F), the zero-width joiner (U+200D), the keycap
/// mark (U+20E3) and the tag characters (U+E0020 to U+E007F).
pub open spec fn is_emoji(c: char) -> bool {
    ||| '\u{1F000}' <= c <= '\u{1FAFF}'
    ||| '\u{2600}' <= c <= '\u{27BF}'
    ||| '\u{2B00}' <= c <= '\u{2BFF}'
    ||| '\u{FE00}' <= c <= '\u{FE0F}'
    ||| c == '\u{200D}'
    ||| c == '\u{20E3}'
    ||| '\u{E0020}' <= c <= '\u{E007F}'
}

/// Characters left out of spoken text: markdown characters and emoji.
pub open spec fn is_unspoken(c: char) -> bool {
    is_markup(c) || is_emoji(c)
}

/// Whether `c` is left out of spoken text.
fn unspoken(c: char) -> (r: bool)
    ensures
        r == is_unspoken(c),
{
    c == '*' || c == '`' || c == '#'
        || ('\u{1F000}' <= c && c <= '\u{1FAFF}')
        || ('\u{2600}' <= c && c <= '\u{27BF}')
        || ('\u{2B00}' <= c && c <= '\u{2BFF}')
        || ('\u{FE00}' <= c && c <= '\u{FE0F}')
        || c == '\u{200D}'
        || c == '\u{20E3}'
        || ('\u{E0020}' <= c && c <= '\u{E007F}')
}

/// `s` without markdown characters and emoji.
pub open spec fn unmarked(s: Seq<char>) -> Seq<char>
    decreases s.len(),
{
    if s.len() == 0 {
        Seq::empty()
    } else if is_unspoken(s.last()) {
        unmarked(s.drop_last())
    } else {
        unmarked(s.drop_last()).push(s.last())
    }
}

/// An answer as it is spoken: markdown characters and emoji removed, then its non-blank
/// lines, trimmed, joined by single spaces.
pub open spec fn spoken_text(text: Seq<char>) -> Seq<char> {
    join(non_blank_pieces(split_char(unmarked(text), '\n')), " "@)
}

/// Makes a model answer fit for speech.
pub fn clean_spoken_text(text: &str) -> (r: String)
    ensures
        r@ == spoken_text(text@),
{
    let v = chars_of(text);
    let mut kept: Vec<char> = Vec::new();
    let mut i: usize = 0;
    while i < v.len()
        invariant
            i <= v@.len(),
            v@ == text@,
            kept@ == unmarked(v@.take(i as int)),
        decreases v@.len() - i,
    {
        let c = v[i];
        assert(v@.take(i + 1).drop_last() =~= v@.take(i as int));
        if !unspoken(c) {
            kept.push(c);
        }
        i = i + 1;
    }
    assert(v@.take(v@.len() as int) =~= v@);
    let plain = string_of(&kept, 0, kept.len());
    assert(kept@.subrange(0, kept@.len() as int) =~= kept@);
    let lines = non_blank_split(plain.as_str(), '\n');
    assert(views(lines@) =~= texts(lines@));
    join_strings(&lines, " ")
}

/// With the target language left at `auto`, the transcript is the whole
/// reply with only the surrounding whitespace removed: every line of it is
/// kept, whatever it holds.
pub proof fn lemma_auto_transcript_is_whole_reply(content: Seq<char>)
    ensures
        translation_of(content, "auto"@) == trim(content),
{
}

proof fn lemma_plain_text_unmarked(s: Seq<char>)
    requires
        forall|i: int| 0 <= i < s.len() ==> #[trigger] s[i] < '\u{2000}' && s[i] != '*' && s[i] != '`' && s[i] != '#',
    ensures
        unmarked(s) == s,
    decreases s.len(),
{
    if s.len() > 0 {
        lemma_plain_text_unmarked(s.drop_last());
        assert(s.last() == s[s.len() - 1]);
        assert(s.drop_last().push(s.last()) =~= s);
    }
}

proof fn lemma_split_without_separator(s: Seq<char>, c: char)
    requires
        forall|i: int| 0 <= i < s.len() ==> #[trigger] s[i] != c,
    ensures
        split_char(s, c) == seq![s],
    decreases s.len(),
{
    if s.len() == 0 {
        assert(s =~= Seq::<char>::empty());
        assert(split_char(s, c) =~= seq![s]);
    } else {
        lemma_split_without_separator(s.drop_last(), c);
        assert(s.last() == s[s.len() - 1]);
        assert(s.drop_last().push(s.last()) =~= s);
        assert(split_char(s, c) =~= seq![s]);
    }
}

/// Speaking changes nothing but the surrounding whitespace of a one-line
/// answer that holds no markdown character (`*`, backtick, `#`) and only
/// characters below U+2000 (letters of every common script, digits, signs
/// such as `-`, `+` and `.`): only markdown and emoji are ever removed.
pub proof fn lemma_plain_line_spoken_as_is(s: Seq<char>)
    requires
        forall|i: int| 0 <= i < s.len() ==> #[trigger] s[i] < '\u{2000}' && s[i] != '*' && s[i] != '`'
            && s[i] != '#' && s[i] != '\n',
    ensures
        spoken_text(s) == trim(s),
{
    lemma_plain_text_unmarked(s);
    lemma_split_without_separator(s, '\n');
    let p = seq![s];
    assert(p.drop_last() =~= Seq::<Seq<char>>::empty());
    assert(p.last() == s);
    assert(non_blank_pieces(p.drop_last()) =~= Seq::<Seq<char>>::empty());
    if trim(s).len() > 0 {
        assert(non_blank_pieces(p) =~= seq![trim(s)]);
    } else {
        assert(non_blank_pieces(p) =~= Seq::<Seq<char>>::empty());
        assert(trim(s) =~= Seq::<char>::empty());
    }
}

// ---------------------------------------------------------------- replies

/// A chat completion response.
pub struct ChatResponse {
    pub choices: Vec<Choice>,
}

/// One completion choice.
pub struct Choice {
    pub message: Message,
    pub finish_reason: Option<String>,
}

/// The assistant message of a choice.
pub struct Message {
    pub content: Option<String>,
    pub tool_calls: Option<Vec<ToolCall>>,
}

/// A tool call requested by the model.
pub struct ToolCall {
    pub id: String,
    pub kind: Option<String>,
    pub function: ToolFunction,
}

/// The function a tool call names, with its JSON arguments.
pub struct ToolFunction {
    pub name: Option<String>,
    pub arguments: String,
}

/// The choice asks for `web_search`: its first tool call names `web_search`
/// or names nothing. The finish reason is not consulted.
pub open spec fn wants_search(c: Choice) -> bool {
    match c.message.tool_calls {
        Some(calls) => calls.len() > 0 && match calls[0].function.name {
            None => true,
            Some(n) => n@ == "web_search"@,
        },
        None => false,
    }
}

impl Choice {
    /// The tool call to run, if the model asked for `web_search`.
    pub fn requested_tool_call(&self) -> (r: Option<&ToolCall>)
        ensures
            r is Some <==> wants_search(*self),
            r matches Some(call) ==> *call == self.message.tool_calls->0[0],
    {
        match &self.message.tool_calls {
            Some(calls) => {
                if calls.len() == 0 {
                    return None;
                }
                let call = &calls[0];
                match &call.function.name {
                    None => Some(call),
                    Some(name) => {
                        if same_text(name.as_str(), "web_search") {
                            Some(call)
                        } else {
                            None
                        }
                    },
                }
            },
            None => None,
        }
    }
}

/// What `serde_json` reads as the string member `key` of the JSON object in
/// `text`; `None` when `text` is not JSON, not an object, has no such member,
/// or the member is not a string.
pub uninterp spec fn json_string_member(text: Seq<char>, key: Seq<char>) -> Option<Seq<char>>;

/// Reads the string member `key` of the JSON object in `text` with
/// `serde_json::from_str::<Value>`, `Value::get` and `Value::as_str`.
/// Trusted: the result is the named `json_string_member(text, key)`; the JSON
/// grammar itself is left to `serde_json`.
#[verifier::external_body]
fn json_string_member_of(text: &str, key: &str) -> (r: Option<String>)
    ensures
        r matches Some(s) ==> json_string_member(text@, key@) == Some(s@),
        r is None ==> json_string_member(text@, key@) is None,
{
    serde_json::from_str::<serde_json::Value>(text).ok().and_then(
        |value| value.get(key).and_then(|member| member.as_str()).map(|s| s.to_string()),
    )
}

/// The tool call sent back to the model with the search results; missing
/// fields take their usual values (`function`, `web_search`).
pub struct AssistantToolCall {
    pub id: String,
    pub kind: String,
    pub name: String,
    pub arguments: String,
}

/// The text of an optional field, or `default` when it is absent.
pub open spec fn or_text(o: Option<String>, default: Seq<char>) -> Seq<char> {
    match o {
        Some(s) => s@,
        None => default,
    }
}

fn text_or(o: &Option<String>, default: &str) -> (r: String)
    ensures
        r@ == or_text(*o, default@),
{
    match o {
        Some(s) => s.clone(),
        None => default.to_string(),
    }
}

impl ToolCall {
    /// The `query` string of the call's JSON arguments.
    pub fn query(&self) -> (r: Option<String>)
        ensures
            r matches Some(q) ==> json_string_member(self.function.arguments@, "query"@) == Some(q@),
            r is None ==> json_string_member(self.function.arguments@, "query"@) is None,
    {
        json_string_member_of(self.function.arguments.as_str(), "query")
    }

    /// The call as echoed back to the model.
    pub fn assistant_call(&self) -> (r: AssistantToolCall)
        ensures
            r.id@ == self.id@,
            r.kind@ == or_text(self.kind, "function"@),
            r.name@ == or_text(self.function.name, "web_search"@),
            r.arguments@ == self.function.arguments@,
    {
        AssistantToolCall {
            id: self.id.clone(),
            kind: text_or(&self.kind, "function"),
            name: text_or(&self.function.name, "web_search"),
            arguments: self.function.arguments.clone(),
        }
    }
}

/// The text of the first choice, empty when there is none.
pub open spec fn first_content(r: ChatResponse) -> Seq<char> {
    if r.choices.len() > 0 {
        or_text(r.choices[0].message.content, Seq::empty())
    } else {
        Seq::empty()
    }
}

fn first_content_of(response: &ChatResponse) -> (r: String)
    ensures
        r@ == first_content(*response),
{
    proof {
        reveal_strlit("");
    }
    if response.choices.len() > 0 {
        text_or(&response.choices[0].message.content, "")
    } else {
        String::new()
    }
}

/// The transcript in a transcription response: the first choice's text,
/// trimmed, read for the configured target language.
pub fn transcript_from(response: &ChatResponse, target: &str) -> (r: String)
    ensures
        r@ == translation_of(trim(first_content(*response)), target@),
{
    let content = first_content_of(response);
    let t = trimmed(content.as_str());
    parse_translation_target(t.as_str(), target)
}

/// The spoken answer in a response: the first choice's text, cleaned for speech.
pub fn reply_text(response: &ChatResponse) -> (r: String)
    ensures
        r@ == spoken_text(first_content(*response)),
{
    let content = first_content_of(response);
    clean_spoken_text(content.as_str())
}

/// What the first reply to a question leads to.
pub enum FirstReply {
    /// The model answered; this is the spoken answer.
    Answer(String),
    /// The model asked for a web search: run `query`, then send `call` and the
    /// results back for the final answer.
    Search { query: String, call: AssistantToolCall },
}

/// Reads the first reply to `question`: an
/// error when it has no choices; a search when the first choice asks for
/// `web_search` (with the call's query, or the question itself when the
/// arguments carry none); else the first choice's text, cleaned for speech.
pub fn first_reply(response: &ChatResponse, question: &str) -> (r: Result<FirstReply, String>)
    ensures
        response.choices.len() == 0 <==> r is Err,
        r matches Err(e) ==> e@ == "chat response had no choices"@,
        r matches Ok(FirstReply::Answer(a)) ==> !wants_search(response.choices[0])
            && a@ == spoken_text(first_content(*response)),
        r matches Ok(FirstReply::Search { query, call }) ==> wants_search(response.choices[0])
            && query@ == (match json_string_member(
                response.choices[0].message.tool_calls->0[0].function.arguments@,
                "query"@,
            ) {
                Some(q) => q,
                None => question@,
            }) && call.id@ == response.choices[0].message.tool_calls->0[0].id@
            && call.kind@ == or_text(response.choices[0].message.tool_calls->0[0].kind, "function"@)
            && call.name@ == or_text(
                response.choices[0].message.tool_calls->0[0].function.name,
                "web_search"@,
            ) && call.arguments@ == response.choices[0].message.tool_calls->0[0].function.arguments@,
        r is Ok ==> (r->Ok_0 is Search <==> wants_search(response.choices[0])),
{
    if response.choices.len() == 0 {
        return Err("chat response had no choices".to_string());
    }
    let choice = &response.choices[0];
    match choice.requested_tool_call() {
        Some(call) => {
            let query = match call.query() {
                Some(q) => q,
                None => question.to_string(),
            };
            Ok(FirstReply::Search { query, call: call.assistant_call() })
        },
        None => Ok(FirstReply::Answer(reply_text(response))),
    }
}

// ---------------------------------------------------------------- request data

/// The Base64 digit for a value below 64 (RFC 4648 standard alphabet).
pub open spec fn base64_digit(v: int) -> char {
    if v < 26 {
        (65 + v) as char
    } else if v < 52 {
        (97 + v - 26) as char
    } else if v < 62 {
        (48 + v - 52) as char
    } else if v == 62 {
        '+'
    } else {
        '/'
    }
}

/// Standard Base64 with `=` padding: every three bytes become four digits; a
/// last group of one or two bytes is padded to four.
pub open spec fn base64_standard(b: Seq<u8>) -> Seq<char>
    decreases b.len(),
{
    if b.len() == 0 {
        Seq::empty()
    } else if b.len() == 1 {
        seq![base64_digit(b[0] as int / 4), base64_digit((b[0] as int % 4) * 16), '=', '=']
    } else if b.len() == 2 {
        seq![
            base64_digit(b[0] as int / 4),
            base64_digit((b[0] as int % 4) * 16 + b[1] as int / 16),
            base64_digit((b[1] as int % 16) * 4),
            '=',
        ]
    } else {
        seq![
            base64_digit(b[0] as int / 4),
            base64_digit((b[0] as int % 4) * 16 + b[1] as int / 16),
            base64_digit((b[1] as int % 16) * 4 + b[2] as int / 64),
            base64_digit(b[2] as int % 64),
        ] + base64_standard(b.skip(3))
    }
}

/// `base64::engine::general_purpose::STANDARD.encode`.
/// Trusted: the crate documents this engine as the RFC 4648 standard
/// alphabet with padding, which `base64_standard` writes out.
#[verifier::external_body]
fn base64_encode(bytes: &[u8]) -> (r: String)
    ensures
        r@ == base64_standard(bytes@),
{
    base64::Engine::encode(&base64::engine::general_purpose::STANDARD, bytes)
}

/// What a transcription request carries: the prompt and the recording.
pub struct TranscriptionRequest {
    pub prompt: String,
    /// The WAV bytes in standard Base64.
    pub audio: String,
}

/// The transcription request for a WAV recording.
pub fn transcription_request(cfg: &Config, wav: &[u8]) -> (r: TranscriptionRequest)
    ensures
        r.prompt@ == transcription_prompt_text(cfg.language.source@, cfg.language.target@),
        r.audio@ == base64_standard(wav@),
{
    TranscriptionRequest { prompt: transcription_prompt(cfg), audio: base64_encode(wav) }
}

// ---------------------------------------------------------------- memory

/// The most exchanges kept.
pub const HISTORY_TURNS: usize = 4;

/// One remembered exchange, with when it ended (milliseconds on a monotonic clock).
pub struct HistoryTurn {
    pub at_ms: u64,
    pub question: String,
    pub answer: String,
}

/// An exchange as `(time, question, answer)`.
pub open spec fn turn_view(t: HistoryTurn) -> (u64, Seq<char>, Seq<char>) {
    (t.at_ms, t.question@, t.answer@)
}

/// The newest four of `s`.
pub open spec fn newest(s: Seq<(u64, Seq<char>, Seq<char>)>) -> Seq<(u64, Seq<char>, Seq<char>)> {
    if s.len() > HISTORY_TURNS {
        s.skip(s.len() - HISTORY_TURNS)
    } else {
        s
    }
}

/// Time since `at`, zero when the clock reads earlier (as `Instant::elapsed` saturates).
pub open spec fn age_ms(at: u64, now: u64) -> int {
    if now >= at { now - at } else { 0 }
}

/// The exchanges no older than `context_seconds` (negative counts as zero), in order.
pub open spec fn still_fresh(s: Seq<(u64, Seq<char>, Seq<char>)>, now: u64, context_seconds: int) -> Seq<(u64, Seq<char>, Seq<char>)>
    decreases s.len(),
{
    if s.len() == 0 {
        Seq::empty()
    } else {
        let rest = still_fresh(s.drop_last(), now, context_seconds);
        let max_ms = if context_seconds > 0 { context_seconds * 1000 } else { 0 };
        if age_ms(s.last().0, now) <= max_ms {
            rest.push(s.last())
        } else {
            rest
        }
    }
}

/// The recent exchanges sent along with each question.
pub struct ConversationMemory {
    turns: Vec<HistoryTurn>,
}

impl View for ConversationMemory {
    type V = Seq<(u64, Seq<char>, Seq<char>)>;

    closed spec fn view(&self) -> Seq<(u64, Seq<char>, Seq<char>)> {
        self.turns@.map_values(|t: HistoryTurn| turn_view(t))
    }
}

impl ConversationMemory {
    #[verifier::type_invariant]
    closed spec fn holds_few(self) -> bool {
        self.turns@.len() <= HISTORY_TURNS
    }

    /// Nothing remembered.
    pub fn new() -> (r: ConversationMemory)
        ensures
            r@ == Seq::<(u64, Seq<char>, Seq<char>)>::empty(),
    {
        let r = ConversationMemory { turns: Vec::new() };
        assert(r@ =~= Seq::<(u64, Seq<char>, Seq<char>)>::empty());
        r
    }

    /// Records an exchange that ended at `at_ms`, dropping the oldest beyond four.
    pub fn remember(&mut self, at_ms: u64, question: &str, answer: &str)
        ensures
            final(self)@ == newest(old(self)@.push((at_ms, question@, answer@))),
            final(self)@.len() <= HISTORY_TURNS,
    {
        proof {
            use_type_invariant(&*self);
        }
        let ghost before = self@;
        let mut turns: Vec<HistoryTurn> = Vec::new();
        std::mem::swap(&mut turns, &mut self.turns);
        assert(turns@.map_values(|t: HistoryTurn| turn_view(t)) == before);
        turns.push(HistoryTurn { at_ms, question: question.to_string(), answer: answer.to_string() });
        let ghost pushed = before.push((at_ms, question@, answer@));
        assert(turns@.map_values(|t: HistoryTurn| turn_view(t)) =~= pushed);
        if turns.len() > HISTORY_TURNS {
            let _ = turns.remove(0);
            assert(turns@.map_values(|t: HistoryTurn| turn_view(t)) =~= newest(pushed));
        }
        self.turns = turns;
    }

    /// Forgets exchanges older than `context_seconds` and gives the rest, oldest
    /// first, as `(question, answer)`.
    pub fn recent(&mut self, now_ms: u64, context_seconds: i64) -> (r: Vec<(String, String)>)
        ensures
            final(self)@ == still_fresh(old(self)@, now_ms, context_seconds as int),
            final(self)@.len() <= HISTORY_TURNS,
            r@.len() == final(self)@.len(),
            forall|k: int|
                0 <= k < r@.len() ==> (#[trigger] r@[k]).0@ == final(self)@[k].1 && r@[k].1@
                    == final(self)@[k].2,
    {
        proof {
            use_type_invariant(&*self);
        }
        let ghost before = self@;
        let mut turns: Vec<HistoryTurn> = Vec::new();
        std::mem::swap(&mut turns, &mut self.turns);
        assert(turns@.map_values(|t: HistoryTurn| turn_view(t)) == before);
        let max_ms: u128 = if context_seconds > 0 { (context_seconds as u128) * 1000 } else { 0 };
        let mut kept: Vec<HistoryTurn> = Vec::new();
        let mut pairs: Vec<(String, String)> = Vec::new();
        let mut i: usize = 0;
        while i < turns.len()
            invariant
                i <= turns@.len(),
                turns@.len() <= HISTORY_TURNS,
                before == turns@.map_values(|t: HistoryTurn| turn_view(t)),
                max_ms == (if context_seconds > 0 { context_seconds * 1000 } else { 0 }),
                kept@.map_values(|t: HistoryTurn| turn_view(t)) == still_fresh(before.take(i as int), now_ms, context_seconds as int),
                kept@.len() <= i,
                pairs@.len() == kept@.len(),
                forall|k: int|
                    0 <= k < pairs@.len() ==> (#[trigger] pairs@[k]).0@ == kept@[k].question@
                        && pairs@[k].1@ == kept@[k].answer@,
            decreases turns@.len() - i,
        {
            let at = turns[i].at_ms;
            let age: u64 = if now_ms >= at { now_ms - at } else { 0 };
            let ghost upto = before.take(i + 1);
            assert(upto.drop_last() =~= before.take(i as int));
            assert(upto.last() == turn_view(turns@[i as int]));
            if (age as u128) <= max_ms {
                let t = HistoryTurn {
                    at_ms: at,
                    question: turns[i].question.clone(),
                    answer: turns[i].answer.clone(),
                };
                pairs.push((turns[i].question.clone(), turns[i].answer.clone()));
                kept.push(t);
                assert(kept@.map_values(|t: HistoryTurn| turn_view(t)) =~= still_fresh(before.take(i as int), now_ms, context_seconds as int).push(turn_view(turns@[i as int])));
            }
            i = i + 1;
        }
        assert(before.take(turns@.len() as int) =~= before);
        self.turns = kept;
        pairs
    }
}

/// After an exchange is remembered it is the newest one held, and no more
/// than four are held.
pub proof fn lemma_remember_keeps_newest(before: Seq<(u64, Seq<char>, Seq<char>)>, turn: (u64, Seq<char>, Seq<char>))
    ensures
        newest(before.push(turn)).len() <= HISTORY_TURNS,
        newest(before.push(turn)).last() == turn,
        newest(before.push(turn)).len() > 0,
{
}

} // verus!
