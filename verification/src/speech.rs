//! Speaking answers: which engine speaks, the fallback to macOS `say`, the
//! `say` command line, and where each engine finds its model files.
use vstd::prelude::*;
use crate::config::SpeechConfig;
use crate::paths::{path_join, path_joined};
use crate::text::{join, join_strings, push_signed_decimal, push_str, same_text, signed_decimal, texts};

verus! {

/// The engine a backend name selects.
#[derive(Clone, Copy)]
pub enum SpeechRoute {
    Say,
    Kokoro,
    Supertonic,
    Unknown,
}

pub open spec fn route_of(backend: Seq<char>) -> SpeechRoute {
    if backend == "say"@ {
        SpeechRoute::Say
    } else if backend == "kokoro"@ {
        SpeechRoute::Kokoro
    } else if backend == "supertonic"@ {
        SpeechRoute::Supertonic
    } else {
        SpeechRoute::Unknown
    }
}

/// The engine for a backend name.
pub fn speech_route(backend: &str) -> (r: SpeechRoute)
    ensures
        r == route_of(backend@),
{
    if same_text(backend, "say") {
        SpeechRoute::Say
    } else if same_text(backend, "kokoro") {
        SpeechRoute::Kokoro
    } else if same_text(backend, "supertonic") {
        SpeechRoute::Supertonic
    } else {
        SpeechRoute::Unknown
    }
}

/// The error for a backend name that selects no engine.
pub open spec fn unknown_backend_text(backend: Seq<char>) -> Seq<char> {
    "unknown speech backend: "@ + backend
}

/// The log line when an engine fails and `say` takes over.
pub open spec fn fallback_note_text(backend: Seq<char>, err: Seq<char>) -> Seq<char> {
    "speech backend '"@ + backend + "' failed ("@ + err + "); falling back to say"@
}

fn fallback_note(backend: &str, err: &str) -> (r: String)
    ensures
        r@ == fallback_note_text(backend@, err@),
{
    let mut s = String::new();
    push_str(&mut s, "speech backend '");
    push_str(&mut s, backend);
    push_str(&mut s, "' failed (");
    push_str(&mut s, err);
    push_str(&mut s, "); falling back to say");
    s
}

pub open spec fn note_view(o: Option<String>) -> Option<Seq<char>> {
    match o {
        Some(s) => Some(s@),
        None => None,
    }
}

/// Speaks `text` as the configured backend says: `say` speaks for
/// the `say` backend; a model engine speaks for `kokoro` and `supertonic`,
/// and when it fails, or the backend is unknown, `say` speaks instead. The
/// result is the outcome and, when `say` took over, the line to log.
pub fn speak<E, S>(cfg: &SpeechConfig, engine: E, say: S) -> (r: (Result<(), String>, Option<String>)) where
    E: FnOnce(SpeechRoute) -> Result<(), String>,
    S: FnOnce() -> Result<(), String>,

    requires
        forall|route: SpeechRoute| call_requires(engine, (route,)),
        call_requires(say, ()),
    ensures
        route_of(cfg.backend@) is Say ==> call_ensures(say, (), r.0) && r.1 is None,
        route_of(cfg.backend@) is Unknown ==> call_ensures(say, (), r.0) && note_view(r.1) == Some(
            fallback_note_text(cfg.backend@, unknown_backend_text(cfg.backend@)),
        ),
        route_of(cfg.backend@) is Kokoro || route_of(cfg.backend@) is Supertonic ==> exists|e: Result<(), String>|
            #[trigger] call_ensures(engine, (route_of(cfg.backend@),), e) && match e {
                Ok(()) => r.0 is Ok && r.1 is None,
                Err(x) => call_ensures(say, (), r.0) && note_view(r.1) == Some(fallback_note_text(cfg.backend@, x@)),
            },
{
    let route = speech_route(cfg.backend.as_str());
    match route {
        SpeechRoute::Say => (say(), None),
        SpeechRoute::Unknown => {
            let mut err = String::new();
            push_str(&mut err, "unknown speech backend: ");
            push_str(&mut err, cfg.backend.as_str());
            let note = fallback_note(cfg.backend.as_str(), err.as_str());
            (say(), Some(note))
        },
        _ => {
            let e = engine(route);
            let ghost eg = e;
            let r = match e {
                Ok(()) => (Ok(()), None),
                Err(x) => {
                    let note = fallback_note(cfg.backend.as_str(), x.as_str());
                    (say(), Some(note))
                },
            };
            assert(call_ensures(engine, (route_of(cfg.backend@),), eg) && match eg {
                Ok(()) => r.0 is Ok && r.1 is None,
                Err(x) => call_ensures(say, (), r.0) && note_view(r.1) == Some(fallback_note_text(cfg.backend@, x@)),
            });
            r
        },
    }
}

/// The arguments of `/usr/bin/say`: the rate, the voice when one is set, then the text.
pub open spec fn say_args_text(text: Seq<char>, voice: Option<Seq<char>>, rate: int) -> Seq<Seq<char>> {
    seq!["-r"@, signed_decimal(rate)] + match voice {
        Some(v) => seq!["-v"@, v],
        None => Seq::empty(),
    } + seq![text]
}

/// The command line that speaks `text` with `say`.
pub fn say_args(text: &str, voice: Option<&str>, rate: i32) -> (r: Vec<String>)
    ensures
        texts(r@) == say_args_text(text@, match voice {
            Some(v) => Some(v@),
            None => None,
        }, rate as int),
{
    let mut rate_text = String::new();
    push_signed_decimal(&mut rate_text, rate as i64);
    let mut r = vec!["-r".to_string(), rate_text];
    match voice {
        Some(v) => {
            r.push("-v".to_string());
            r.push(v.to_string());
        },
        None => {},
    }
    r.push(text.to_string());
    assert(texts(r@) =~= say_args_text(text@, match voice {
        Some(v) => Some(v@),
        None => None,
    }, rate as int));
    r
}

/// The lexicon files Kokoro may use, in order.
pub open spec fn lexicon_candidates_text(dir: Seq<char>) -> Seq<Seq<char>> {
    seq![path_joined(dir, "lexicon-us-en.txt"@), path_joined(dir, "lexicon-zh.txt"@)]
}

/// The lexicon files to look for in a Kokoro model folder.
pub fn lexicon_candidates(dir: &str) -> (r: Vec<String>)
    ensures
        texts(r@) == lexicon_candidates_text(dir@),
{
    let r = vec![path_join(dir, "lexicon-us-en.txt"), path_join(dir, "lexicon-zh.txt")];
    assert(texts(r@) =~= lexicon_candidates_text(dir@));
    r
}

/// The lexicon setting for Kokoro: the lexicon files that exist, joined by
/// commas; empty when there are none.
pub fn kokoro_lexicon(existing: &Vec<String>) -> (r: String)
    ensures
        r@ == join(texts(existing@), ","@),
{
    join_strings(existing, ",")
}

/// The files of a Kokoro model folder, in the order the engine is given them:
/// model, voices, tokens, espeak-ng data, dictionary.
pub open spec fn kokoro_files_text(dir: Seq<char>) -> Seq<Seq<char>> {
    seq![
        path_joined(dir, "model.onnx"@),
        path_joined(dir, "voices.bin"@),
        path_joined(dir, "tokens.txt"@),
        path_joined(dir, "espeak-ng-data"@),
        path_joined(dir, "dict"@),
    ]
}

/// The Kokoro model files in `dir`.
pub fn kokoro_files(dir: &str) -> (r: Vec<String>)
    ensures
        texts(r@) == kokoro_files_text(dir@),
{
    let r = vec![
        path_join(dir, "model.onnx"),
        path_join(dir, "voices.bin"),
        path_join(dir, "tokens.txt"),
        path_join(dir, "espeak-ng-data"),
        path_join(dir, "dict"),
    ];
    assert(texts(r@) =~= kokoro_files_text(dir@));
    r
}

/// The files of a Supertonic model folder, in the order the engine is given
/// them: duration predictor, text encoder, vector estimator, vocoder, TTS
/// settings, unicode indexer, voice style.
pub open spec fn supertonic_files_text(dir: Seq<char>) -> Seq<Seq<char>> {
    seq![
        path_joined(dir, "duration_predictor.int8.onnx"@),
        path_joined(dir, "text_encoder.int8.onnx"@),
        path_joined(dir, "vector_estimator.int8.onnx"@),
        path_joined(dir, "vocoder.int8.onnx"@),
        path_joined(dir, "tts.json"@),
        path_joined(dir, "unicode_indexer.bin"@),
        path_joined(dir, "voice.bin"@),
    ]
}

/// The Supertonic model files in `dir`.
pub fn supertonic_files(dir: &str) -> (r: Vec<String>)
    ensures
        texts(r@) == supertonic_files_text(dir@),
{
    let r = vec![
        path_join(dir, "duration_predictor.int8.onnx"),
        path_join(dir, "text_encoder.int8.onnx"),
        path_join(dir, "vector_estimator.int8.onnx"),
        path_join(dir, "vocoder.int8.onnx"),
        path_join(dir, "tts.json"),
        path_join(dir, "unicode_indexer.bin"),
        path_join(dir, "voice.bin"),
    ];
    assert(texts(r@) =~= supertonic_files_text(dir@));
    r
}

/// Whether an engine must load its model again: when none is loaded, or it
/// was loaded from another folder.
pub fn needs_reload(loaded: bool, loaded_dir: &str, model_dir: &str) -> (r: bool)
    ensures
        r == !(loaded && loaded_dir@ == model_dir@),
{
    !(loaded && same_text(loaded_dir, model_dir))
}

} // verus!
