//! What happens to a finished recording: checks, transcription, then pasting
//! (dictation) or answering and speaking (chat). Each step takes the outcome of
//! the work the step before asked for, and whether the recording is still the
//! current one (no newer hotkey press has interrupted it).
use vstd::prelude::*;
use crate::ui_state::{ANSWERING, ERROR, IDLE, NO_AUDIO, SPEAKING, TRANSCRIBING};

verus! {

/// Where a recording is in its processing.
pub enum Stage {
    /// Captured; not yet looked at.
    Captured,
    /// Waiting for voice-activity detection.
    AwaitSpeechCheck,
    /// Waiting for the transcript.
    AwaitTranscript,
    /// Dictation: transcript in hand, about to paste it.
    ReadyToPaste(String),
    /// Waiting for the paste.
    AwaitPaste,
    /// Chat: waiting for the answer.
    AwaitAnswer,
    /// Chat: waiting for the answer to be spoken.
    AwaitSpeech,
    /// Done with the work; the status returns to idle if still current.
    Closing,
    /// Nothing more to do.
    Done,
}

/// The outcome of voice-activity detection.
pub enum SpeechCheck {
    Speech,
    NoSpeech,
    Failed,
}

/// What was learned since the last step.
pub enum FlowEvent {
    /// The capture: whether it was silent (no microphone access), and whether VAD is on.
    Captured { silent: bool, vad_enabled: bool },
    SpeechChecked(SpeechCheck),
    /// The transcript, or `None` when transcription failed.
    Transcribed(Option<String>),
    /// The answer, or `None` when the chat call failed.
    Answered(Option<String>),
    /// Whether speaking succeeded.
    Spoke(bool),
    /// Whether pasting succeeded.
    Pasted(bool),
    /// Nothing new; go on.
    Proceed,
}

/// Work the app is to do next.
pub enum Work {
    CheckSpeech,
    Transcribe,
    Answer(String),
    Speak(String),
    Paste(String),
}

/// One step: the next stage, the status to show (if it changes), the
/// transcript to remember (if any), and the work to start (if any).
pub struct FlowStep {
    pub stage: Stage,
    pub status: Option<u8>,
    pub remember: Option<String>,
    pub work: Option<Work>,
}

/// The step taken at `stage` on `event`; `current` tells whether the recording
/// is still the current one; `chat` whether it is a chat recording.
pub open spec fn next_step(stage: Stage, event: FlowEvent, chat: bool, current: bool) -> FlowStep {
    match (stage, event) {
        (Stage::Captured, FlowEvent::Captured { silent, vad_enabled }) => if silent {
            FlowStep { stage: Stage::Done, status: Some(NO_AUDIO), remember: None, work: None }
        } else if vad_enabled {
            FlowStep { stage: Stage::AwaitSpeechCheck, status: None, remember: None, work: Some(Work::CheckSpeech) }
        } else {
            FlowStep { stage: Stage::AwaitTranscript, status: Some(TRANSCRIBING), remember: None, work: Some(Work::Transcribe) }
        },
        (Stage::AwaitSpeechCheck, FlowEvent::SpeechChecked(c)) => match c {
            SpeechCheck::NoSpeech => FlowStep { stage: Stage::Done, status: Some(IDLE), remember: None, work: None },
            _ => FlowStep { stage: Stage::AwaitTranscript, status: Some(TRANSCRIBING), remember: None, work: Some(Work::Transcribe) },
        },
        (Stage::AwaitTranscript, FlowEvent::Transcribed(r)) => if !current {
            FlowStep { stage: Stage::Done, status: None, remember: None, work: None }
        } else {
            match r {
                None => FlowStep { stage: Stage::Done, status: Some(ERROR), remember: None, work: None },
                Some(text) => if chat {
                    FlowStep { stage: Stage::AwaitAnswer, status: Some(ANSWERING), remember: Some(text), work: Some(Work::Answer(text)) }
                } else {
                    FlowStep { stage: Stage::ReadyToPaste(text), status: None, remember: Some(text), work: None }
                },
            }
        },
        (Stage::ReadyToPaste(text), FlowEvent::Proceed) => if !current {
            FlowStep { stage: Stage::Done, status: None, remember: None, work: None }
        } else {
            FlowStep { stage: Stage::AwaitPaste, status: None, remember: None, work: Some(Work::Paste(text)) }
        },
        (Stage::AwaitPaste, FlowEvent::Pasted(ok)) => FlowStep {
            stage: Stage::Closing,
            status: if ok { None } else { Some(ERROR) },
            remember: None,
            work: None,
        },
        (Stage::AwaitAnswer, FlowEvent::Answered(r)) => if !current {
            FlowStep { stage: Stage::Done, status: None, remember: None, work: None }
        } else {
            match r {
                Some(answer) => FlowStep { stage: Stage::AwaitSpeech, status: Some(SPEAKING), remember: None, work: Some(Work::Speak(answer)) },
                None => FlowStep { stage: Stage::Closing, status: Some(ERROR), remember: None, work: None },
            }
        },
        (Stage::AwaitSpeech, FlowEvent::Spoke(ok)) => FlowStep {
            stage: Stage::Closing,
            status: if !ok && current { Some(ERROR) } else { None },
            remember: None,
            work: None,
        },
        (Stage::Closing, FlowEvent::Proceed) => FlowStep {
            stage: Stage::Done,
            status: if current { Some(IDLE) } else { None },
            remember: None,
            work: None,
        },
        (s, _) => FlowStep { stage: s, status: None, remember: None, work: None },
    }
}

fn done() -> (r: FlowStep)
    ensures
        r == (FlowStep { stage: Stage::Done, status: None, remember: None, work: None }),
{
    FlowStep { stage: Stage::Done, status: None, remember: None, work: None }
}

/// Takes one step of processing a recording.
pub fn step(stage: Stage, event: FlowEvent, chat: bool, current: bool) -> (r: FlowStep)
    ensures
        r == next_step(stage, event, chat, current),
{
    match (stage, event) {
        (Stage::Captured, FlowEvent::Captured { silent, vad_enabled }) => if silent {
            FlowStep { stage: Stage::Done, status: Some(NO_AUDIO), remember: None, work: None }
        } else if vad_enabled {
            FlowStep { stage: Stage::AwaitSpeechCheck, status: None, remember: None, work: Some(Work::CheckSpeech) }
        } else {
            FlowStep { stage: Stage::AwaitTranscript, status: Some(TRANSCRIBING), remember: None, work: Some(Work::Transcribe) }
        },
        (Stage::AwaitSpeechCheck, FlowEvent::SpeechChecked(c)) => match c {
            SpeechCheck::NoSpeech => FlowStep { stage: Stage::Done, status: Some(IDLE), remember: None, work: None },
            _ => FlowStep { stage: Stage::AwaitTranscript, status: Some(TRANSCRIBING), remember: None, work: Some(Work::Transcribe) },
        },
        (Stage::AwaitTranscript, FlowEvent::Transcribed(r)) => if !current {
            done()
        } else {
            match r {
                None => FlowStep { stage: Stage::Done, status: Some(ERROR), remember: None, work: None },
                Some(text) => if chat {
                    let copy = text.clone();
                    let copy2 = text.clone();
                    FlowStep { stage: Stage::AwaitAnswer, status: Some(ANSWERING), remember: Some(copy), work: Some(Work::Answer(copy2)) }
                } else {
                    let copy = text.clone();
                    FlowStep { stage: Stage::ReadyToPaste(text), status: None, remember: Some(copy), work: None }
                },
            }
        },
        (Stage::ReadyToPaste(text), FlowEvent::Proceed) => if !current {
            done()
        } else {
            FlowStep { stage: Stage::AwaitPaste, status: None, remember: None, work: Some(Work::Paste(text)) }
        },
        (Stage::AwaitPaste, FlowEvent::Pasted(ok)) => FlowStep {
            stage: Stage::Closing,
            status: if ok { None } else { Some(ERROR) },
            remember: None,
            work: None,
        },
        (Stage::AwaitAnswer, FlowEvent::Answered(r)) => if !current {
            done()
        } else {
            match r {
                Some(answer) => FlowStep { stage: Stage::AwaitSpeech, status: Some(SPEAKING), remember: None, work: Some(Work::Speak(answer)) },
                None => FlowStep { stage: Stage::Closing, status: Some(ERROR), remember: None, work: None },
            }
        },
        (Stage::AwaitSpeech, FlowEvent::Spoke(ok)) => FlowStep {
            stage: Stage::Closing,
            status: if !ok && current { Some(ERROR) } else { None },
            remember: None,
            work: None,
        },
        (Stage::Closing, FlowEvent::Proceed) => FlowStep {
            stage: Stage::Done,
            status: if current { Some(IDLE) } else { None },
            remember: None,
            work: None,
        },
        (s, _) => FlowStep { stage: s, status: None, remember: None, work: None },
    }
}

/// A capture that is not silent is never dropped before transcription: with
/// voice-activity detection on, speech is checked first; with it off, the
/// audio goes straight to transcription and the status says so.
pub proof fn lemma_sound_capture_is_transcribed(vad_enabled: bool, chat: bool, current: bool)
    ensures
        ({
            let s = next_step(Stage::Captured, FlowEvent::Captured { silent: false, vad_enabled }, chat, current);
            &&& !(s.stage is Done)
            &&& vad_enabled ==> s.work == Some(Work::CheckSpeech)
            &&& !vad_enabled ==> s.work == Some(Work::Transcribe) && s.status == Some(TRANSCRIBING)
        }),
{
}

/// An interrupted recording goes quiet: once transcription was asked for,
/// a step taken when the recording is no longer current (a newer hotkey press
/// came) changes no status, remembers nothing, starts no work and ends the
/// processing, except a failed paste, which still shows the error.
pub proof fn lemma_interrupted_goes_quiet(stage: Stage, event: FlowEvent, chat: bool)
    requires
        stage is AwaitTranscript || stage is ReadyToPaste || stage is AwaitAnswer || stage is AwaitSpeech || stage is Closing,
    ensures
        next_step(stage, event, chat, false).status is None,
        next_step(stage, event, chat, false).remember is None,
        next_step(stage, event, chat, false).work is None,
        next_step(stage, event, chat, false).stage is Done || next_step(stage, event, chat, false).stage == stage
            || (stage is AwaitSpeech && next_step(stage, event, chat, false).stage is Closing),
{
}

/// Output goes only to the recording the user is still waiting for: work that
/// pastes or speaks is only ever started for a current recording.
pub proof fn lemma_output_only_when_current(stage: Stage, event: FlowEvent, chat: bool, current: bool)
    ensures
        next_step(stage, event, chat, current).work matches Some(w) ==> ((w is Paste || w is Speak || w is Answer) ==> current),
{
}

} // verus!
