//! Decisions of the running app: hotkey presses, announcements, readiness,
//! interruption and provisioning of the backend.
use vstd::prelude::*;
use crate::text::{decimal, push_decimal, push_str};
use crate::ui_state::{ERROR, IDLE, NOTICE, PROVISIONING_ENGINE, PROVISIONING_MODEL, RECORDING_CHAT, RECORDING_DICTATE, STARTING};

verus! {

/// What a press of the hotkey does.
pub enum HotkeyPress {
    /// The backend is not ready: say this instead.
    Announce(String),
    /// A recording is already running; ignore the press.
    AlreadyRecording,
    /// Start recording under `epoch`, the next one (so work of earlier epochs
    /// is dropped as no longer current); `interrupt` stops the speech of the
    /// answer that was still being worked on; `busy` is the busy flag from
    /// now on (cleared).
    Start { interrupt: bool, epoch: u64, busy: bool },
}

/// The epoch after `epoch`, wrapping around after the largest.
pub open spec fn next_epoch(epoch: u64) -> u64 {
    if epoch == u64::MAX { 0 } else { (epoch + 1) as u64 }
}

/// The message spoken when the backend is not ready yet.
pub open spec fn not_ready_message(status: u8, download_percent: Option<u8>) -> Seq<char> {
    if status == PROVISIONING_MODEL {
        match download_percent {
            Some(p) => "I'm still fetching files, "@ + decimal(p as nat) + " percent done."@,
            None => "I'm still fetching files, one moment."@,
        }
    } else {
        "I'm still starting up, one moment."@
    }
}

/// Decides what a hotkey press does, given the readiness and status of the
/// backend, the download progress, whether a recording runs, whether earlier
/// work is still busy, and the current epoch.
pub fn hotkey_down(
    ready: bool,
    status: u8,
    download_percent: Option<u8>,
    recording: bool,
    busy: bool,
    epoch: u64,
) -> (r: HotkeyPress)
    ensures
        !ready ==> (r matches HotkeyPress::Announce(m) && m@ == not_ready_message(status, download_percent)),
        ready && recording ==> r is AlreadyRecording,
        ready && !recording ==> r == (HotkeyPress::Start { interrupt: busy, epoch: next_epoch(epoch), busy: false }),
{
    if !ready {
        let msg = if status == PROVISIONING_MODEL {
            match download_percent {
                Some(p) => {
                    let mut m = String::from_str("I'm still fetching files, ");
                    push_decimal(&mut m, p as u64);
                    push_str(&mut m, " percent done.");
                    m
                },
                None => String::from_str("I'm still fetching files, one moment."),
            }
        } else {
            String::from_str("I'm still starting up, one moment.")
        };
        return HotkeyPress::Announce(msg);
    }
    if recording {
        return HotkeyPress::AlreadyRecording;
    }
    let next = if epoch == u64::MAX { 0 } else { epoch + 1 };
    HotkeyPress::Start { interrupt: busy, epoch: next, busy: false }
}

/// A press that starts a recording makes all work begun under the previous
/// epoch stale: the new epoch differs from it, so that work is no longer
/// current.
pub proof fn lemma_press_makes_earlier_work_stale(epoch: u64)
    ensures
        next_epoch(epoch) != epoch,
{
}

/// Whether releasing the hotkey stops a recording: only when one is running.
pub fn hotkey_up(recording: bool) -> (r: bool)
    ensures
        r == recording,
{
    recording
}

/// Whether a status announcement may be spoken now, `elapsed_ms` after the last
/// one: at most one every six seconds, so repeated presses do not pile up speech.
pub fn should_announce(elapsed_ms: u64) -> (r: bool)
    ensures
        r == (elapsed_ms >= 6000),
{
    elapsed_ms >= 6000
}

/// The status to show once the backend is ready: idle, unless a permission
/// notice is showing, which stays.
pub fn ready_status(status: u8) -> (r: Option<u8>)
    ensures
        status == NOTICE ==> r is None,
        status != NOTICE ==> r == Some(IDLE),
{
    if status != NOTICE {
        Some(IDLE)
    } else {
        None
    }
}

/// Whether a recording made under `epoch` is still the current one, given the
/// latest epoch (`None` when no runtime is installed).
pub fn is_current(latest: Option<u64>, epoch: u64) -> (r: bool)
    ensures
        r == (latest is None || latest == Some(epoch)),
{
    match latest {
        None => true,
        Some(e) => e == epoch,
    }
}

/// The status shown while recording.
pub fn recording_status(chat: bool) -> (r: u8)
    ensures
        r == (if chat { RECORDING_CHAT } else { RECORDING_DICTATE }),
{
    if chat {
        RECORDING_CHAT
    } else {
        RECORDING_DICTATE
    }
}

/// Provisioning of the backend: model download, engine install, server start.
pub enum Provision {
    Begin,
    FetchingModel,
    InstallingEngine,
    StartingServer,
    Ready,
    Failed,
}

/// The next provisioning stage after `stage` ended (`ok` says whether its work
/// succeeded; for the model, whether both files are there), and the status to
/// show. Without a managed server, the backend is ready at once.
pub open spec fn provision_next(stage: Provision, manage: bool, ok: bool) -> (Provision, Option<u8>) {
    match stage {
        Provision::Begin => if manage { (Provision::FetchingModel, Some(PROVISIONING_MODEL)) } else { (Provision::Ready, None) },
        Provision::FetchingModel => if ok { (Provision::InstallingEngine, Some(PROVISIONING_ENGINE)) } else { (Provision::Failed, Some(ERROR)) },
        Provision::InstallingEngine => if ok { (Provision::StartingServer, Some(STARTING)) } else { (Provision::Failed, Some(ERROR)) },
        Provision::StartingServer => if ok { (Provision::Ready, None) } else { (Provision::Failed, Some(ERROR)) },
        Provision::Ready => (Provision::Ready, None),
        Provision::Failed => (Provision::Failed, None),
    }
}

pub fn provision_step(stage: Provision, manage: bool, ok: bool) -> (r: (Provision, Option<u8>))
    ensures
        r == provision_next(stage, manage, ok),
{
    match stage {
        Provision::Begin => if manage { (Provision::FetchingModel, Some(PROVISIONING_MODEL)) } else { (Provision::Ready, None) },
        Provision::FetchingModel => if ok { (Provision::InstallingEngine, Some(PROVISIONING_ENGINE)) } else { (Provision::Failed, Some(ERROR)) },
        Provision::InstallingEngine => if ok { (Provision::StartingServer, Some(STARTING)) } else { (Provision::Failed, Some(ERROR)) },
        Provision::StartingServer => if ok { (Provision::Ready, None) } else { (Provision::Failed, Some(ERROR)) },
        Provision::Ready => (Provision::Ready, None),
        Provision::Failed => (Provision::Failed, None),
    }
}

/// Any failed provisioning step shows the error and ends provisioning.
pub proof fn lemma_provision_failure_shows_error(stage: Provision, manage: bool)
    requires
        stage is FetchingModel || stage is InstallingEngine || stage is StartingServer,
    ensures
        provision_next(stage, manage, false) == (Provision::Failed, Some(ERROR)),
{
}

// ---------------------------------------------------------------- audio worker

/// A command sent to the audio worker by the hotkey.
pub enum WorkerCommand {
    Start { chat: bool, epoch: u64 },
    Stop,
}

/// What the audio worker does with a command.
pub enum WorkerAction {
    /// A recording is already running: nothing.
    Ignore,
    /// Open the microphone for a recording of this kind, under this epoch.
    StartRecording { chat: bool, epoch: u64 },
    /// Nothing was recording: the app is no longer busy.
    ClearBusy,
    /// Stop the held recording and process it.
    StopRecording { chat: bool, epoch: u64 },
}

/// One step of the audio worker: given the recording it
/// holds (kind and epoch), the action for a command and the recording held
/// afterwards. A new recording is held once its microphone has opened
/// (`opened_recording`); a stop always gives up the recording held.
pub fn worker_step(active: Option<(bool, u64)>, command: WorkerCommand) -> (r: (WorkerAction, Option<(bool, u64)>))
    ensures
        r.0 == worker_action(active, command),
        r.1 == worker_held(active, command),
{
    match command {
        WorkerCommand::Start { chat, epoch } => {
            if active.is_some() {
                (WorkerAction::Ignore, active)
            } else {
                (WorkerAction::StartRecording { chat, epoch }, None)
            }
        },
        WorkerCommand::Stop => match active {
            None => (WorkerAction::ClearBusy, None),
            Some((chat, epoch)) => (WorkerAction::StopRecording { chat, epoch }, None),
        },
    }
}

/// After trying to open the microphone: the status to show and the recording
/// now held (none when it failed, with the error status).
pub fn opened_recording(ok: bool, chat: bool, epoch: u64) -> (r: (u8, Option<(bool, u64)>))
    ensures
        ok ==> r.0 == (if chat { RECORDING_CHAT } else { RECORDING_DICTATE }) && r.1 == Some((chat, epoch)),
        !ok ==> r.0 == ERROR && r.1 is None,
{
    if ok {
        (recording_status(chat), Some((chat, epoch)))
    } else {
        (ERROR, None)
    }
}

/// What becomes of a stopped recording.
pub enum StopOutcome {
    /// Stopping failed: show the error status; nothing to process.
    Failed,
    /// A newer press interrupted it: drop it.
    Discarded,
    /// Process it.
    Process,
}

/// Decides what becomes of a stopped recording.
pub fn after_stop(stopped: bool, current: bool) -> (r: StopOutcome)
    ensures
        !stopped ==> r is Failed,
        stopped && !current ==> r is Discarded,
        stopped && current ==> r is Process,
{
    if !stopped {
        StopOutcome::Failed
    } else if !current {
        StopOutcome::Discarded
    } else {
        StopOutcome::Process
    }
}

/// The worker holds at most one recording: a start while one is held opens
/// no microphone, and after a stop nothing is held.
pub proof fn lemma_one_recording_at_a_time(active: Option<(bool, u64)>, chat: bool, epoch: u64)
    ensures
        active is Some ==> !(worker_action(active, WorkerCommand::Start { chat, epoch }) is StartRecording),
        worker_held(active, WorkerCommand::Stop) is None,
{
}

/// The action `worker_step` takes.
pub open spec fn worker_action(active: Option<(bool, u64)>, command: WorkerCommand) -> WorkerAction {
    match command {
        WorkerCommand::Start { chat, epoch } => if active is Some {
            WorkerAction::Ignore
        } else {
            WorkerAction::StartRecording { chat, epoch }
        },
        WorkerCommand::Stop => match active {
            None => WorkerAction::ClearBusy,
            Some((chat, epoch)) => WorkerAction::StopRecording { chat, epoch },
        },
    }
}

/// The recording `worker_step` leaves held.
pub open spec fn worker_held(active: Option<(bool, u64)>, command: WorkerCommand) -> Option<(bool, u64)> {
    match command {
        WorkerCommand::Start { .. } => if active is Some { active } else { None },
        WorkerCommand::Stop => None,
    }
}

} // verus!
