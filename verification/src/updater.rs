//! Self-update, as far as it is a matter of decisions.
//!
//! An update check is a fixed run of steps, each of which the caller
//! performs: two requests to the update server, then work on the files of
//! the running program, then a restart of the service. After each step the
//! caller reports what happened, and [`decide`] says how to go on.

use crate::config_manager::{Config, ConfigView};
use crate::text::{trim_text, trimmed};
use vstd::prelude::*;
use vstd::string::StringExecFns;

verus! {

/// Seconds between two update checks.
pub const UPDATE_INTERVAL_SECS: u64 = 86400;

/// The version of this program, as the update server names it.
pub open spec fn current_version() -> Seq<char> {
    "0.2.3"@
}

/// The version of this program.
pub fn pylon_version() -> (r: &'static str)
    ensures
        r@ == current_version(),
{
    "0.2.3"
}

/// Where to ask for the newest version and for its binary.
pub struct UpdatePlan {
    pub version_url: String,
    pub binary_url: String,
}

/// The update server's address, where updates are switched on and an
/// address is configured that is not empty.
pub open spec fn update_source(config: ConfigView) -> Option<Seq<char>> {
    if config.auto_update == Some(true) {
        match config.master_update_url {
            Some(url) => if url.len() > 0 {
                Some(url)
            } else {
                None
            },
            None => None,
        }
    } else {
        None
    }
}

/// Plans an update check: none where updates are switched off or no server
/// is configured; else the two addresses to ask, which are the server's
/// address followed by `?action=version` and by `?action=binary`.
pub fn update_plan(config: &Config) -> (r: Option<UpdatePlan>)
    ensures
        match r {
            Some(plan) => {
                &&& update_source(config@) matches Some(url)
                &&& plan.version_url@ == url + "?action=version"@
                &&& plan.binary_url@ == url + "?action=binary"@
            },
            None => update_source(config@) is None,
        },
{
    if !config.auto_update_enabled() {
        return None;
    }
    match &config.master_update_url {
        Some(url) => {
            if url.as_str().is_empty() {
                None
            } else {
                let mut version_url = url.clone();
                version_url.append("?action=version");
                let mut binary_url = url.clone();
                binary_url.append("?action=binary");
                Some(UpdatePlan { version_url, binary_url })
            }
        },
        None => None,
    }
}

/// Tells whether `version` names the version of this program.
pub fn same_version(version: &str) -> (r: bool)
    ensures
        r == (version@ == current_version()),
{
    version.to_owned() == pylon_version().to_owned()
}

/// Tells whether the update server's answer, white space at its ends
/// aside, names the version of this program.
pub fn names_current_version(answer: &str) -> (r: bool)
    ensures
        r == (trimmed(answer@) == current_version()),
{
    same_version(trim_text(answer))
}

/// The steps of an update, in the order in which they are taken.
#[derive(Clone, Copy, Debug, PartialEq, Eq, Structural)]
pub enum UpdateStep {
    /// Ask the server for the newest version.
    FetchVersion,
    /// Ask the server for the binary.
    FetchBinary,
    /// Write the binary to a temporary file.
    WriteTemp,
    /// Make that file executable.
    MakeExecutable,
    /// See that the service manager can be called.
    CheckServiceManager,
    /// Find the file of the running program.
    FindExecutable,
    /// See that its directory can be written to.
    CheckDirectory,
    /// Move the running program's file aside.
    BackUp,
    /// Move the new binary into its place.
    Install,
    /// Restart the service.
    Restart,
}

/// What happened in a step.
pub enum UpdateEvent {
    /// The step was done. For `FetchVersion` and `FetchBinary` this says too
    /// little, and counts as a failure.
    Done,
    /// The step could not be done.
    Failed,
    /// The step could not be done for want of permission.
    Denied,
    /// `FetchVersion`: the server answered, but its answer could not be
    /// read.
    Unreadable,
    /// `FetchVersion`: the server's answer; `current` tells whether it names
    /// the version of this program.
    Version { current: bool },
    /// `FetchBinary`: the number of bytes that the server sent.
    Binary { len: usize },
    /// `Restart`: the restart command ran and ended, with success, or by
    /// the termination signal that the service manager sends to the old
    /// instance, or otherwise.
    Exited { success: bool, terminated: bool },
}

/// How an update check goes on.
#[derive(Clone, Copy, Debug, PartialEq, Eq, Structural)]
pub enum UpdateDecision {
    /// Take this step next.
    Next(UpdateStep),
    /// The check ends without an update. `disable_auto_update` says whether
    /// updates are to be switched off; `restore_backup` whether the file
    /// that was moved aside is to be moved back first.
    GiveUp { disable_auto_update: bool, restore_backup: bool },
    /// The check ends with the error that the step ran into.
    Fail,
    /// The check ends: the new version is installed and starting.
    Updated,
}

/// The place of a step in the run.
pub open spec fn step_number(step: UpdateStep) -> nat {
    match step {
        UpdateStep::FetchVersion => 0,
        UpdateStep::FetchBinary => 1,
        UpdateStep::WriteTemp => 2,
        UpdateStep::MakeExecutable => 3,
        UpdateStep::CheckServiceManager => 4,
        UpdateStep::FindExecutable => 5,
        UpdateStep::CheckDirectory => 6,
        UpdateStep::BackUp => 7,
        UpdateStep::Install => 8,
        UpdateStep::Restart => 9,
    }
}

/// The decision where a step failed.
///
/// The two requests may fail without consequence. Once the new binary is
/// here, a failure switches updates off, with one exception: the temporary
/// file could not be written, for another reason than want of permission.
/// Only a failure to install calls for the backup to be restored.
pub open spec fn on_failure(step: UpdateStep, denied: bool) -> UpdateDecision {
    UpdateDecision::GiveUp {
        disable_auto_update: match step {
            UpdateStep::FetchVersion => false,
            UpdateStep::FetchBinary => false,
            UpdateStep::WriteTemp => denied,
            _ => true,
        },
        restore_backup: step == UpdateStep::Install,
    }
}

/// The decision where a step succeeded.
pub open spec fn on_success(step: UpdateStep) -> UpdateDecision {
    match step {
        UpdateStep::FetchVersion => UpdateDecision::Next(UpdateStep::FetchBinary),
        UpdateStep::FetchBinary => UpdateDecision::Next(UpdateStep::WriteTemp),
        UpdateStep::WriteTemp => UpdateDecision::Next(UpdateStep::MakeExecutable),
        UpdateStep::MakeExecutable => UpdateDecision::Next(UpdateStep::CheckServiceManager),
        UpdateStep::CheckServiceManager => UpdateDecision::Next(UpdateStep::FindExecutable),
        UpdateStep::FindExecutable => UpdateDecision::Next(UpdateStep::CheckDirectory),
        UpdateStep::CheckDirectory => UpdateDecision::Next(UpdateStep::BackUp),
        UpdateStep::BackUp => UpdateDecision::Next(UpdateStep::Install),
        UpdateStep::Install => UpdateDecision::Next(UpdateStep::Restart),
        UpdateStep::Restart => UpdateDecision::Updated,
    }
}

/// Whether an event means that its step succeeded.
///
/// The version request succeeds with an answer that names another version
/// than this program's; the binary request with a binary that is not
/// empty; the restart with a command that ended well or was terminated;
/// every other step by being done.
pub open spec fn succeeded(step: UpdateStep, event: UpdateEvent) -> bool {
    match step {
        UpdateStep::FetchVersion => event matches UpdateEvent::Version { current } && !current,
        UpdateStep::FetchBinary => event matches UpdateEvent::Binary { len } && len > 0,
        UpdateStep::Restart => event matches UpdateEvent::Exited { success, terminated } && (success
            || terminated),
        _ => event is Done,
    }
}

/// How the check goes on after `event` in `step`.
pub open spec fn decision(step: UpdateStep, event: UpdateEvent) -> UpdateDecision {
    if succeeded(step, event) {
        on_success(step)
    } else if step == UpdateStep::FetchVersion && event is Unreadable {
        UpdateDecision::Fail
    } else if step == UpdateStep::FetchVersion && event is Version {
        // The newest version is the one that runs.
        UpdateDecision::GiveUp { disable_auto_update: false, restore_backup: false }
    } else {
        on_failure(step, event is Denied)
    }
}

/// Decides how an update check goes on; see [`decision`].
pub fn decide(step: UpdateStep, event: UpdateEvent) -> (r: UpdateDecision)
    ensures
        r == decision(step, event),
{
    let ok = match step {
        UpdateStep::FetchVersion => match event {
            UpdateEvent::Version { current } => !current,
            _ => false,
        },
        UpdateStep::FetchBinary => match event {
            UpdateEvent::Binary { len } => len > 0,
            _ => false,
        },
        UpdateStep::Restart => match event {
            UpdateEvent::Exited { success, terminated } => success || terminated,
            _ => false,
        },
        _ => match event {
            UpdateEvent::Done => true,
            _ => false,
        },
    };
    if ok {
        return match step {
            UpdateStep::FetchVersion => UpdateDecision::Next(UpdateStep::FetchBinary),
            UpdateStep::FetchBinary => UpdateDecision::Next(UpdateStep::WriteTemp),
            UpdateStep::WriteTemp => UpdateDecision::Next(UpdateStep::MakeExecutable),
            UpdateStep::MakeExecutable => UpdateDecision::Next(UpdateStep::CheckServiceManager),
            UpdateStep::CheckServiceManager => UpdateDecision::Next(UpdateStep::FindExecutable),
            UpdateStep::FindExecutable => UpdateDecision::Next(UpdateStep::CheckDirectory),
            UpdateStep::CheckDirectory => UpdateDecision::Next(UpdateStep::BackUp),
            UpdateStep::BackUp => UpdateDecision::Next(UpdateStep::Install),
            UpdateStep::Install => UpdateDecision::Next(UpdateStep::Restart),
            UpdateStep::Restart => UpdateDecision::Updated,
        };
    }
    let denied = match event {
        UpdateEvent::Denied => true,
        _ => false,
    };
    match step {
        UpdateStep::FetchVersion => match event {
            UpdateEvent::Unreadable => UpdateDecision::Fail,
            _ => UpdateDecision::GiveUp { disable_auto_update: false, restore_backup: false },
        },
        UpdateStep::FetchBinary => UpdateDecision::GiveUp {
            disable_auto_update: false,
            restore_backup: false,
        },
        UpdateStep::WriteTemp => UpdateDecision::GiveUp {
            disable_auto_update: denied,
            restore_backup: false,
        },
        UpdateStep::Install => UpdateDecision::GiveUp {
            disable_auto_update: true,
            restore_backup: true,
        },
        _ => UpdateDecision::GiveUp { disable_auto_update: true, restore_backup: false },
    }
}

/// The steps are taken one after the other: a check goes on with the step
/// that follows, or ends. It ends with an update only after the last step,
/// and with an error only in the first.
pub proof fn law_steps_in_order(step: UpdateStep, event: UpdateEvent)
    ensures
        decision(step, event) matches UpdateDecision::Next(next) ==> step_number(next)
            == step_number(step) + 1,
        decision(step, event) is Updated ==> step == UpdateStep::Restart,
        decision(step, event) is Fail ==> step == UpdateStep::FetchVersion,
{
}

/// A check that gives up before the running program's file was moved aside
/// asks for no backup to be restored, and one that gives up in a request to
/// the server leaves updates switched on.
pub proof fn law_giving_up(step: UpdateStep, event: UpdateEvent)
    ensures
        decision(step, event) matches UpdateDecision::GiveUp { disable_auto_update, restore_backup }
            ==> {
            &&& restore_backup ==> step == UpdateStep::Install
            &&& step_number(step) <= 1 ==> !disable_auto_update
            &&& step_number(step) >= 3 ==> disable_auto_update
        },
{
}

} // verus!
