use vstd::prelude::*;

verus! {

/// Whether the source is being polled for growth.
#[derive(Debug, Clone, Copy, PartialEq, Eq, Structural)]
pub enum Watch {
    Idle,
    Watching,
    Stopped,
}

/// What the watcher hears of.
#[derive(Debug, Clone, Copy, PartialEq, Eq, Structural)]
pub enum WatchEvent {
    EnterFollow,
    LeaveFollow,
    EndOfSource,
    ReadFailed,
    Quit,
}

/// What the reading side is told to do.
#[derive(Debug, Clone, Copy, PartialEq, Eq, Structural)]
pub enum WatchAction {
    StartPolling,
    StopPolling,
    Cancel,
    Nothing,
}

/// The watcher's transitions: follow mode starts and ends polling; a
/// failed read or quitting stops the watcher for good and cancels any read
/// in flight; a stopped watcher ignores everything. Leaving follow mode
/// ends polling but goes back to `Idle`, not `Stopped`: the source is still
/// readable, and pressing `F` again resumes watching where reading left off.
pub open spec fn watch_step(s: Watch, e: WatchEvent) -> (Watch, WatchAction) {
    match s {
        Watch::Stopped => (Watch::Stopped, WatchAction::Nothing),
        _ => match e {
            WatchEvent::Quit | WatchEvent::ReadFailed => (Watch::Stopped, WatchAction::Cancel),
            WatchEvent::EnterFollow => if s == Watch::Idle {
                (Watch::Watching, WatchAction::StartPolling)
            } else {
                (s, WatchAction::Nothing)
            },
            WatchEvent::LeaveFollow => if s == Watch::Watching {
                (Watch::Idle, WatchAction::StopPolling)
            } else {
                (s, WatchAction::Nothing)
            },
            WatchEvent::EndOfSource => (s, WatchAction::Nothing),
        },
    }
}

pub fn watch_next(s: Watch, e: WatchEvent) -> (r: (Watch, WatchAction))
    ensures
        r == watch_step(s, e),
{
    match s {
        Watch::Stopped => (Watch::Stopped, WatchAction::Nothing),
        _ => match e {
            WatchEvent::Quit | WatchEvent::ReadFailed => (Watch::Stopped, WatchAction::Cancel),
            WatchEvent::EnterFollow => {
                if s == Watch::Idle {
                    (Watch::Watching, WatchAction::StartPolling)
                } else {
                    (s, WatchAction::Nothing)
                }
            },
            WatchEvent::LeaveFollow => {
                if s == Watch::Watching {
                    (Watch::Idle, WatchAction::StopPolling)
                } else {
                    (s, WatchAction::Nothing)
                }
            },
            WatchEvent::EndOfSource => (s, WatchAction::Nothing),
        },
    }
}

} // verus!
