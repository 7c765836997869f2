//! The life cycle of a child application: what its first state means for its start, and
//! which of its states end the application that watches it.

use crate::error::ChildAppError;
use crate::text::push_str;
use vstd::prelude::*;

verus! {

/// The state a child application reports. A crash carries the error's message.
#[derive(Debug, Clone, PartialEq, Eq)]
pub enum AppState {
    Started,
    TerminatedNormally,
    Crashed(String),
}

/// What the watcher of a child application does after a state.
#[derive(Debug, Clone, Copy, PartialEq, Eq, Structural)]
pub enum ExitAction {
    /// Keep watching.
    KeepWatching,
    /// Shut the watching application down and stop watching.
    Shutdown,
}

/// The message of a child application that ended before it started.
pub open spec fn terminated_message(name: Seq<char>) -> Seq<char> {
    name + " terminated immediately after start."@
}

/// Whether the child application `name` started, judged by the first state it reported
/// (`None` where it reported none before its channel closed): it started if that state is
/// `Started`; a crash fails with the crash's message; otherwise it fails as terminated
/// immediately after start.
pub fn start_outcome(name: String, first_state: Option<AppState>) -> (r: Result<(), ChildAppError>)
    ensures
        match first_state {
            Some(AppState::Started) => r is Ok,
            Some(AppState::Crashed(msg)) => r matches Err(ChildAppError(n, m)) && n == name && m
                == msg,
            _ => r matches Err(ChildAppError(n, m)) && n == name && m@ == terminated_message(
                name@,
            ),
        },
{
    match first_state {
        Some(AppState::Started) => Ok(()),
        Some(AppState::Crashed(msg)) => Err(ChildAppError(name, msg)),
        _ => {
            let mut msg = name.clone();
            push_str(&mut msg, " terminated immediately after start.");
            Err(ChildAppError(name, msg))
        },
    }
}

/// What the watcher does after `state`: a start changes nothing; a normal end and a crash
/// both shut the watching application down.
pub fn exit_action(state: &AppState) -> (r: ExitAction)
    ensures
        r == exit_action_of(*state),
{
    match state {
        AppState::Started => ExitAction::KeepWatching,
        _ => ExitAction::Shutdown,
    }
}

/// What the watcher does after `state` (see [`exit_action`]).
pub open spec fn exit_action_of(state: AppState) -> ExitAction {
    if state == AppState::Started {
        ExitAction::KeepWatching
    } else {
        ExitAction::Shutdown
    }
}

/// Where a watcher that reads `states` from position `i` on, applies [`exit_action`] to
/// each and stops at the first shutdown, shuts the application down: the position of the
/// state it stopped at, or `None` where the states ran out first.
pub open spec fn shutdown_position(states: Seq<AppState>, i: nat) -> Option<nat>
    decreases states.len() - i,
{
    if i >= states.len() {
        None
    } else if exit_action_of(states[i as int]) == ExitAction::Shutdown {
        Some(i)
    } else {
        shutdown_position(states, i + 1)
    }
}

/// A watcher shuts the application down exactly when the child application reports a
/// normal end or a crash, at the first such state, and reads nothing after it; states that
/// only report a start never shut it down.
pub proof fn lemma_shutdown_at_first_end(states: Seq<AppState>)
    ensures
        shutdown_position(states, 0) matches Some(k) ==> {
            &&& k < states.len()
            &&& states[k as int] != AppState::Started
            &&& forall|j: int| 0 <= j < k ==> states[j] == AppState::Started
        },
        shutdown_position(states, 0) is None ==> forall|j: int|
            0 <= j < states.len() ==> states[j] == AppState::Started,
{
    lemma_shutdown_from(states, 0);
}

proof fn lemma_shutdown_from(states: Seq<AppState>, i: nat)
    requires
        i <= states.len(),
    ensures
        shutdown_position(states, i) matches Some(k) ==> {
            &&& i <= k < states.len()
            &&& states[k as int] != AppState::Started
            &&& forall|j: int| i <= j < k ==> states[j] == AppState::Started
        },
        shutdown_position(states, i) is None ==> forall|j: int|
            i <= j < states.len() ==> states[j] == AppState::Started,
    decreases states.len() - i,
{
    if i < states.len() && exit_action_of(states[i as int]) != ExitAction::Shutdown {
        lemma_shutdown_from(states, i + 1);
    }
}

} // verus!
