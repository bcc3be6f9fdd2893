//! When a session that stopped began to be stuck.

use vstd::prelude::*;

use crate::state::{AlertKind, IssueState, SessionAlert};
use crate::text;

verus! {

/// Whether an alert is of the same episode.
pub open spec fn same_episode(prev: SessionAlert, kind: AlertKind, session_id: Seq<char>) -> bool {
    prev.kind == kind && prev.session_id@ == session_id
}

/// When an episode began.
pub open spec fn began(
    prev: Option<SessionAlert>,
    kind: AlertKind,
    session_id: Seq<char>,
    now: u64,
) -> u64 {
    match prev {
        Some(prev) => if same_episode(prev, kind, session_id) {
            prev.at
        } else {
            now
        },
        None => now,
    }
}

/// When the current stuck episode began. The same kind of alert for the same
/// session keeps its original start time (so the supervisor's grace window
/// measures from when the session first got stuck, not the latest
/// notification); a different kind, a different session, or no prior alert
/// starts a fresh episode at `now`.
pub fn episode_start(
    prev: Option<&SessionAlert>,
    kind: AlertKind,
    session_id: &str,
    now: u64,
) -> (r:
    u64)
    ensures
        r == (match prev {
            Some(prev) => began(Some(*prev), kind, session_id@, now),
            None => now,
        }),
{
    match prev {
        Some(prev) => {
            if prev.kind == kind && text::same(prev.session_id.as_str(), session_id) {
                prev.at
            } else {
                now
            }
        },
        None => now,
    }
}

/// Record that a session stopped, unless its workflow is concluded: then there
/// is nothing left to recover. Returns whether the state changed.
pub fn note_alert(state: &mut IssueState, kind: AlertKind, session_id: &str, now: u64) -> (r: bool)
    ensures
        r == !old(state).concluded(),
        !r ==> *final(state) == *old(state),
        r ==> {
            &&& *final(state) == (IssueState {
                session_alert: final(state).session_alert,
                ..*old(state)
            })
            &&& final(state).session_alert is Some
            &&& final(state).session_alert->0.kind == kind
            &&& final(state).session_alert->0.session_id@ == session_id@
            &&& final(state).session_alert->0.at == began(
                old(state).session_alert,
                kind,
                session_id@,
                now,
            )
        },
{
    if state.is_concluded() {
        return false;
    }
    let at: u64 = match &state.session_alert {
        Some(prev) => episode_start(Some(prev), kind, session_id, now),
        None => episode_start(None, kind, session_id, now),
    };
    state.session_alert = Some(SessionAlert { kind, session_id: text::copy(session_id), at });
    true
}

/// Notified again of one episode, its start stays the same.
pub proof fn repeated_alerts_keep_the_start(
    prev: Option<SessionAlert>,
    kind: AlertKind,
    session_id: String,
    first: u64,
    second: u64,
)
    ensures
        began(
            Some(SessionAlert { kind, session_id, at: began(prev, kind, session_id@, first) }),
            kind,
            session_id@,
            second,
        ) == began(prev, kind, session_id@, first),
{
}

} // verus!
