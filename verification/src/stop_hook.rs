//! Keeping a session working until its workflow is concluded.

use vstd::prelude::*;

use crate::launch::NUDGE_CAP;
use crate::state::IssueState;
use crate::text;

verus! {

pub const RESUME: &'static str =
    "The workflow for issue #% is still active. Run `ghwf wait`; when it reports new activity, \
     run `ghwf work-on` and follow its instructions. Keep the loop going until the workflow \
     completes.";

/// Whether a session bound to an issue may stop: its workflow is concluded, or it
/// was nudged as often as it may be with nothing new arriving.
pub open spec fn lets_go(state: IssueState) -> bool {
    state.concluded() || state.stop_nudges >= NUDGE_CAP
}

/// Decide when a session bound to an issue tries to stop. While its workflow is
/// active the stop is blocked and counted, and the instruction to resume is
/// returned; `None` lets the session stop.
pub fn nudge(state: &mut IssueState, number: u64) -> (r: Option<String>)
    ensures
        match r {
            Some(message) => {
                &&& !lets_go(*old(state))
                &&& message@ == text::fill(RESUME@, text::decimal(number as nat))
                &&& *final(state) == (IssueState {
                    stop_nudges: (old(state).stop_nudges + 1) as u32,
                    ..*old(state)
                })
            },
            None => lets_go(*old(state)) && *final(state) == *old(state),
        },
{
    if state.is_concluded() || state.stop_nudges >= NUDGE_CAP {
        return None;
    }
    state.stop_nudges = state.stop_nudges + 1;
    Some(text::filled_number(RESUME, number))
}

/// The state after a number of nudges in a row.
pub open spec fn nudged(state: IssueState, times: nat) -> IssueState {
    IssueState { stop_nudges: (state.stop_nudges + times) as u32, ..state }
}

/// With nothing new arriving, the hook blocks an active session's stop as often
/// as the cap says, and then lets go.
pub proof fn the_hook_gives_up(state: IssueState, times: nat)
    requires
        !state.concluded(),
        state.stop_nudges == 0,
        times <= NUDGE_CAP,
    ensures
        lets_go(nudged(state, times)) <==> times == NUDGE_CAP,
{
}

} // verus!
