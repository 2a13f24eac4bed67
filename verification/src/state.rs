//! The life cycle every call goes through, whatever its pattern: it is
//! authenticated first, then dispatched, then produces its response or
//! stream; rejection and failure are terminal.

use vstd::prelude::*;

verus! {

/// Where a call stands. `Rejected`, `Completed` and `Failed` are
/// terminal. Streaming calls stay in `Producing` for as long as items
/// are emitted or consumed.
#[derive(Clone, Copy, PartialEq, Eq, Structural, Debug)]
pub enum CallState {
    Idle,
    Authenticating,
    Rejected,
    Dispatching,
    Producing,
    Completed,
    Failed,
}

/// What can happen to a call: it arrives, the interceptor accepts or rejects
/// it, the handler starts producing, the stream ends normally, or the
/// transport aborts.
#[derive(Clone, Copy, PartialEq, Eq, Structural, Debug)]
pub enum CallEvent {
    Arrive,
    AuthOk,
    AuthFail,
    Start,
    Finish,
    Abort,
}

pub open spec fn spec_is_terminal(s: CallState) -> bool {
    s == CallState::Rejected || s == CallState::Completed || s == CallState::Failed
}

/// The transition table. An event that does not apply to the current
/// state leaves the call where it is; in particular the terminal states
/// absorb every event.
pub open spec fn spec_step(s: CallState, e: CallEvent) -> CallState {
    match (s, e) {
        (CallState::Idle, CallEvent::Arrive) => CallState::Authenticating,
        (CallState::Authenticating, CallEvent::AuthOk) => CallState::Dispatching,
        (CallState::Authenticating, CallEvent::AuthFail) => CallState::Rejected,
        (CallState::Dispatching, CallEvent::Start) => CallState::Producing,
        (CallState::Dispatching, CallEvent::Abort) => CallState::Failed,
        (CallState::Producing, CallEvent::Finish) => CallState::Completed,
        (CallState::Producing, CallEvent::Abort) => CallState::Failed,
        _ => s,
    }
}

pub fn step(s: CallState, e: CallEvent) -> (n: CallState)
    ensures
        n == spec_step(s, e),
{
    match (s, e) {
        (CallState::Idle, CallEvent::Arrive) => CallState::Authenticating,
        (CallState::Authenticating, CallEvent::AuthOk) => CallState::Dispatching,
        (CallState::Authenticating, CallEvent::AuthFail) => CallState::Rejected,
        (CallState::Dispatching, CallEvent::Start) => CallState::Producing,
        (CallState::Dispatching, CallEvent::Abort) => CallState::Failed,
        (CallState::Producing, CallEvent::Finish) => CallState::Completed,
        (CallState::Producing, CallEvent::Abort) => CallState::Failed,
        (other, _) => other,
    }
}

/// Terminal states never move again.
pub proof fn lemma_terminal_absorbs(s: CallState, e: CallEvent)
    ensures
        spec_is_terminal(s) ==> spec_step(s, e) == s,
{
}

/// The state after a sequence of events.
pub open spec fn spec_run(s: CallState, evs: Seq<CallEvent>) -> CallState
    decreases evs.len(),
{
    if evs.len() == 0 {
        s
    } else {
        spec_run(spec_step(s, evs.first()), evs.drop_first())
    }
}

/// The states reachable before the interceptor has accepted the call.
pub open spec fn spec_pre_auth(s: CallState) -> bool {
    s == CallState::Idle || s == CallState::Authenticating || s == CallState::Rejected
}

proof fn lemma_pre_auth_stays(s: CallState, evs: Seq<CallEvent>)
    requires
        spec_pre_auth(s),
        !evs.contains(CallEvent::AuthOk),
    ensures
        spec_pre_auth(spec_run(s, evs)),
    decreases evs.len(),
{
    if evs.len() > 0 {
        assert(evs[0] != CallEvent::AuthOk);
        assert forall|k: int| 0 <= k < evs.drop_first().len() implies #[trigger] evs.drop_first()[k]
            != CallEvent::AuthOk by {
            assert(evs.drop_first()[k] == evs[k + 1]);
        }
        assert(!evs.drop_first().contains(CallEvent::AuthOk));
        lemma_pre_auth_stays(spec_step(s, evs.first()), evs.drop_first());
    }
}

/// No call is ever dispatched, produces, or completes without the interceptor
/// having accepted it first: reaching any of those states from `Idle`
/// takes an `AuthOk` event.
pub proof fn lemma_dispatch_needs_auth(evs: Seq<CallEvent>)
    requires
        spec_run(CallState::Idle, evs) == CallState::Dispatching || spec_run(
            CallState::Idle,
            evs,
        ) == CallState::Producing || spec_run(CallState::Idle, evs) == CallState::Completed,
    ensures
        evs.contains(CallEvent::AuthOk),
{
    if !evs.contains(CallEvent::AuthOk) {
        lemma_pre_auth_stays(CallState::Idle, evs);
    }
}

} // verus!
