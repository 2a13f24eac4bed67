use routeguide::queue::BoundedQueue;
use routeguide::state::{step, CallEvent, CallState};

#[test]
fn call_passes_through_auth_then_dispatch() {
    let s = CallState::Idle;
    let s = step(s, CallEvent::Arrive);
    assert_eq!(s, CallState::Authenticating);
    let s = step(s, CallEvent::AuthOk);
    assert_eq!(s, CallState::Dispatching);
    let s = step(s, CallEvent::Start);
    assert_eq!(s, CallState::Producing);
    let s = step(s, CallEvent::Finish);
    assert_eq!(s, CallState::Completed);
}

#[test]
fn rejected_and_failed_are_terminal() {
    let rejected = step(step(CallState::Idle, CallEvent::Arrive), CallEvent::AuthFail);
    assert_eq!(rejected, CallState::Rejected);
    for e in [CallEvent::Arrive, CallEvent::AuthOk, CallEvent::Start, CallEvent::Finish, CallEvent::Abort] {
        assert_eq!(step(rejected, e), CallState::Rejected);
        assert_eq!(step(CallState::Completed, e), CallState::Completed);
        assert_eq!(step(CallState::Failed, e), CallState::Failed);
    }
}

#[test]
fn mid_stream_abort_fails_the_call() {
    let s = step(step(step(CallState::Idle, CallEvent::Arrive), CallEvent::AuthOk), CallEvent::Start);
    assert_eq!(s, CallState::Producing);
    assert_eq!(step(s, CallEvent::Abort), CallState::Failed);
    let d = step(step(CallState::Idle, CallEvent::Arrive), CallEvent::AuthOk);
    assert_eq!(step(d, CallEvent::Abort), CallState::Failed);
}

#[test]
fn bounded_queue_applies_backpressure_at_capacity() {
    let mut q: BoundedQueue<u32> = BoundedQueue::new(4);
    for k in 0..4u32 {
        assert!(q.try_push(k).is_ok());
    }
    assert_eq!(q.len(), 4);
    assert_eq!(q.try_push(99), Err(99));
    assert_eq!(q.pop(), Some(0));
    assert!(q.try_push(99).is_ok());
}

#[test]
fn bounded_queue_pops_in_arrival_order() {
    let mut q: BoundedQueue<u32> = BoundedQueue::new(3);
    assert_eq!(q.pop(), None);
    assert!(q.try_push(7).is_ok());
    assert!(q.try_push(8).is_ok());
    assert_eq!(q.pop(), Some(7));
    assert_eq!(q.pop(), Some(8));
    assert_eq!(q.pop(), None);
}
