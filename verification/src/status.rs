//! The status taxonomy attached to call completion. Statuses describe the
//! call as a whole, never an individual streamed item.

use vstd::prelude::*;

verus! {

/// How a call ended. `Completed` is normal completion; `Unauthenticated`
/// reports rejection by the authentication check before dispatch;
/// `Unavailable` reports a transport abort mid-stream; `Unimplemented`
/// answers a method name the dispatcher does not know.
#[derive(Clone, Copy, PartialEq, Eq, Structural, Debug)]
pub enum Status {
    Completed,
    Unauthenticated,
    Unavailable,
    Unimplemented,
}

} // verus!
