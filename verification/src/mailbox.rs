//! The boundary to the channel that carries frames to a session's outbound
//! duty. Nothing in this file is proved: each item states what is taken on
//! trust from `tokio`.

use crate::event::ChatEvent;
use tokio::sync::mpsc::UnboundedSender;
use vstd::prelude::*;

verus! {

/// `tokio::sync::mpsc::UnboundedSender`, the producing end of a session's
/// mailbox. Its inside is invisible to the verifier; values of it are only
/// stored and handed on.
#[verifier::external_type_specification]
#[verifier::external_body]
#[verifier::reject_recursive_types(T)]
pub struct ExUnboundedSender<T>(UnboundedSender<T>);

/// Calls `UnboundedSender::send` and reports whether the channel took the
/// frame. Nothing is claimed of the answer: it is `false` exactly when the
/// receiving end was closed or dropped, which only the peer decides. The call
/// never waits.
#[verifier::external_body]
pub(crate) fn enqueue(handle: &UnboundedSender<ChatEvent>, frame: ChatEvent) -> (accepted: bool) {
    handle.send(frame).is_ok()
}

} // verus!
