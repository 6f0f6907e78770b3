//! The one boundary to the standard library's channels: background jobs hand
//! progress over an mpsc channel, and the interface polls it.

use vstd::prelude::*;
use std::sync::mpsc::Receiver;

verus! {

/// Relies on `std::sync::mpsc::Receiver` being a plain type: declared here so
/// the interface states can hold one; its values are opaque.
#[verifier::external_type_specification]
#[verifier::external_body]
#[verifier::reject_recursive_types(T)]
pub struct ExReceiver<T>(Receiver<T>);

/// Relies on `Receiver::try_recv`: hands back a pending message if one is
/// waiting, without blocking.  What arrives (and whether anything does)
/// depends on the sending thread, so nothing is promised of the result.
#[verifier::external_body]
pub(crate) fn try_recv_opt<T>(rx: &Receiver<T>) -> Option<T> {
    rx.try_recv().ok()
}

} // verus!
