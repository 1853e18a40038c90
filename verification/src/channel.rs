//! The sending half of a `crossbeam_channel` channel, through which the
//! core hands messages and signals to whoever waits for them.

use vstd::prelude::*;

verus! {

#[verifier::external_type_specification]
#[verifier::external_body]
#[verifier::reject_recursive_types(T)]
pub struct ExSender<T>(crossbeam_channel::Sender<T>);

/// Offers `value` to the channel without waiting, and tells whether the
/// channel took it.
///
/// Calls `Sender::try_send`, which fails where the channel is full or its
/// receiver is gone. Whether it takes the value depends on the other side,
/// so nothing is promised of the result.
#[verifier::external_body]
pub(crate) fn offer<T>(sender: &crossbeam_channel::Sender<T>, value: T) -> (taken: bool) {
    sender.try_send(value).is_ok()
}

} // verus!
