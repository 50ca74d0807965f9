//! The channels between the tasks. What a channel holds at a moment is
//! for the tasks at its two ends to decide; nothing here speaks of it.

use vstd::prelude::*;
use crate::plugin::file_split::ZipPack;

verus! {

/// The sending end of a channel.
#[verifier::external_type_specification]
#[verifier::external_body]
#[verifier::reject_recursive_types(T)]
pub struct ExSender<T>(crossbeam_channel::Sender<T>);

/// The receiving end of a channel.
#[verifier::external_type_specification]
#[verifier::external_body]
#[verifier::reject_recursive_types(T)]
pub struct ExReceiver<T>(crossbeam_channel::Receiver<T>);

/// What `send` hands back when nobody is left to receive: the message.
#[verifier::external_type_specification]
pub struct ExSendError<T>(crossbeam_channel::SendError<T>);

/// A channel that never fills.
pub assume_specification<T>[ crossbeam_channel::unbounded::<T> ]() -> (ends: (
    crossbeam_channel::Sender<T>,
    crossbeam_channel::Receiver<T>,
));

/// How many packs the channel of this receiving end holds at most.
pub uninterp spec fn pack_depth(r: crossbeam_channel::Receiver<ZipPack>) -> nat;

/// `crossbeam_channel::bounded`: a channel that holds at most `cap` packs.
/// The call panics only where `cap` is too large to allocate.
#[verifier::external_body]
pub(crate) fn pack_channel(cap: usize) -> (ends: (
    crossbeam_channel::Sender<ZipPack>,
    crossbeam_channel::Receiver<ZipPack>,
))
    requires
        cap <= 0x1_0000,
    ensures
        pack_depth(ends.1) == cap,
{
    crossbeam_channel::bounded(cap)
}

/// Waits while the channel is full, and fails once no receiver is left.
/// Which of the two happens is for the other side to decide. A send that
/// fails hands the message back.
pub assume_specification<T>[ crossbeam_channel::Sender::<T>::send ](
    sender: &crossbeam_channel::Sender<T>,
    msg: T,
) -> (sent: Result<(), crossbeam_channel::SendError<T>>)
    ensures
        sent matches Err(e) ==> e.0 == msg,
;

} // verus!
