//! The transaction channel between the API and the event pump, from the futures crate.

use vstd::prelude::*;
use futures::channel::mpsc::{TryRecvError, TrySendError, UnboundedReceiver, UnboundedSender};

verus! {

/// Relies on futures' `UnboundedSender` as an opaque handle that the harness sends through.
#[verifier::external_type_specification]
#[verifier::external_body]
#[verifier::reject_recursive_types(T)]
pub struct ExUnboundedSender<T>(UnboundedSender<T>);

/// Relies on futures' `UnboundedReceiver` as an opaque handle that the event pump drains.
#[verifier::external_type_specification]
#[verifier::external_body]
#[verifier::reject_recursive_types(T)]
pub struct ExUnboundedReceiver<T>(UnboundedReceiver<T>);

/// Relies on futures' `TrySendError`: what a send to a closed channel hands back.
#[verifier::external_type_specification]
#[verifier::external_body]
#[verifier::reject_recursive_types(T)]
pub struct ExTrySendError<T>(TrySendError<T>);

/// Relies on futures' `TryRecvError`: no message is ready, or the channel is closed.
#[verifier::external_type_specification]
#[verifier::external_body]
pub struct ExTryRecvError(TryRecvError);

/// Relies on futures' `mpsc::unbounded`: a fresh channel, its two ends.
pub assume_specification<T>[ futures::channel::mpsc::unbounded::<T> ]() -> (UnboundedSender<
    T,
>, UnboundedReceiver<T>);

/// Relies on futures' `UnboundedReceiver::try_recv`: the next message if one is ready, without
/// waiting. Nothing is promised of which.
pub assume_specification<T>[ UnboundedReceiver::<T>::try_recv ](
    r: &mut UnboundedReceiver<T>,
) -> Result<T, TryRecvError>;

/// Relies on futures' `UnboundedSender::unbounded_send`: queues the message unless the
/// receiving end is gone.
pub assume_specification<T>[ UnboundedSender::<T>::unbounded_send ](
    s: &UnboundedSender<T>,
    msg: T,
) -> Result<(), TrySendError<T>>;

/// Relies on the `Clone` of futures' `UnboundedSender`: one more sender into the same channel.
pub assume_specification<T>[ <UnboundedSender<T> as Clone>::clone ](
    s: &UnboundedSender<T>,
) -> UnboundedSender<T>;

} // verus!
