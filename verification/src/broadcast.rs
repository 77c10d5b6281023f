//! The broadcast primitive behind a channel.
//!
//! Fan-out uses the multi-producer, multi-consumer broadcast queue of `tokio`:
//! a sender writes each message once into a ring of fixed capacity, and every
//! receiver reads it from there. How many receivers are alive at a send is
//! decided by the code that holds them, so the contracts here promise nothing
//! about a count beyond what holds of every outcome.

use tokio::sync::broadcast::error::SendError;
use tokio::sync::broadcast::Receiver;
use tokio::sync::broadcast::Sender;
use vstd::prelude::*;

verus! {

/// `tokio::sync::broadcast::Sender`: the sending half of a broadcast queue.
#[verifier::external_type_specification]
#[verifier::external_body]
#[verifier::reject_recursive_types(T)]
pub struct ExSender<T>(Sender<T>);

/// `tokio::sync::broadcast::Receiver`: a receiving half of a broadcast queue.
#[verifier::external_type_specification]
#[verifier::external_body]
#[verifier::reject_recursive_types(T)]
pub struct ExReceiver<T>(Receiver<T>);

/// `tokio::sync::broadcast::error::SendError`: a send found no receiver; it
/// hands the value back.
#[verifier::external_type_specification]
#[verifier::external_body]
#[verifier::reject_recursive_types(T)]
pub struct ExSendError<T>(SendError<T>);

/// The largest ring capacity that the broadcast queue accepts.
pub open spec fn max_ring_capacity() -> int {
    (usize::MAX / 2) as int
}

/// `tokio::sync::broadcast::channel`: a new queue with room for `capacity`
/// messages. It panics when `capacity` is 0 or above half of `usize::MAX`.
pub assume_specification<T: Clone>[ tokio::sync::broadcast::channel::<T> ](capacity: usize) -> (pair:
    (Sender<T>, Receiver<T>))
    requires
        0 < capacity <= max_ring_capacity(),
;

/// `Sender::subscribe`: a new receiver that sees the values sent after this
/// call. It panics only when 2^62 receivers are alive.
pub assume_specification<T>[ Sender::<T>::subscribe ](sender: &Sender<T>) -> (receiver: Receiver<T>)
;

/// `Sender::send`: writes `value` into the ring. It returns the number of
/// receivers alive at that moment, which is at least one, or an error when
/// there is none.
pub assume_specification<T>[ Sender::<T>::send ](sender: &Sender<T>, value: T) -> (outcome: Result<
    usize,
    SendError<T>,
>)
    ensures
        outcome matches Ok(n) ==> n >= 1,
;

} // verus!
