//! What a selection asks of the channels it works on.
//!
//! Nothing is known of how an endpoint behaves: no operation here has a
//! contract, and what is proved of a selection holds whatever they do.

use vstd::prelude::*;

verus! {

/// Why a send that does not block failed. The message comes back.
pub enum TrySendError<T> {
    /// The channel is full.
    Full(T),
    /// The channel is disconnected.
    Disconnected(T),
}

/// Why a receive that does not block failed.
pub enum TryRecvError {
    /// The channel is empty.
    Empty,
    /// The channel is empty and disconnected.
    Disconnected,
}

/// The sending side of a channel, as a selection uses it. No operation may
/// block.
pub trait Sender<T> {
    /// A token for this endpoint that stays the same while the selection
    /// runs, and that no other sending endpoint in it has.
    fn endpoint(&self) -> usize;

    /// Sends `msg` if there is room.
    fn try_send(&self, msg: T) -> Result<(), TrySendError<T>>;

    /// Registers the current thread as a waiting sender.
    fn promise_send(&self);

    /// Withdraws the registration, if there is one.
    fn revoke_send(&self);

    /// Completes the send that the registration was selected for.
    fn fulfill_send(&self, msg: T) -> Result<(), T>;

    /// Whether a send would find room.
    fn can_send(&self) -> bool;

    /// Whether the channel is disconnected.
    fn is_disconnected(&self) -> bool;
}

/// The receiving side of a channel, as a selection uses it. No operation may
/// block.
pub trait Receiver<T> {
    /// A token for this endpoint that stays the same while the selection
    /// runs, and that no other receiving endpoint in it has.
    fn endpoint(&self) -> usize;

    /// Receives a message if there is one.
    fn try_recv(&self) -> Result<T, TryRecvError>;

    /// Registers the current thread as a waiting receiver.
    fn promise_recv(&self);

    /// Withdraws the registration, if there is one.
    fn revoke_recv(&self);

    /// Completes the receive that the registration was selected for.
    fn fulfill_recv(&self) -> Result<T, ()>;

    /// Whether a receive would find a message.
    fn can_recv(&self) -> bool;

    /// Whether the channel is disconnected.
    fn is_disconnected(&self) -> bool;
}

} // verus!
