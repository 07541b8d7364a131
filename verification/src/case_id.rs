//! Identifiers that tell the cases of one selection apart.

use vstd::prelude::*;

verus! {

/// The identifier of a case.
///
/// A real case is a send or a receive on a channel endpoint, which the caller
/// names by a token that stays the same for the whole selection (the
/// endpoint's address, for example). The other identifiers are reserved: each
/// is unique, and a real case can never be mistaken for one of them.
#[derive(Clone, Copy, Debug, PartialEq, Eq, Structural)]
pub enum CaseId {
    /// No case yet.
    Unset,
    /// The case that fires when every channel is disconnected.
    Disconnected,
    /// The case that fires when no operation is ready.
    WouldBlock,
    /// The case that fires when the deadline has passed.
    TimedOut,
    /// Cancels a selection: to select it is to commit to no case.
    Abort,
    /// A send on the endpoint with the given token.
    Send(usize),
    /// A receive on the endpoint with the given token.
    Recv(usize),
}

impl CaseId {
    /// Whether this identifies a send.
    pub open spec fn spec_is_send(&self) -> bool {
        self is Send
    }

    /// Whether this identifies a receive.
    pub open spec fn spec_is_recv(&self) -> bool {
        self is Recv
    }

    /// Whether this identifies an operation on a channel, as opposed to a
    /// reserved identifier.
    pub open spec fn is_real(&self) -> bool {
        self is Send || self is Recv
    }

    /// The identifier that stands for no case.
    pub fn none() -> (id: CaseId)
        ensures
            id == CaseId::Unset,
    {
        CaseId::Unset
    }

    /// The identifier of the case that fires when every channel is
    /// disconnected.
    pub fn disconnected() -> (id: CaseId)
        ensures
            id == CaseId::Disconnected,
    {
        CaseId::Disconnected
    }

    /// The identifier of the case that fires when no operation is ready.
    pub fn would_block() -> (id: CaseId)
        ensures
            id == CaseId::WouldBlock,
    {
        CaseId::WouldBlock
    }

    /// The identifier of the case that fires when the deadline has passed.
    pub fn timed_out() -> (id: CaseId)
        ensures
            id == CaseId::TimedOut,
    {
        CaseId::TimedOut
    }

    /// The identifier that cancels a selection.
    pub fn abort() -> (id: CaseId)
        ensures
            id == CaseId::Abort,
    {
        CaseId::Abort
    }

    /// The identifier of a send on the endpoint `endpoint`.
    pub fn send(endpoint: usize) -> (id: CaseId)
        ensures
            id == CaseId::Send(endpoint),
    {
        CaseId::Send(endpoint)
    }

    /// The identifier of a receive on the endpoint `endpoint`.
    pub fn recv(endpoint: usize) -> (id: CaseId)
        ensures
            id == CaseId::Recv(endpoint),
    {
        CaseId::Recv(endpoint)
    }

    /// Whether this identifies a send.
    #[verifier::when_used_as_spec(spec_is_send)]
    pub fn is_send(&self) -> (b: bool)
        ensures
            b == (*self is Send),
    {
        match self {
            CaseId::Send(_) => true,
            _ => false,
        }
    }

    /// Whether this identifies a receive.
    #[verifier::when_used_as_spec(spec_is_recv)]
    pub fn is_recv(&self) -> (b: bool)
        ensures
            b == (*self is Recv),
    {
        match self {
            CaseId::Recv(_) => true,
            _ => false,
        }
    }
}

} // verus!
