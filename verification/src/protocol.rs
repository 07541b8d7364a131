//! The vocabulary that a driver and its surroundings share: the phases, the
//! work a driver asks for, and the answers it takes back.

use vstd::prelude::*;
use crate::case_id::CaseId;

verus! {

/// The most cases one selection can hold: every case takes two slots of the
/// visit counter in each phase.
pub const MAX_CASES: usize = usize::MAX / 2;

/// The phase a driver is in.
#[derive(Clone, Copy, Debug, PartialEq, Eq, Structural)]
pub enum State {
    /// The first sweep: cases are counted and classified, none is acted on.
    Count,
    /// Each case is attempted once without blocking.
    Try { disconnected_count: usize },
    /// Each case registers with its channel for a wake-up.
    Promise { disconnected_count: usize },
    /// Every case but the selected one withdraws its registration.
    Revoke { case_id: CaseId },
    /// The selected case completes its operation.
    Fulfill { case_id: CaseId },
    /// Every channel is disconnected, and a case was declared for that.
    Disconnected,
    /// No operation was ready, and a case was declared for that.
    WouldBlock,
    /// The deadline has passed.
    TimedOut,
    /// The selection is over.
    Dead,
}

/// A phase as a mathematical value: the view of a [`State`].
pub enum Phase {
    Count,
    Try { disconnected_count: nat },
    Promise { disconnected_count: nat },
    Revoke { case_id: CaseId },
    Fulfill { case_id: CaseId },
    Disconnected,
    WouldBlock,
    TimedOut,
    Dead,
}

impl View for State {
    type V = Phase;

    open spec fn view(&self) -> Phase {
        match *self {
            State::Count => Phase::Count,
            State::Try { disconnected_count } => Phase::Try {
                disconnected_count: disconnected_count as nat,
            },
            State::Promise { disconnected_count } => Phase::Promise {
                disconnected_count: disconnected_count as nat,
            },
            State::Revoke { case_id } => Phase::Revoke { case_id },
            State::Fulfill { case_id } => Phase::Fulfill { case_id },
            State::Disconnected => Phase::Disconnected,
            State::WouldBlock => Phase::WouldBlock,
            State::TimedOut => Phase::TimedOut,
            State::Dead => Phase::Dead,
        }
    }
}

impl Phase {
    /// The phases in which a selection rests until its matching case is
    /// reached.
    pub open spec fn is_terminal(self) -> bool {
        self is Disconnected || self is WouldBlock || self is TimedOut
    }
}

/// An operation on a channel endpoint that a driver asks its caller to
/// perform.
#[derive(Clone, Copy, Debug, PartialEq, Eq, Structural)]
pub enum Op {
    /// Attempt the send without blocking.
    TrySend,
    /// Attempt the receive without blocking.
    TryRecv,
    /// Register as a waiting sender.
    PromiseSend,
    /// Register as a waiting receiver.
    PromiseRecv,
    /// Withdraw the registration as a sender.
    RevokeSend,
    /// Withdraw the registration as a receiver.
    RevokeRecv,
    /// Complete the send that was selected.
    FulfillSend,
    /// Complete the receive that was selected.
    FulfillRecv,
}

impl Op {
    /// Whether the operation is an attempt.
    pub open spec fn is_try(self) -> bool {
        self is TrySend || self is TryRecv
    }

    /// Whether the operation is a registration.
    pub open spec fn is_promise(self) -> bool {
        self is PromiseSend || self is PromiseRecv
    }

    /// Whether the operation withdraws a registration.
    pub open spec fn is_revoke(self) -> bool {
        self is RevokeSend || self is RevokeRecv
    }

    /// Whether the operation completes a selected case.
    pub open spec fn is_fulfill(self) -> bool {
        self is FulfillSend || self is FulfillRecv
    }

    /// Whether the driver has to be told how the operation went. A withdrawal
    /// has no outcome to tell.
    pub open spec fn is_reported(self) -> bool {
        !self.is_revoke()
    }
}

/// How an attempt on an endpoint went.
#[derive(Clone, Copy, Debug, PartialEq, Eq, Structural)]
pub enum Attempt {
    /// The message was sent or received.
    Done,
    /// The channel was full (for a send) or empty (for a receive).
    NotReady,
    /// The channel was disconnected.
    Disconnected,
}

/// Work outside a driver that has to be done before its next step.
#[derive(Clone, Copy, Debug, PartialEq, Eq, Structural)]
pub enum Request {
    /// Nothing: step on with [`Answer::Nothing`].
    Nothing,
    /// Draw a random number, and answer with [`Answer::Drawn`].
    Draw,
    /// Clear the cell that holds the selected case, and answer with
    /// [`Answer::Nothing`].
    Reset,
    /// Select [`CaseId::Abort`] if no case is selected yet, read the cell, and
    /// answer with [`Answer::Selected`].
    Abort,
    /// Park until a case is selected or the deadline passes, read the cell, and
    /// answer with [`Answer::Selected`].
    Park { deadline: Option<u64> },
    /// Read the clock and draw a random number, and answer with
    /// [`Answer::Clock`].
    Clock,
}

/// What came of a [`Request`].
#[derive(Clone, Copy, Debug, PartialEq, Eq, Structural)]
pub enum Answer {
    /// There was nothing to bring back.
    Nothing,
    /// A random number, uniform over `usize`.
    Drawn { random: usize },
    /// The case that the cell held.
    Selected { case_id: CaseId },
    /// The time on the clock that the deadline is measured by, and a random
    /// number, uniform over `usize`.
    Clock { now: u64, random: usize },
}

impl Answer {
    /// The random number that the answer carries; zero where it carries none.
    pub open spec fn spec_random(&self) -> usize {
        match *self {
            Answer::Drawn { random } => random,
            Answer::Clock { random, .. } => random,
            _ => 0,
        }
    }

    /// The selected case that the answer carries; [`CaseId::Unset`] where it
    /// carries none.
    pub open spec fn spec_selected(&self) -> CaseId {
        match *self {
            Answer::Selected { case_id } => case_id,
            _ => CaseId::Unset,
        }
    }

    /// The time that the answer carries; zero where it carries none.
    pub open spec fn spec_now(&self) -> u64 {
        match *self {
            Answer::Clock { now, .. } => now,
            _ => 0,
        }
    }

    /// The random number that the answer carries; zero where it carries none.
    #[verifier::when_used_as_spec(spec_random)]
    pub fn random(&self) -> (random: usize)
        ensures
            random == self.spec_random(),
    {
        match *self {
            Answer::Drawn { random } => random,
            Answer::Clock { random, .. } => random,
            _ => 0,
        }
    }

    /// The selected case that the answer carries; [`CaseId::Unset`] where it
    /// carries none.
    #[verifier::when_used_as_spec(spec_selected)]
    pub fn selected(&self) -> (case_id: CaseId)
        ensures
            case_id == self.spec_selected(),
    {
        match *self {
            Answer::Selected { case_id } => case_id,
            _ => CaseId::Unset,
        }
    }

    /// The time that the answer carries; zero where it carries none.
    #[verifier::when_used_as_spec(spec_now)]
    pub fn now(&self) -> (now: u64)
        ensures
            now == self.spec_now(),
    {
        match *self {
            Answer::Clock { now, .. } => now,
            _ => 0,
        }
    }
}

impl Request {
    /// Whether `answer` is of the kind that this request asks for.
    pub open spec fn admits(self, answer: Answer) -> bool {
        match self {
            Request::Nothing | Request::Reset => answer is Nothing,
            Request::Draw => answer is Drawn,
            Request::Abort | Request::Park { .. } => answer is Selected,
            Request::Clock => answer is Clock,
        }
    }
}

} // verus!
