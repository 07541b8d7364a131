//! The driver as a mathematical state machine.
//!
//! A [`Model`] is the state of a driver with its counters as natural numbers.
//! Each operation of the driver is a function here, from the state before and
//! what the caller handed in to the state after and what the caller gets
//! back.

use vstd::prelude::*;
use crate::case_id::CaseId;
use crate::protocol::{Answer, Attempt, Op, Phase, Request, MAX_CASES};

verus! {

/// One if `b` holds, zero if not.
pub open spec fn flag(b: bool) -> nat {
    if b {
        1
    } else {
        0
    }
}

/// The state of a driver.
pub struct Model {
    /// The current phase.
    pub phase: Phase,
    /// The slot of the current phase that the next step takes.
    pub index: nat,
    /// The slot at which the visits of a phase start.
    pub start_index: nat,
    /// The first case that was counted.
    pub first_id: CaseId,
    /// The time after which the selection gives up, if any.
    pub deadline: Option<u64>,
    /// How many cases were counted.
    pub len: nat,
    /// How many of them are sends.
    pub send_case_count: nat,
    /// How many of them are receives.
    pub recv_case_count: nat,
    /// Whether a case for "every channel is disconnected" was counted.
    pub has_disconnected_case: bool,
    /// Whether a case for "no operation is ready" was counted.
    pub has_would_block_case: bool,
    /// Whether a case for "the deadline has passed" was counted.
    pub has_timed_out_case: bool,
    /// The operation that the caller was asked to perform and has not reported
    /// on yet.
    pub pending: Option<Op>,
}

impl Model {
    /// The state of a new driver.
    pub open spec fn init(deadline: Option<u64>) -> Model {
        Model {
            phase: Phase::Count,
            index: 0,
            start_index: 0,
            first_id: CaseId::Unset,
            deadline,
            len: 0,
            send_case_count: 0,
            recv_case_count: 0,
            has_disconnected_case: false,
            has_would_block_case: false,
            has_timed_out_case: false,
            pending: None,
        }
    }

    /// How many of the counted cases are operations on a channel.
    pub open spec fn real_case_count(self) -> nat {
        self.send_case_count + self.recv_case_count
    }

    /// How many of the counted cases fell into one of the five classes.
    pub open spec fn classified_count(self) -> nat {
        self.real_case_count() + flag(self.has_disconnected_case) + flag(
            self.has_would_block_case,
        ) + flag(self.has_timed_out_case)
    }

    /// How many channels were found disconnected in the current phase.
    pub open spec fn disconnected_count(self) -> nat {
        match self.phase {
            Phase::Try { disconnected_count } => disconnected_count,
            Phase::Promise { disconnected_count } => disconnected_count,
            _ => 0,
        }
    }

    /// Whether slot `slot` of a phase visits its case: the visits take the
    /// `len` slots from `start_index` on.
    pub open spec fn visits(self, slot: int) -> bool {
        self.start_index <= slot < self.start_index + self.len
    }

    /// How many slots of the current phase below `index` visited their case.
    pub open spec fn visit_count(self) -> nat {
        if self.index <= self.start_index {
            0
        } else if self.index >= self.start_index + self.len {
            self.len
        } else {
            (self.index - self.start_index) as nat
        }
    }

    /// Whether `op` is an operation that the current phase hands out and waits
    /// to hear of.
    pub open spec fn awaits(self, op: Op) -> bool {
        match self.phase {
            Phase::Try { .. } => op.is_try(),
            Phase::Promise { .. } => op.is_promise(),
            Phase::Fulfill { .. } => op.is_fulfill(),
            _ => false,
        }
    }

    /// The invariant of a driver.
    pub open spec fn wf(self) -> bool {
        &&& self.len <= MAX_CASES
        &&& self.classified_count() <= self.len
        &&& self.phase is Count ==> self.index == self.len && self.start_index == 0
        &&& !(self.phase is Count) && !(self.phase is Dead) ==> {
            &&& self.len >= 1
            &&& self.start_index < self.len
            &&& self.index <= 2 * self.len
        }
        &&& self.disconnected_count() + flag(self.pending is Some) <= self.visit_count()
        &&& self.pending matches Some(op) ==> {
            &&& self.awaits(op)
            &&& self.index >= 1
            &&& self.visits(self.index - 1)
        }
    }

    /// Whether a step on `case_id` counts it as a new case: the driver is
    /// counting, and the sweep has not come round to the first case.
    pub open spec fn counts(self, case_id: CaseId) -> bool {
        self.phase is Count && (self.len == 0 || self.first_id != case_id)
    }

    /// The state after `case_id` was counted as a new case.
    pub open spec fn count(self, case_id: CaseId) -> Model {
        Model {
            first_id: if self.len == 0 {
                case_id
            } else {
                self.first_id
            },
            len: self.len + 1,
            index: self.index + 1,
            send_case_count: self.send_case_count + flag(case_id is Send),
            recv_case_count: self.recv_case_count + flag(case_id is Recv),
            has_disconnected_case: self.has_disconnected_case || case_id == CaseId::Disconnected,
            has_would_block_case: self.has_would_block_case || case_id == CaseId::WouldBlock,
            has_timed_out_case: self.has_timed_out_case || case_id == CaseId::TimedOut,
            ..self
        }
    }

    /// Whether every slot of the current phase is used up, so that the next
    /// step starts with a change of phase.
    pub open spec fn at_boundary(self) -> bool {
        !(self.phase is Count) && self.index >= 2 * self.len
    }

    /// Whether the current phase found every channel disconnected while a case
    /// for that was declared.
    pub open spec fn gives_up_disconnected(self) -> bool {
        self.has_disconnected_case && self.disconnected_count() == self.real_case_count()
    }

    /// Whether the deadline has passed at the time `now`.
    pub open spec fn expired(self, now: u64) -> bool {
        self.deadline matches Some(end) && now >= end
    }

    /// The work that has to be done outside the driver before it steps on
    /// `case_id`.
    pub open spec fn request(self, case_id: CaseId) -> Request {
        if self.phase is Count {
            if self.counts(case_id) {
                Request::Nothing
            } else {
                Request::Draw
            }
        } else if !self.at_boundary() {
            Request::Nothing
        } else {
            match self.phase {
                Phase::Try { .. } => if self.gives_up_disconnected() || self.has_would_block_case {
                    Request::Nothing
                } else {
                    Request::Reset
                },
                Phase::Promise { .. } => if self.gives_up_disconnected() {
                    Request::Abort
                } else {
                    Request::Park { deadline: self.deadline }
                },
                Phase::Fulfill { .. } => if self.deadline is Some {
                    Request::Clock
                } else {
                    Request::Draw
                },
                _ => Request::Nothing,
            }
        }
    }

    /// The state at the start of an attempt phase, with the rotation taken
    /// from `random`.
    pub open spec fn enter_try(self, random: usize) -> Model {
        Model {
            phase: Phase::Try { disconnected_count: 0 },
            index: 0,
            start_index: if self.len == 0 {
                0
            } else {
                (random as nat) % self.len
            },
            ..self
        }
    }

    /// The phase that follows the current one, given the answer to the request
    /// that stood at the boundary.
    pub open spec fn transition(self, answer: Answer) -> Model {
        match self.phase {
            Phase::Try { .. } => if self.gives_up_disconnected() {
                Model { phase: Phase::Disconnected, index: 0, ..self }
            } else if self.has_would_block_case {
                Model { phase: Phase::WouldBlock, index: 0, ..self }
            } else {
                Model { phase: Phase::Promise { disconnected_count: 0 }, index: 0, ..self }
            },
            Phase::Promise { .. } => Model {
                phase: Phase::Revoke { case_id: answer.selected() },
                index: 0,
                ..self
            },
            Phase::Revoke { case_id } => Model { phase: Phase::Fulfill { case_id }, index: 0, ..self },
            Phase::Fulfill { .. } => if self.expired(answer.now()) {
                Model { phase: Phase::TimedOut, index: 0, ..self }
            } else {
                self.enter_try(answer.random())
            },
            _ => Model { index: 0, ..self },
        }
    }

    /// Whether the driver can take a step on `case_id` with `answer`: the
    /// selection is not over, no operation waits for its report, the answer is
    /// of the kind that was asked for, and a case that would be counted still
    /// fits.
    pub open spec fn steppable(self, case_id: CaseId, answer: Answer) -> bool {
        &&& !(self.phase is Dead)
        &&& self.pending is None
        &&& self.request(case_id).admits(answer)
        &&& self.counts(case_id) ==> self.len < MAX_CASES
    }

    /// The state in which a step that counts no case takes its slot: at the
    /// start of the attempts once the count is over, at the start of the next
    /// phase where the slots of the current one are used up, and else the
    /// state as it is.
    pub open spec fn prepare(self, answer: Answer) -> Model {
        if self.phase is Count {
            self.enter_try(answer.random())
        } else if self.at_boundary() {
            self.transition(answer)
        } else {
            self
        }
    }

    /// One step on `case_id`: the state after it, and whether the case is to be
    /// visited.
    ///
    /// While the driver counts, a new case is counted and not visited. Any
    /// other step takes the next slot, and visits the case if the slot lies in
    /// the window of the rotation.
    pub open spec fn step(self, case_id: CaseId, answer: Answer) -> (Model, bool) {
        if self.counts(case_id) {
            (self.count(case_id), false)
        } else {
            let ready = self.prepare(answer);
            (Model { index: ready.index + 1, ..ready }, ready.visits(ready.index as int))
        }
    }

    /// The operation that a visit of the case `case_id` calls for in the
    /// current phase. `sending` tells a send from a receive.
    pub open spec fn op_for(self, case_id: CaseId, sending: bool) -> Option<Op> {
        match self.phase {
            Phase::Try { .. } => Some(
                if sending {
                    Op::TrySend
                } else {
                    Op::TryRecv
                },
            ),
            Phase::Promise { .. } => Some(
                if sending {
                    Op::PromiseSend
                } else {
                    Op::PromiseRecv
                },
            ),
            Phase::Revoke { case_id: selected } => if case_id != selected {
                Some(
                    if sending {
                        Op::RevokeSend
                    } else {
                        Op::RevokeRecv
                    },
                )
            } else {
                None
            },
            Phase::Fulfill { case_id: selected } => if case_id == selected {
                Some(
                    if sending {
                        Op::FulfillSend
                    } else {
                        Op::FulfillRecv
                    },
                )
            } else {
                None
            },
            _ => None,
        }
    }

    /// One step on the real case `case_id`, and the operation that the caller
    /// is to perform on its endpoint, if any. An operation whose outcome the
    /// driver has to hear of is noted as pending.
    pub open spec fn dispatch(self, case_id: CaseId, sending: bool, answer: Answer) -> (
        Model,
        Option<Op>,
    ) {
        let (stepped, visit) = self.step(case_id, answer);
        if !visit {
            (stepped, None)
        } else {
            match stepped.op_for(case_id, sending) {
                Some(op) => (
                    Model {
                        pending: if op.is_reported() {
                            Some(op)
                        } else {
                            None
                        },
                        ..stepped
                    },
                    Some(op),
                ),
                None => (stepped, None),
            }
        }
    }

    /// The state after an attempt that went as `outcome` says, and whether the
    /// selection committed to the case. A finished attempt ends the selection;
    /// a disconnected channel is counted.
    pub open spec fn tried(self, outcome: Attempt) -> (Model, bool) {
        match outcome {
            Attempt::Done => (Model { phase: Phase::Dead, pending: None, ..self }, true),
            Attempt::NotReady => (Model { pending: None, ..self }, false),
            Attempt::Disconnected => (
                Model {
                    phase: Phase::Try { disconnected_count: self.disconnected_count() + 1 },
                    pending: None,
                    ..self
                },
                false,
            ),
        }
    }

    /// Whether a registration counts its channel as disconnected. A sender
    /// does whenever the channel is disconnected; a receiver only when there
    /// is nothing left to receive.
    pub open spec fn promise_counts(self, is_disconnected: bool, ready: bool) -> bool {
        if self.pending == Some(Op::PromiseSend) {
            is_disconnected
        } else {
            is_disconnected && !ready
        }
    }

    /// The state after a registration on a channel that is disconnected, or
    /// ready for the operation, as the two flags say; and whether the caller
    /// is to select [`CaseId::Abort`], so that the park to come returns at once.
    pub open spec fn promised(self, is_disconnected: bool, ready: bool) -> (Model, bool) {
        let counted = self.promise_counts(is_disconnected, ready);
        (
            Model {
                phase: Phase::Promise {
                    disconnected_count: self.disconnected_count() + flag(counted),
                },
                pending: None,
                ..self
            },
            !counted && ready,
        )
    }

    /// The state after the selected case tried to complete its operation, and
    /// whether the selection committed to it.
    pub open spec fn fulfilled(self, done: bool) -> (Model, bool) {
        if done {
            (Model { phase: Phase::Dead, pending: None, ..self }, true)
        } else {
            (Model { pending: None, ..self }, false)
        }
    }

    /// One step on a reserved case, and whether the selection ends with it:
    /// it does when the case is visited while the driver rests in `terminal`.
    pub open spec fn settle(self, case_id: CaseId, terminal: Phase, answer: Answer) -> (
        Model,
        bool,
    ) {
        let (stepped, visit) = self.step(case_id, answer);
        if visit && stepped.phase == terminal {
            (Model { phase: Phase::Dead, ..stepped }, true)
        } else {
            (stepped, false)
        }
    }
}

/// A step that the driver admits keeps the invariant. It leaves no operation
/// pending, it does not end the selection, and a visit is a slot in the window
/// of the rotation.
pub proof fn lemma_step_keeps_wf(m: Model, case_id: CaseId, answer: Answer)
    requires
        m.wf(),
        m.steppable(case_id, answer),
    ensures
        ({
            let (stepped, visit) = m.step(case_id, answer);
            &&& stepped.wf()
            &&& stepped.pending is None
            &&& !(stepped.phase is Dead)
            &&& stepped.deadline == m.deadline
            &&& visit ==> stepped.index >= 1 && stepped.visits(stepped.index - 1)
            &&& visit ==> !(stepped.phase is Count)
        }),
{
    if m.counts(case_id) {
    } else if m.phase is Count {
    } else if m.at_boundary() {
    } else {
    }
}

/// A step on a real case that the driver admits keeps the invariant, and an
/// operation that has to be reported is pending after it.
pub proof fn lemma_dispatch_keeps_wf(m: Model, case_id: CaseId, sending: bool, answer: Answer)
    requires
        m.wf(),
        m.steppable(case_id, answer),
    ensures
        ({
            let (named, op) = m.dispatch(case_id, sending, answer);
            &&& named.wf()
            &&& !(named.phase is Dead)
            &&& named.deadline == m.deadline
            &&& named.pending == if op matches Some(o) && o.is_reported() {
                op
            } else {
                None
            }
        }),
{
    lemma_step_keeps_wf(m, case_id, answer);
}

/// A report that the driver waits for keeps the invariant and leaves no
/// operation pending.
pub proof fn lemma_report_keeps_wf(m: Model)
    requires
        m.wf(),
        m.pending is Some,
    ensures
        forall|outcome: Attempt|
            m.pending->0.is_try() ==> (#[trigger] m.tried(outcome)).0.wf() && m.tried(
                outcome,
            ).0.pending is None,
        forall|is_disconnected: bool, ready: bool|
            m.pending->0.is_promise() ==> (#[trigger] m.promised(is_disconnected, ready)).0.wf()
                && m.promised(is_disconnected, ready).0.pending is None,
        forall|done: bool|
            m.pending->0.is_fulfill() ==> (#[trigger] m.fulfilled(done)).0.wf() && m.fulfilled(
                done,
            ).0.pending is None,
{
}

/// A step on a reserved case that the driver admits keeps the invariant.
pub proof fn lemma_settle_keeps_wf(m: Model, case_id: CaseId, terminal: Phase, answer: Answer)
    requires
        m.wf(),
        m.steppable(case_id, answer),
    ensures
        m.settle(case_id, terminal, answer).0.wf(),
        m.settle(case_id, terminal, answer).0.pending is None,
        m.settle(case_id, terminal, answer).0.deadline == m.deadline,
{
    lemma_step_keeps_wf(m, case_id, answer);
}

} // verus!
