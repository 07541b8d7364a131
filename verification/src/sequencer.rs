//! The decisions of the driver, apart from its outside work.

use vstd::prelude::*;
use crate::case_id::CaseId;
use crate::model::Model;
use crate::protocol::{Answer, Attempt, Op, Phase, Request, State, MAX_CASES};

verus! {

/// The sequencer of one selection: the state of the driver and every decision
/// that it takes, with no outside work in it.
///
/// The caller goes through its cases in a fixed order, again and again, and
/// calls the sequencer once for each: [`Sequencer::send`] or
/// [`Sequencer::recv`] for an operation on a channel,
/// [`Sequencer::disconnected`], [`Sequencer::would_block`] or
/// [`Sequencer::timed_out`] for a reserved case. Before each call the caller
/// asks [`Sequencer::request`] what has to be done first, does it, and hands
/// the answer in. After a call that names an operation, the caller performs
/// it on the endpoint and reports the outcome.
pub struct Sequencer {
    state: State,
    index: usize,
    start_index: usize,
    first_id: CaseId,
    deadline: Option<u64>,
    len: usize,
    send_case_count: usize,
    recv_case_count: usize,
    has_disconnected_case: bool,
    has_would_block_case: bool,
    has_timed_out_case: bool,
    pending: Option<Op>,
}

impl View for Sequencer {
    type V = Model;

    closed spec fn view(&self) -> Model {
        Model {
            phase: self.state@,
            index: self.index as nat,
            start_index: self.start_index as nat,
            first_id: self.first_id,
            deadline: self.deadline,
            len: self.len as nat,
            send_case_count: self.send_case_count as nat,
            recv_case_count: self.recv_case_count as nat,
            has_disconnected_case: self.has_disconnected_case,
            has_would_block_case: self.has_would_block_case,
            has_timed_out_case: self.has_timed_out_case,
            pending: self.pending,
        }
    }
}

impl Sequencer {
    /// The invariant of a sequencer.
    pub open spec fn wf(&self) -> bool {
        self@.wf()
    }

    /// A sequencer without a deadline.
    pub fn new() -> (sequencer: Sequencer)
        ensures
            sequencer.wf(),
            sequencer@ == Model::init(None),
    {
        Sequencer::with_deadline(None)
    }

    /// A sequencer that gives up once the clock shows `deadline` or later.
    pub fn with_deadline(deadline: Option<u64>) -> (sequencer: Sequencer)
        ensures
            sequencer.wf(),
            sequencer@ == Model::init(deadline),
    {
        Sequencer {
            state: State::Count,
            index: 0,
            start_index: 0,
            first_id: CaseId::none(),
            deadline,
            len: 0,
            send_case_count: 0,
            recv_case_count: 0,
            has_disconnected_case: false,
            has_would_block_case: false,
            has_timed_out_case: false,
            pending: None,
        }
    }

    /// Whether the current phase found every channel disconnected while a
    /// case for that was declared.
    fn gives_up_disconnected(&self, disconnected_count: usize) -> (b: bool)
        requires
            self.wf(),
            disconnected_count == self@.disconnected_count(),
        ensures
            b == self@.gives_up_disconnected(),
    {
        self.has_disconnected_case && self.send_case_count + self.recv_case_count
            == disconnected_count
    }

    /// The work that has to be done outside the sequencer before it steps on
    /// `case_id`.
    pub fn request(&self, case_id: CaseId) -> (request: Request)
        requires
            self.wf(),
        ensures
            request == self@.request(case_id),
    {
        match self.state {
            State::Count => {
                if self.len == 0 || self.first_id != case_id {
                    Request::Nothing
                } else {
                    Request::Draw
                }
            },
            State::Try { disconnected_count } => {
                if self.index < 2 * self.len {
                    Request::Nothing
                } else if self.gives_up_disconnected(disconnected_count)
                    || self.has_would_block_case {
                    Request::Nothing
                } else {
                    Request::Reset
                }
            },
            State::Promise { disconnected_count } => {
                if self.index < 2 * self.len {
                    Request::Nothing
                } else if self.gives_up_disconnected(disconnected_count) {
                    Request::Abort
                } else {
                    Request::Park { deadline: self.deadline }
                }
            },
            State::Fulfill { .. } => {
                if self.index < 2 * self.len {
                    Request::Nothing
                } else if self.deadline.is_some() {
                    Request::Clock
                } else {
                    Request::Draw
                }
            },
            _ => Request::Nothing,
        }
    }

    /// Starts an attempt phase, with the rotation taken from `random`.
    fn enter_try(&mut self, random: usize)
        requires
            old(self).wf(),
            old(self).len >= 1,
            old(self).pending is None,
        ensures
            final(self)@ == old(self)@.enter_try(random),
            final(self)@.wf(),
    {
        self.state = State::Try { disconnected_count: 0 };
        self.index = 0;
        self.start_index = random % self.len;
    }

    /// Leaves the phase whose slots are used up for the one that follows it.
    fn transition(&mut self, answer: Answer)
        requires
            old(self).wf(),
            old(self)@.at_boundary(),
            old(self).pending is None,
            !(old(self)@.phase is Dead),
        ensures
            final(self)@ == old(self)@.transition(answer),
            final(self)@.wf(),
    {
        match self.state {
            State::Try { disconnected_count } => {
                if self.gives_up_disconnected(disconnected_count) {
                    self.state = State::Disconnected;
                } else if self.has_would_block_case {
                    self.state = State::WouldBlock;
                } else {
                    self.state = State::Promise { disconnected_count: 0 };
                }
                self.index = 0;
            },
            State::Promise { .. } => {
                self.state = State::Revoke { case_id: answer.selected() };
                self.index = 0;
            },
            State::Revoke { case_id } => {
                self.state = State::Fulfill { case_id };
                self.index = 0;
            },
            State::Fulfill { .. } => {
                let expired = match self.deadline {
                    Some(end) => answer.now() >= end,
                    None => false,
                };
                if expired {
                    self.state = State::TimedOut;
                    self.index = 0;
                } else {
                    self.enter_try(answer.random());
                }
            },
            _ => {
                self.index = 0;
            },
        }
    }

    /// Takes one step on `case_id` and tells whether the case is to be
    /// visited.
    ///
    /// While the sequencer counts, a case that is not the first one come round
    /// again is counted, classified and not visited. Otherwise the step takes
    /// the next slot of the current phase, after a change of phase where the
    /// slots were used up, and the case is visited if the slot lies in the
    /// window of the rotation.
    pub fn step(&mut self, case_id: CaseId, answer: Answer) -> (visit: bool)
        requires
            old(self).wf(),
            old(self)@.steppable(case_id, answer),
        ensures
            final(self).wf(),
            final(self)@ == old(self)@.step(case_id, answer).0,
            visit == old(self)@.step(case_id, answer).1,
    {
        match self.state {
            State::Count => {
                if self.len == 0 || self.first_id != case_id {
                    if self.len == 0 {
                        self.first_id = case_id;
                    }
                    self.len = self.len + 1;
                    self.index = self.index + 1;
                    if case_id.is_send() {
                        self.send_case_count = self.send_case_count + 1;
                    }
                    if case_id.is_recv() {
                        self.recv_case_count = self.recv_case_count + 1;
                    }
                    self.has_disconnected_case = self.has_disconnected_case || case_id
                        == CaseId::Disconnected;
                    self.has_would_block_case = self.has_would_block_case || case_id
                        == CaseId::WouldBlock;
                    self.has_timed_out_case = self.has_timed_out_case || case_id
                        == CaseId::TimedOut;
                    return false;
                }
                self.enter_try(answer.random());
            },
            _ => {
                if self.index >= 2 * self.len {
                    self.transition(answer);
                }
            },
        }
        let slot: usize = self.index;
        self.index = slot + 1;
        self.start_index <= slot && slot < self.start_index + self.len
    }

    /// The operation that a visit of `case_id` calls for in the current phase.
    fn op_for(&self, case_id: CaseId, sending: bool) -> (op: Option<Op>)
        ensures
            op == self@.op_for(case_id, sending),
    {
        match self.state {
            State::Try { .. } => Some(
                if sending {
                    Op::TrySend
                } else {
                    Op::TryRecv
                },
            ),
            State::Promise { .. } => Some(
                if sending {
                    Op::PromiseSend
                } else {
                    Op::PromiseRecv
                },
            ),
            State::Revoke { case_id: selected } => {
                if case_id != selected {
                    Some(
                        if sending {
                            Op::RevokeSend
                        } else {
                            Op::RevokeRecv
                        },
                    )
                } else {
                    None
                }
            },
            State::Fulfill { case_id: selected } => {
                if case_id == selected {
                    Some(
                        if sending {
                            Op::FulfillSend
                        } else {
                            Op::FulfillRecv
                        },
                    )
                } else {
                    None
                }
            },
            _ => None,
        }
    }

    /// Steps on a real case and names the operation to perform on it.
    fn dispatch(&mut self, case_id: CaseId, sending: bool, answer: Answer) -> (op: Option<Op>)
        requires
            old(self).wf(),
            old(self)@.steppable(case_id, answer),
        ensures
            final(self).wf(),
            final(self)@ == old(self)@.dispatch(case_id, sending, answer).0,
            op == old(self)@.dispatch(case_id, sending, answer).1,
    {
        if !self.step(case_id, answer) {
            return None;
        }
        let op = self.op_for(case_id, sending);
        match op {
            Some(Op::RevokeSend) | Some(Op::RevokeRecv) | None => {},
            Some(_) => {
                self.pending = op;
            },
        }
        op
    }

    /// Steps on the send on `endpoint`, and names the operation that the
    /// caller is to perform on that endpoint now, if any.
    ///
    /// No operation is named where the case is not visited at this step.
    /// Where it is: an attempt in the attempt phase, a registration in the
    /// registration phase, a withdrawal in the withdrawal phase unless this
    /// case was selected, a completion in the completion phase if this case
    /// was selected. After an attempt, a registration or a completion the
    /// driver waits for the report of its outcome.
    pub fn send(&mut self, endpoint: usize, answer: Answer) -> (op: Option<Op>)
        requires
            old(self).wf(),
            old(self)@.steppable(CaseId::Send(endpoint), answer),
        ensures
            final(self).wf(),
            final(self)@ == old(self)@.dispatch(CaseId::Send(endpoint), true, answer).0,
            op == old(self)@.dispatch(CaseId::Send(endpoint), true, answer).1,
    {
        self.dispatch(CaseId::send(endpoint), true, answer)
    }

    /// Steps on the receive on `endpoint`, and names the operation that the
    /// caller is to perform on that endpoint now, if any. The operations are
    /// those of [`Sequencer::send`], for a receiver.
    pub fn recv(&mut self, endpoint: usize, answer: Answer) -> (op: Option<Op>)
        requires
            old(self).wf(),
            old(self)@.steppable(CaseId::Recv(endpoint), answer),
        ensures
            final(self).wf(),
            final(self)@ == old(self)@.dispatch(CaseId::Recv(endpoint), false, answer).0,
            op == old(self)@.dispatch(CaseId::Recv(endpoint), false, answer).1,
    {
        self.dispatch(CaseId::recv(endpoint), false, answer)
    }

    /// Takes the outcome of the attempt that the sequencer asked for, and tells
    /// whether the selection committed to the case.
    pub fn tried(&mut self, outcome: Attempt) -> (committed: bool)
        requires
            old(self).wf(),
            old(self)@.pending matches Some(op) && op.is_try(),
        ensures
            final(self).wf(),
            final(self)@ == old(self)@.tried(outcome).0,
            committed == old(self)@.tried(outcome).1,
    {
        self.pending = None;
        match outcome {
            Attempt::Done => {
                self.state = State::Dead;
                true
            },
            Attempt::NotReady => false,
            Attempt::Disconnected => {
                match self.state {
                    State::Try { disconnected_count } => {
                        self.state = State::Try { disconnected_count: disconnected_count + 1 };
                    },
                    _ => {},
                }
                false
            },
        }
    }

    /// Takes what the channel said after the registration that the sequencer
    /// asked for: whether it is disconnected, and whether it is ready for the
    /// operation. Tells whether the caller is to select [`CaseId::Abort`], so
    /// that the park to come returns at once.
    pub fn promised(&mut self, is_disconnected: bool, ready: bool) -> (abort: bool)
        requires
            old(self).wf(),
            old(self)@.pending matches Some(op) && op.is_promise(),
        ensures
            final(self).wf(),
            final(self)@ == old(self)@.promised(is_disconnected, ready).0,
            abort == old(self)@.promised(is_disconnected, ready).1,
    {
        let counted = match self.pending {
            Some(Op::PromiseSend) => is_disconnected,
            _ => is_disconnected && !ready,
        };
        self.pending = None;
        if counted {
            match self.state {
                State::Promise { disconnected_count } => {
                    self.state = State::Promise { disconnected_count: disconnected_count + 1 };
                },
                _ => {},
            }
        }
        !counted && ready
    }

    /// Takes the outcome of the completion that the sequencer asked for, and
    /// tells whether the selection committed to the case.
    pub fn fulfilled(&mut self, done: bool) -> (committed: bool)
        requires
            old(self).wf(),
            old(self)@.pending matches Some(op) && op.is_fulfill(),
        ensures
            final(self).wf(),
            final(self)@ == old(self)@.fulfilled(done).0,
            committed == old(self)@.fulfilled(done).1,
    {
        self.pending = None;
        if done {
            self.state = State::Dead;
        }
        done
    }

    /// Steps on the case for "every channel is disconnected", and tells
    /// whether the selection ends with it.
    pub fn disconnected(&mut self, answer: Answer) -> (fired: bool)
        requires
            old(self).wf(),
            old(self)@.steppable(CaseId::Disconnected, answer),
        ensures
            final(self).wf(),
            final(self)@ == old(self)@.settle(CaseId::Disconnected, Phase::Disconnected, answer).0,
            fired == old(self)@.settle(CaseId::Disconnected, Phase::Disconnected, answer).1,
    {
        if !self.step(CaseId::disconnected(), answer) {
            return false;
        }
        match self.state {
            State::Disconnected => {
                self.state = State::Dead;
                true
            },
            _ => false,
        }
    }

    /// Steps on the case for "no operation is ready", and tells whether the
    /// selection ends with it.
    pub fn would_block(&mut self, answer: Answer) -> (fired: bool)
        requires
            old(self).wf(),
            old(self)@.steppable(CaseId::WouldBlock, answer),
        ensures
            final(self).wf(),
            final(self)@ == old(self)@.settle(CaseId::WouldBlock, Phase::WouldBlock, answer).0,
            fired == old(self)@.settle(CaseId::WouldBlock, Phase::WouldBlock, answer).1,
    {
        if !self.step(CaseId::would_block(), answer) {
            return false;
        }
        match self.state {
            State::WouldBlock => {
                self.state = State::Dead;
                true
            },
            _ => false,
        }
    }

    /// Steps on the case for "the deadline has passed", and tells whether the
    /// selection ends with it.
    pub fn timed_out(&mut self, answer: Answer) -> (fired: bool)
        requires
            old(self).wf(),
            old(self)@.steppable(CaseId::TimedOut, answer),
        ensures
            final(self).wf(),
            final(self)@ == old(self)@.settle(CaseId::TimedOut, Phase::TimedOut, answer).0,
            fired == old(self)@.settle(CaseId::TimedOut, Phase::TimedOut, answer).1,
    {
        if !self.step(CaseId::timed_out(), answer) {
            return false;
        }
        match self.state {
            State::TimedOut => {
                self.state = State::Dead;
                true
            },
            _ => false,
        }
    }

    /// Whether the sequencer can take a step on `case_id` with `answer`: the
    /// selection is not over, no report is due, the answer is of the kind that
    /// [`Sequencer::request`] asks for, and a case that would be counted still
    /// fits.
    pub fn accepts(&self, case_id: CaseId, answer: Answer) -> (b: bool)
        requires
            self.wf(),
        ensures
            b == self@.steppable(case_id, answer),
    {
        if self.is_dead() || self.pending.is_some() {
            return false;
        }
        let fits = match self.request(case_id) {
            Request::Nothing | Request::Reset => match answer {
                Answer::Nothing => true,
                _ => false,
            },
            Request::Draw => match answer {
                Answer::Drawn { .. } => true,
                _ => false,
            },
            Request::Abort | Request::Park { .. } => match answer {
                Answer::Selected { .. } => true,
                _ => false,
            },
            Request::Clock => match answer {
                Answer::Clock { .. } => true,
                _ => false,
            },
        };
        let counts = match self.state {
            State::Count => self.len == 0 || self.first_id != case_id,
            _ => false,
        };
        fits && (!counts || self.len < MAX_CASES)
    }

    /// The current phase.
    pub fn state(&self) -> (state: State)
        ensures
            state@ == self@.phase,
    {
        self.state
    }

    /// Whether the selection is over.
    pub fn is_dead(&self) -> (b: bool)
        ensures
            b == (self@.phase is Dead),
    {
        match self.state {
            State::Dead => true,
            _ => false,
        }
    }

    /// The operation whose outcome the sequencer waits to hear of, if any.
    pub fn pending(&self) -> (op: Option<Op>)
        ensures
            op == self@.pending,
    {
        self.pending
    }

    /// The slot of the current phase that the next step takes.
    pub fn index(&self) -> (index: usize)
        ensures
            index == self@.index,
    {
        self.index
    }

    /// The slot at which the visits of a phase start.
    pub fn start_index(&self) -> (start_index: usize)
        ensures
            start_index == self@.start_index,
    {
        self.start_index
    }

    /// The first case that was counted; [`CaseId::Unset`] before that.
    pub fn first_id(&self) -> (first_id: CaseId)
        ensures
            first_id == self@.first_id,
    {
        self.first_id
    }

    /// The time after which the selection gives up, if any.
    pub fn deadline(&self) -> (deadline: Option<u64>)
        ensures
            deadline == self@.deadline,
    {
        self.deadline
    }

    /// How many cases were counted.
    pub fn len(&self) -> (len: usize)
        ensures
            len == self@.len,
    {
        self.len
    }

    /// How many of the counted cases are sends.
    pub fn send_case_count(&self) -> (count: usize)
        ensures
            count == self@.send_case_count,
    {
        self.send_case_count
    }

    /// How many of the counted cases are receives.
    pub fn recv_case_count(&self) -> (count: usize)
        ensures
            count == self@.recv_case_count,
    {
        self.recv_case_count
    }

    /// Whether a case for "every channel is disconnected" was counted.
    pub fn has_disconnected_case(&self) -> (b: bool)
        ensures
            b == self@.has_disconnected_case,
    {
        self.has_disconnected_case
    }

    /// Whether a case for "no operation is ready" was counted.
    pub fn has_would_block_case(&self) -> (b: bool)
        ensures
            b == self@.has_would_block_case,
    {
        self.has_would_block_case
    }

    /// Whether a case for "the deadline has passed" was counted.
    pub fn has_timed_out_case(&self) -> (b: bool)
        ensures
            b == self@.has_timed_out_case,
    {
        self.has_timed_out_case
    }
}

} // verus!
