//! Whole selections: a driver from its construction on, call after call.
//!
//! One turn of the caller is one call for one case, with everything that the
//! surroundings contribute to it. A selection is the list of the turns taken;
//! the states that the driver goes through are a function of it.

use vstd::prelude::*;
use crate::case_id::CaseId;
use crate::model::{
    lemma_dispatch_keeps_wf, lemma_report_keeps_wf, lemma_settle_keeps_wf, lemma_step_keeps_wf,
    Model,
};
use crate::protocol::{Answer, Attempt, Op, Phase, Request};

verus! {

/// One turn of the caller: the case that the call is for, and what the
/// surroundings contribute to it: the answer to the request that stood before
/// the step and, for each operation that the driver may name, how it goes.
pub struct Turn {
    /// The case that the call is for.
    pub case_id: CaseId,
    /// Whether the call is a bare step, which performs no operation and ends
    /// nothing.
    pub bare: bool,
    /// The answer to the request before the step.
    pub answer: Answer,
    /// How an attempt goes.
    pub attempt: Attempt,
    /// Whether the channel shows itself disconnected after a registration.
    pub is_disconnected: bool,
    /// Whether the channel shows itself ready after a registration.
    pub ready: bool,
    /// Whether a completion succeeds.
    pub done: bool,
}

/// What one turn comes to.
pub struct Served {
    /// The state after the turn.
    pub after: Model,
    /// The operation that was performed on the endpoint, if any.
    pub op: Option<Op>,
    /// Whether the caller was told to select [`CaseId::Abort`].
    pub abort: bool,
    /// Whether the call ended the selection: an operation committed, or a
    /// reserved case fired.
    pub ended: bool,
}

impl Model {
    /// Whether the driver admits the call that `turn` starts with.
    pub open spec fn admits(self, turn: Turn) -> bool {
        self.steppable(turn.case_id, turn.answer)
    }

    /// One turn.
    ///
    /// A bare step is a step and no more. Otherwise a real case is stepped
    /// on, the operation that the driver names is performed, and its outcome
    /// is reported; a reserved case that the caller can declare is stepped on
    /// and fires if the driver rests in its phase; any other identifier is
    /// only stepped on.
    pub open spec fn serve(self, turn: Turn) -> Served {
        if turn.bare {
            self.serve_bare(turn)
        } else {
            self.serve_case(turn)
        }
    }

    /// A turn that is a step and no more.
    pub open spec fn serve_bare(self, turn: Turn) -> Served {
        Served {
            after: self.step(turn.case_id, turn.answer).0,
            op: None,
            abort: false,
            ended: false,
        }
    }

    /// A turn that is a call for a case.
    pub open spec fn serve_case(self, turn: Turn) -> Served {
        let case_id = turn.case_id;
        match case_id {
            CaseId::Send(_) | CaseId::Recv(_) => {
                let (named, op) = self.dispatch(case_id, case_id is Send, turn.answer);
                match op {
                    Some(Op::TrySend) | Some(Op::TryRecv) => {
                        let (after, ended) = named.tried(turn.attempt);
                        Served { after, op, abort: false, ended }
                    },
                    Some(Op::PromiseSend) | Some(Op::PromiseRecv) => {
                        let (after, abort) = named.promised(turn.is_disconnected, turn.ready);
                        Served { after, op, abort, ended: false }
                    },
                    Some(Op::FulfillSend) | Some(Op::FulfillRecv) => {
                        let (after, ended) = named.fulfilled(turn.done);
                        Served { after, op, abort: false, ended }
                    },
                    _ => Served { after: named, op, abort: false, ended: false },
                }
            },
            CaseId::Disconnected => {
                let (after, ended) = self.settle(case_id, Phase::Disconnected, turn.answer);
                Served { after, op: None, abort: false, ended }
            },
            CaseId::WouldBlock => {
                let (after, ended) = self.settle(case_id, Phase::WouldBlock, turn.answer);
                Served { after, op: None, abort: false, ended }
            },
            CaseId::TimedOut => {
                let (after, ended) = self.settle(case_id, Phase::TimedOut, turn.answer);
                Served { after, op: None, abort: false, ended }
            },
            _ => self.serve_bare(turn),
        }
    }
}

/// A selection so far: the deadline that the driver was made with, and the
/// turns that were taken, in their order.
pub struct Selection {
    pub deadline: Option<u64>,
    pub turns: Seq<Turn>,
}

impl Selection {
    /// The selection in which nothing has happened yet.
    pub open spec fn start(deadline: Option<u64>) -> Selection {
        Selection { deadline, turns: Seq::empty() }
    }

    /// The selection with one more turn.
    pub open spec fn extended(self, turn: Turn) -> Selection {
        Selection { turns: self.turns.push(turn), ..self }
    }

    /// The state of the driver after the first `t` turns.
    pub open spec fn state_at(self, t: int) -> Model
        decreases t,
    {
        if t <= 0 {
            Model::init(self.deadline)
        } else {
            self.state_at(t - 1).serve(self.turns[t - 1]).after
        }
    }

    /// The state of the driver after all the turns.
    pub open spec fn state(self) -> Model {
        self.state_at(self.turns.len() as int)
    }

    /// What turn `t` comes to.
    pub open spec fn served(self, t: int) -> Served {
        self.state_at(t).serve(self.turns[t])
    }

    /// Whether the first `t` turns are calls that the driver admits, each in
    /// the state that the turns before it led to.
    pub open spec fn valid_to(self, t: int) -> bool
        decreases t,
    {
        t <= 0 || (self.valid_to(t - 1) && self.state_at(t - 1).admits(self.turns[t - 1]))
    }

    /// Whether the selection is one that can take place: every turn is a call
    /// that the driver admits.
    pub open spec fn valid(self) -> bool {
        self.valid_to(self.turns.len() as int)
    }
}

/// One more turn leaves what went before as it was.
pub proof fn lemma_extended_keeps_past(s: Selection, turn: Turn, t: int)
    requires
        t <= s.turns.len(),
    ensures
        s.extended(turn).state_at(t) == s.state_at(t),
        s.extended(turn).valid_to(t) == s.valid_to(t),
        0 <= t < s.turns.len() ==> s.extended(turn).served(t) == s.served(t),
    decreases t,
{
    if t > 0 {
        lemma_extended_keeps_past(s, turn, t - 1);
        assert(s.extended(turn).turns[t - 1] == s.turns[t - 1]);
    }
    if 0 <= t < s.turns.len() {
        assert(s.extended(turn).turns[t] == s.turns[t]);
    }
}

/// A turn that the driver admits at the end of a selection that can take
/// place gives a selection that can take place, and the state after it is
/// what the turn comes to.
pub proof fn lemma_extended_is_valid(s: Selection, turn: Turn)
    requires
        s.valid(),
        s.state().admits(turn),
    ensures
        s.extended(turn).valid(),
        s.extended(turn).state() == s.state().serve(turn).after,
        s.extended(turn).served(s.turns.len() as int) == s.state().serve(turn),
{
    let n = s.turns.len() as int;
    lemma_extended_keeps_past(s, turn, n);
    assert(s.extended(turn).turns[n] == turn);
    assert(s.extended(turn).turns.len() == n + 1);
}

/// A turn that starts with a call that the driver admits keeps the
/// invariant, leaves no operation pending, and leaves the deadline as it was.
pub proof fn lemma_serve_keeps_wf(m: Model, turn: Turn)
    requires
        m.wf(),
        m.admits(turn),
    ensures
        m.serve(turn).after.wf(),
        m.serve(turn).after.pending is None,
        m.serve(turn).after.deadline == m.deadline,
        m.serve(turn).ended <==> m.serve(turn).after.phase is Dead,
{
    let case_id = turn.case_id;
    lemma_step_keeps_wf(m, case_id, turn.answer);
    if !turn.bare {
        match case_id {
            CaseId::Send(_) | CaseId::Recv(_) => {
                lemma_dispatch_keeps_wf(m, case_id, case_id is Send, turn.answer);
                let (named, op) = m.dispatch(case_id, case_id is Send, turn.answer);
                if named.pending is Some {
                    lemma_report_keeps_wf(named);
                }
            },
            CaseId::Disconnected => {
                lemma_settle_keeps_wf(m, case_id, Phase::Disconnected, turn.answer);
            },
            CaseId::WouldBlock => {
                lemma_settle_keeps_wf(m, case_id, Phase::WouldBlock, turn.answer);
            },
            CaseId::TimedOut => {
                lemma_settle_keeps_wf(m, case_id, Phase::TimedOut, turn.answer);
            },
            _ => {},
        }
    }
}

impl Phase {
    /// The reserved case that ends a selection resting in this phase.
    pub open spec fn fired_by(self, case_id: CaseId) -> bool {
        match self {
            Phase::Disconnected => case_id == CaseId::Disconnected,
            Phase::WouldBlock => case_id == CaseId::WouldBlock,
            Phase::TimedOut => case_id == CaseId::TimedOut,
            _ => false,
        }
    }
}

/// A selection that rests in a terminal phase stays in it, whatever is
/// called, until the reserved case of that phase is visited; that call ends
/// the selection. No operation on a channel is named meanwhile, and a bare
/// step never leaves the phase.
pub proof fn lemma_terminal_phase_is_stable(m: Model, turn: Turn)
    requires
        m.wf(),
        m.phase.is_terminal(),
        m.admits(turn),
    ensures
        m.step(turn.case_id, turn.answer).0.phase == m.phase,
        m.serve(turn).op is None,
        m.serve(turn).after.phase == m.phase || m.serve(turn).after.phase is Dead,
        m.serve(turn).after.phase is Dead <==> !turn.bare && m.phase.fired_by(turn.case_id)
            && m.step(turn.case_id, turn.answer).1,
        m.request(turn.case_id) == Request::Nothing,
        m.pending is None,
{
}

impl Selection {
    /// Whether turn `t` finds the deadline passed: the completion phase is at
    /// its end, and the clock that was read for this turn shows the deadline
    /// or later.
    pub open spec fn observes_expiry(self, t: int) -> bool {
        &&& self.state_at(t).phase is Fulfill
        &&& self.state_at(t).at_boundary()
        &&& self.turns[t].answer is Clock
        &&& self.deadline matches Some(end) && self.turns[t].answer.now() >= end
    }
}

/// The invariant of the driver holds throughout a selection, and the deadline
/// never changes.
pub proof fn lemma_selection_keeps_wf(s: Selection, t: int)
    requires
        s.valid_to(t),
    ensures
        s.state_at(t).wf(),
        s.state_at(t).pending is None,
        s.state_at(t).deadline == s.deadline,
    decreases t,
{
    if t > 0 {
        lemma_selection_keeps_wf(s, t - 1);
        lemma_serve_keeps_wf(s.state_at(t - 1), s.turns[t - 1]);
    }
}

/// The turns of a selection that can take place up to some turn can take
/// place up to any earlier one.
pub proof fn lemma_valid_to_earlier(s: Selection, t: int, earlier: int)
    requires
        s.valid_to(t),
        earlier <= t,
    ensures
        s.valid_to(earlier),
    decreases t,
{
    if earlier < t && t > 0 {
        lemma_valid_to_earlier(s, t - 1, earlier);
    }
}

/// At most one call ends a selection, and no call follows it: in a selection
/// that can take place, a turn that commits to an operation, or on which a
/// reserved case fires, is the last turn.
pub proof fn lemma_commit_is_last(s: Selection, t: int)
    requires
        s.valid(),
        0 <= t < s.turns.len(),
        s.served(t).ended,
    ensures
        t == s.turns.len() - 1,
{
    if t + 1 < s.turns.len() {
        lemma_valid_to_earlier(s, s.turns.len() as int, t + 2);
        lemma_valid_to_earlier(s, s.turns.len() as int, t + 1);
        lemma_selection_keeps_wf(s, t);
        lemma_serve_keeps_wf(s.state_at(t), s.turns[t]);
        assert(s.state_at(t + 1) == s.served(t).after);
        assert(s.state_at(t + 1).phase is Dead);
        assert(s.state_at(t + 1).admits(s.turns[t + 1]));
    }
}

/// No two calls of one selection end it.
pub proof fn lemma_commit_is_exclusive(s: Selection, t: int, u: int)
    requires
        s.valid(),
        0 <= t < s.turns.len(),
        0 <= u < s.turns.len(),
        s.served(t).ended,
        s.served(u).ended,
    ensures
        t == u,
{
    lemma_commit_is_last(s, t);
    lemma_commit_is_last(s, u);
}

/// A selection rests in the phase for a passed deadline only after some turn
/// has found the deadline passed at the end of a completion phase.
pub proof fn lemma_timed_out_after_expiry(s: Selection, t: int)
    requires
        s.valid_to(t),
        s.state_at(t).phase is TimedOut,
    ensures
        exists|k: int| 0 <= k < t && s.observes_expiry(k),
    decreases t,
{
    if t > 0 {
        let before = s.state_at(t - 1);
        let turn = s.turns[t - 1];
        lemma_selection_keeps_wf(s, t - 1);
        lemma_serve_keeps_wf(before, turn);
        if before.phase is TimedOut {
            lemma_timed_out_after_expiry(s, t - 1);
            let k = choose|k: int| 0 <= k < t - 1 && s.observes_expiry(k);
            assert(0 <= k < t && s.observes_expiry(k));
        } else {
            lemma_enters_timed_out(before, turn);
            assert(s.observes_expiry(t - 1));
        }
    }
}

/// A turn takes the driver into the phase for a passed deadline only from the
/// end of a completion phase, with a clock that shows the deadline or later.
pub proof fn lemma_enters_timed_out(m: Model, turn: Turn)
    requires
        m.wf(),
        m.admits(turn),
        !(m.phase is TimedOut),
        m.serve(turn).after.phase is TimedOut,
    ensures
        m.phase is Fulfill,
        m.at_boundary(),
        turn.answer is Clock,
        m.expired(turn.answer.now()),
{
    lemma_step_keeps_wf(m, turn.case_id, turn.answer);
}

/// The case for a passed deadline fires only once a turn, this one or an
/// earlier one, has found the deadline passed at the end of a completion
/// phase.
pub proof fn lemma_no_spurious_timeout(s: Selection, t: int)
    requires
        s.valid(),
        0 <= t < s.turns.len(),
        s.turns[t].case_id == CaseId::TimedOut,
        !s.turns[t].bare,
        s.served(t).ended,
    ensures
        exists|k: int| 0 <= k <= t && s.observes_expiry(k),
{
    lemma_valid_to_earlier(s, s.turns.len() as int, t + 1);
    lemma_valid_to_earlier(s, s.turns.len() as int, t);
    lemma_selection_keeps_wf(s, t);
    let before = s.state_at(t);
    let turn = s.turns[t];
    lemma_step_keeps_wf(before, CaseId::TimedOut, turn.answer);
    let stepped = before.step(CaseId::TimedOut, turn.answer).0;
    assert(stepped.phase is TimedOut);
    if before.phase is TimedOut {
        lemma_timed_out_after_expiry(s, t);
        let k = choose|k: int| 0 <= k < t && s.observes_expiry(k);
        assert(0 <= k <= t && s.observes_expiry(k));
    } else {
        assert(s.observes_expiry(t));
    }
}

/// A selection without a deadline never comes to rest in the phase for a
/// passed deadline.
pub proof fn lemma_without_deadline_never_times_out(s: Selection, t: int)
    requires
        s.valid_to(t),
        s.deadline is None,
    ensures
        !(s.state_at(t).phase is TimedOut),
{
    if s.state_at(t).phase is TimedOut {
        lemma_timed_out_after_expiry(s, t);
    }
}

impl Model {
    /// Whether `other` has the census of this state: as many cases, classified
    /// alike, and the same first case.
    pub open spec fn same_census(self, other: Model) -> bool {
        &&& other.len == self.len
        &&& other.first_id == self.first_id
        &&& other.send_case_count == self.send_case_count
        &&& other.recv_case_count == self.recv_case_count
        &&& other.has_disconnected_case == self.has_disconnected_case
        &&& other.has_would_block_case == self.has_would_block_case
        &&& other.has_timed_out_case == self.has_timed_out_case
    }
}

/// Once the count is over, no step changes the census.
proof fn lemma_step_keeps_census(m: Model, case_id: CaseId, answer: Answer)
    requires
        m.wf(),
        m.steppable(case_id, answer),
        !(m.phase is Count),
    ensures
        m.same_census(m.step(case_id, answer).0),
        !(m.step(case_id, answer).0.phase is Count),
{
}

/// Once the count is over it stands: no call changes how many cases there
/// are, how they are classified, or which of them came first.
pub proof fn lemma_census_is_frozen(m: Model, turn: Turn)
    requires
        m.wf(),
        m.admits(turn),
        !(m.phase is Count),
    ensures
        m.same_census(m.serve(turn).after),
        !(m.serve(turn).after.phase is Count),
{
    let case_id = turn.case_id;
    lemma_step_keeps_census(m, case_id, turn.answer);
    let stepped = m.step(case_id, turn.answer).0;
    if !turn.bare {
        match case_id {
            CaseId::Send(_) | CaseId::Recv(_) => {
                let (named, op) = m.dispatch(case_id, case_id is Send, turn.answer);
                assert(stepped.same_census(named));
                assert(!(named.phase is Count));
            },
            CaseId::Disconnected => {
                assert(stepped.same_census(m.settle(case_id, Phase::Disconnected, turn.answer).0));
            },
            CaseId::WouldBlock => {
                assert(stepped.same_census(m.settle(case_id, Phase::WouldBlock, turn.answer).0));
            },
            CaseId::TimedOut => {
                assert(stepped.same_census(m.settle(case_id, Phase::TimedOut, turn.answer).0));
            },
            _ => {},
        }
    }
}

} // verus!
