//! Counts of the operations that a selection performs on each of its cases,
//! and what holds of them.

use vstd::prelude::*;
use crate::case_id::CaseId;
use crate::model::{flag, Model};
use crate::protocol::{Answer, Op, Phase};
use crate::rotation::{
    in_step, lemma_next_position, lemma_turn_from_prepared, lemma_turn_within_phase,
};
use crate::selection::{lemma_selection_keeps_wf, Selection, Turn};

verus! {

impl Model {
    /// Whether a step on `case_id` starts an attempt phase: the count is
    /// over, or a completion phase is over and the deadline has not passed.
    pub open spec fn enters_try(self, case_id: CaseId, answer: Answer) -> bool {
        ||| self.phase is Count && !self.counts(case_id)
        ||| self.phase is Fulfill && self.at_boundary() && !self.expired(answer.now())
    }

    /// Whether the next step starts a registration phase: an attempt phase is
    /// over and the selection does not come to rest.
    pub open spec fn enters_promise(self) -> bool {
        &&& self.phase is Try
        &&& self.at_boundary()
        &&& !self.gives_up_disconnected()
        &&& !self.has_would_block_case
    }
}

/// What a selection has done so far, as far as one of its cases goes: how
/// often each kind of operation was performed on the case, and how many
/// attempt phases and registration phases were started.
pub struct Tally {
    pub tries: nat,
    pub promises: nat,
    pub revokes: nat,
    pub fulfills: nat,
    pub try_phases: nat,
    pub promise_phases: nat,
}

impl Tally {
    /// The tally of a selection in which nothing has happened.
    pub open spec fn zero() -> Tally {
        Tally { tries: 0, promises: 0, revokes: 0, fulfills: 0, try_phases: 0, promise_phases: 0 }
    }

    /// The tally with the phases that a step from `before` on `case_id`
    /// starts, and no operation.
    pub open spec fn with_phases(self, before: Model, case_id: CaseId, answer: Answer) -> Tally {
        Tally {
            try_phases: self.try_phases + flag(before.enters_try(case_id, answer)),
            promise_phases: self.promise_phases + flag(before.enters_promise()),
            ..self
        }
    }

    /// The tally with the operation `op`, performed on the case that the
    /// tally is kept for if `here` says so.
    pub open spec fn with_op(self, op: Option<Op>, here: bool) -> Tally {
        Tally {
            tries: self.tries + flag(here && op is Some && op->0.is_try()),
            promises: self.promises + flag(here && op is Some && op->0.is_promise()),
            revokes: self.revokes + flag(here && op is Some && op->0.is_revoke()),
            fulfills: self.fulfills + flag(here && op is Some && op->0.is_fulfill()),
            ..self
        }
    }

    /// The tally after one more turn, which started in the state `before`.
    /// `here` says whether the turn was for the case that the tally is kept
    /// for.
    pub open spec fn after(self, before: Model, turn: Turn, here: bool) -> Tally {
        self.with_phases(before, turn.case_id, turn.answer).with_op(before.serve(turn).op, here)
    }
}

impl Selection {
    /// The tally of the first `t` turns for the case at position `p` in the
    /// list of a caller with `n` cases.
    pub open spec fn tally(self, n: int, t: int, p: int) -> Tally
        decreases t,
    {
        if t <= 0 {
            Tally::zero()
        } else {
            self.tally(n, t - 1, p).after(self.state_at(t - 1), self.turns[t - 1], (t - 1) % n == p)
        }
    }
}

/// What holds of the tally for the real case at position `p` when the driver
/// is in state `m`.
///
/// Each attempt phase and each registration phase performs its operation on
/// the case once, at the slot of the case. A registration stands until the
/// withdrawal phase withdraws it or, for the selected case, the completion
/// phase completes it.
pub open spec fn tallied(m: Model, id: CaseId, p: int, tally: Tally) -> bool {
    let waiting = flag(m.unvisited(p));
    match m.phase {
        Phase::Count => tally == Tally::zero(),
        Phase::Try { .. } => {
            &&& tally.tries + waiting == tally.try_phases
            &&& tally.promises == tally.promise_phases
            &&& tally.revokes + tally.fulfills == tally.promise_phases
        },
        Phase::Promise { .. } => {
            &&& tally.tries == tally.try_phases
            &&& tally.promises + waiting == tally.promise_phases
            &&& tally.revokes + tally.fulfills + 1 == tally.promise_phases
        },
        Phase::Revoke { case_id } => {
            &&& tally.tries == tally.try_phases
            &&& tally.promises == tally.promise_phases
            &&& tally.revokes + tally.fulfills + flag(id == case_id || m.unvisited(p))
                == tally.promise_phases
        },
        Phase::Fulfill { case_id } => {
            &&& tally.tries == tally.try_phases
            &&& tally.promises == tally.promise_phases
            &&& tally.revokes + tally.fulfills + flag(id == case_id && m.unvisited(p))
                == tally.promise_phases
        },
        Phase::Dead => {
            &&& tally.tries <= tally.try_phases <= tally.tries + 1
            &&& tally.promises == tally.promise_phases
            &&& tally.revokes + tally.fulfills == tally.promise_phases
        },
        _ => {
            &&& tally.tries == tally.try_phases
            &&& tally.promises == tally.promise_phases
            &&& tally.revokes + tally.fulfills == tally.promise_phases
        },
    }
}

/// Registrations balance: at every point of a selection with a caller that
/// keeps to its part, each case has been registered as often as its
/// registration has been withdrawn or completed, or once more; and the one
/// registration more stands only between the start of a registration phase
/// and the end of the completion phase that follows it. So every registration
/// of a case is followed by exactly one withdrawal or completion for that
/// case, and none is left when the selection is over.
pub proof fn lemma_registrations_balance(s: Selection, cases: Seq<CaseId>, t: int, p: int)
    requires
        s.follows(cases),
        s.valid_to(t),
        0 <= t <= s.turns.len(),
        0 <= p < cases.len(),
    ensures
        ({
            let tally = s.tally(cases.len() as int, t, p);
            let phase = s.state_at(t).phase;
            &&& tally.revokes + tally.fulfills <= tally.promises
            &&& tally.promises <= tally.revokes + tally.fulfills + 1
            &&& !(phase is Promise || phase is Revoke || phase is Fulfill) ==> tally.promises
                == tally.revokes + tally.fulfills
            &&& phase is Dead ==> tally.promises == tally.revokes + tally.fulfills
        }),
{
    if cases[p].is_real() {
        lemma_selection_keeps_tally(s, cases, t, p);
    } else {
        lemma_reserved_cases_have_no_operations(s, cases, t, p);
    }
}

/// Every phase visits every case once: at every point of a selection with a
/// caller that keeps to its part, a real case has been attempted once in each
/// attempt phase and registered once in each registration phase, but for the
/// phase that is under way and has not come to the slot of the case yet. An
/// attempt phase that ended the selection may have ended before it came to
/// the case.
pub proof fn lemma_phase_visits_each_case_once(s: Selection, cases: Seq<CaseId>, t: int, p: int)
    requires
        s.follows(cases),
        s.valid_to(t),
        0 <= t <= s.turns.len(),
        0 <= p < cases.len(),
        cases[p].is_real(),
    ensures
        ({
            let m = s.state_at(t);
            let tally = s.tally(cases.len() as int, t, p);
            &&& m.phase is Try ==> tally.tries + flag(m.unvisited(p)) == tally.try_phases
            &&& m.phase is Dead ==> tally.tries <= tally.try_phases <= tally.tries + 1
            &&& !(m.phase is Try) && !(m.phase is Dead) ==> tally.tries == tally.try_phases
            &&& m.phase is Promise ==> tally.promises + flag(m.unvisited(p))
                == tally.promise_phases
            &&& !(m.phase is Promise) ==> tally.promises == tally.promise_phases
        }),
{
    lemma_selection_keeps_tally(s, cases, t, p);
}

/// No operation is ever performed for a case that is not an operation on a
/// channel.
pub proof fn lemma_reserved_cases_have_no_operations(
    s: Selection,
    cases: Seq<CaseId>,
    t: int,
    p: int,
)
    requires
        s.follows(cases),
        0 <= t <= s.turns.len(),
        0 <= p < cases.len(),
        !cases[p].is_real(),
    ensures
        s.tally(cases.len() as int, t, p).tries == 0,
        s.tally(cases.len() as int, t, p).promises == 0,
        s.tally(cases.len() as int, t, p).revokes == 0,
        s.tally(cases.len() as int, t, p).fulfills == 0,
    decreases t,
{
    if t > 0 {
        lemma_reserved_cases_have_no_operations(s, cases, t - 1, p);
        let n = cases.len() as int;
        if (t - 1) % n == p {
            assert(s.turns[t - 1].case_id == cases[p]);
        }
    }
}

/// Throughout a selection with a caller that keeps to its part, the driver is
/// in step with the caller, and the tally of every real case is as it should
/// be.
pub proof fn lemma_selection_keeps_tally(s: Selection, cases: Seq<CaseId>, t: int, p: int)
    requires
        s.follows(cases),
        s.valid_to(t),
        0 <= t <= s.turns.len(),
        0 <= p < cases.len(),
        cases[p].is_real(),
    ensures
        in_step(s.state_at(t), cases.len() as int, cases[0], t % (cases.len() as int)),
        tallied(s.state_at(t), cases[p], p, s.tally(cases.len() as int, t, p)),
    decreases t,
{
    let n = cases.len() as int;
    if t > 0 {
        lemma_selection_keeps_tally(s, cases, t - 1, p);
        lemma_selection_keeps_wf(s, t - 1);
        lemma_next_position(t - 1, n);
        assert(s.turns[t - 1].case_id == cases[(t - 1) % n] && !s.turns[t - 1].bare);
        lemma_turn_keeps_tally(
            s.state_at(t - 1),
            cases,
            (t - 1) % n,
            p,
            s.turns[t - 1],
            s.tally(n, t - 1, p),
        );
    } else {
        assert(0int % n == 0) by {
            lemma_next_position(0, n);
        }
    }
}

/// One turn of a caller that keeps to its part keeps the driver in step and
/// the tally of every real case as it should be.
pub proof fn lemma_turn_keeps_tally(
    m: Model,
    cases: Seq<CaseId>,
    q: int,
    p: int,
    turn: Turn,
    tally: Tally,
)
    requires
        0 <= q < cases.len(),
        0 <= p < cases.len(),
        cases.no_duplicates(),
        cases[p].is_real(),
        turn.case_id == cases[q],
        !turn.bare,
        m.wf(),
        m.admits(turn),
        in_step(m, cases.len() as int, cases[0], q),
        tallied(m, cases[p], p, tally),
    ensures
        in_step(
            m.serve(turn).after,
            cases.len() as int,
            cases[0],
            if q + 1 == cases.len() {
                0
            } else {
                q + 1
            },
        ),
        tallied(m.serve(turn).after, cases[p], p, tally.after(m, turn, q == p)),
{
    if m.counts(cases[q]) {
        lemma_counting_turn(m, cases, q, p, turn, tally);
    } else {
        let r = m.prepare(turn.answer);
        lemma_turn_from_prepared(m, turn);
        lemma_prepare_keeps_tally(m, cases, q, p, turn.answer, tally);
        lemma_slot_keeps_tally(r, cases, q, p, turn, tally.with_phases(m, cases[q], turn.answer));
        assert(r.first_id == cases[0]);
    }
}

/// A turn that counts its case performs no operation and starts no phase.
proof fn lemma_counting_turn(m: Model, cases: Seq<CaseId>, q: int, p: int, turn: Turn, tally: Tally)
    requires
        0 <= q < cases.len(),
        0 <= p < cases.len(),
        turn.case_id == cases[q],
        !turn.bare,
        m.wf(),
        m.admits(turn),
        m.counts(cases[q]),
        in_step(m, cases.len() as int, cases[0], q),
        tallied(m, cases[p], p, tally),
    ensures
        in_step(
            m.serve(turn).after,
            cases.len() as int,
            cases[0],
            if q + 1 == cases.len() {
                0
            } else {
                q + 1
            },
        ),
        tallied(m.serve(turn).after, cases[p], p, tally.after(m, turn, q == p)),
{
}

/// A change of phase keeps the tally as it should be, with the new phase
/// counted.
proof fn lemma_prepare_keeps_tally(
    m: Model,
    cases: Seq<CaseId>,
    q: int,
    p: int,
    answer: Answer,
    tally: Tally,
)
    requires
        0 <= q < cases.len(),
        0 <= p < cases.len(),
        cases.no_duplicates(),
        m.wf(),
        m.steppable(cases[q], answer),
        !m.counts(cases[q]),
        in_step(m, cases.len() as int, cases[0], q),
        tallied(m, cases[p], p, tally),
    ensures
        in_step(m.prepare(answer), cases.len() as int, cases[0], q),
        m.prepare(answer).len == cases.len(),
        m.prepare(answer).index == q || m.prepare(answer).index == q + cases.len(),
        tallied(m.prepare(answer), cases[p], p, tally.with_phases(m, cases[q], answer)),
{
    if m.phase is Count {
        assert(m.first_id == cases[q]);
        assert(q == 0);
    }
}

/// A turn in the middle of a phase keeps the tally as it should be, with the
/// operation of the turn counted.
proof fn lemma_slot_keeps_tally(m: Model, cases: Seq<CaseId>, q: int, p: int, turn: Turn, tally: Tally)
    requires
        0 <= q < cases.len(),
        0 <= p < cases.len(),
        cases.no_duplicates(),
        cases[p].is_real(),
        turn.case_id == cases[q],
        !turn.bare,
        m.wf(),
        m.pending is None,
        !(m.phase is Count),
        !(m.phase is Dead),
        !m.at_boundary(),
        m.len == cases.len(),
        m.index == q || m.index == q + cases.len(),
        tallied(m, cases[p], p, tally),
    ensures
        in_step(
            m.serve(turn).after,
            cases.len() as int,
            m.first_id,
            if q + 1 == cases.len() {
                0
            } else {
                q + 1
            },
        ),
        tallied(m.serve(turn).after, cases[p], p, tally.with_op(m.serve(turn).op, q == p)),
{
    let served = m.serve(turn);
    lemma_turn_within_phase(m, turn);
    lemma_slot_arith(
        m,
        served.after,
        served.op,
        served.ended,
        cases[p],
        cases[q],
        cases.len() as int,
        q,
        p,
        tally,
    );
}

/// The arithmetic of one slot: what the tally has to be after a turn that
/// took the slot `m.index`, which belongs to position `q`, given what the
/// turn came to.
proof fn lemma_slot_arith(
    m: Model,
    after: Model,
    op: Option<Op>,
    ended: bool,
    id_p: CaseId,
    id_q: CaseId,
    n: int,
    q: int,
    p: int,
    tally: Tally,
)
    requires
        m.wf(),
        !(m.phase is Count),
        !(m.phase is Dead),
        !m.at_boundary(),
        0 <= q < n,
        0 <= p < n,
        id_p.is_real(),
        p == q ==> id_p == id_q,
        p != q ==> id_p != id_q,
        m.len == n,
        m.index == q || m.index == q + n,
        tallied(m, id_p, p, tally),
        after.index == m.index + 1,
        after.start_index == m.start_index,
        after.len == m.len,
        after.phase is Dead || match m.phase {
            Phase::Try { .. } => after.phase is Try,
            Phase::Promise { .. } => after.phase is Promise,
            _ => after.phase == m.phase,
        },
        after.phase is Dead ==> ended,
        ended ==> if id_q.is_real() {
            (m.phase is Try || m.phase is Fulfill) && op is Some
        } else {
            m.phase.fired_by(id_q)
        },
        match m.phase {
            Phase::Try { .. } => op is Some <==> m.visits(m.index as int) && id_q.is_real(),
            Phase::Promise { .. } => op is Some <==> m.visits(m.index as int) && id_q.is_real(),
            Phase::Revoke { case_id: selected } => op is Some <==> m.visits(m.index as int)
                && id_q.is_real() && id_q != selected,
            Phase::Fulfill { case_id: selected } => op is Some <==> m.visits(m.index as int)
                && id_q.is_real() && id_q == selected,
            _ => op is None,
        },
        op matches Some(o) ==> m.awaits(o) || (m.phase is Revoke && o.is_revoke()),
    ensures
        tallied(after, id_p, p, tally.with_op(op, q == p)),
{
    if p == q {
        assert(m.visits(m.index as int) <==> m.index == m.slot_of(p));
        assert(m.unvisited(p) && !after.unvisited(p) <==> m.index == m.slot_of(p));
    } else {
        assert(m.slot_of(p) != m.index);
        assert(m.unvisited(p) == after.unvisited(p));
    }
}

} // verus!
