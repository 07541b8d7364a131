//! How the driver keeps step with its caller: the count, the slots of a phase
//! and the positions of the caller's list, and the draw that starts the
//! rotation.

use vstd::prelude::*;
use crate::case_id::CaseId;
use crate::model::Model;
use crate::protocol::Phase;
use crate::selection::{lemma_selection_keeps_wf, lemma_valid_to_earlier, Selection, Turn};

verus! {

impl Model {
    /// The slot at which a phase visits the case at position `p` of the
    /// caller's list.
    pub open spec fn slot_of(self, p: int) -> int {
        if p >= self.start_index {
            p
        } else {
            p + self.len
        }
    }

    /// Whether the current phase has yet to visit the case at position `p`.
    pub open spec fn unvisited(self, p: int) -> bool {
        self.slot_of(p) >= self.index
    }
}

/// Whether every case of `cases` is one that a caller can declare: an
/// operation on a channel, or one of the three reserved cases that can fire.
pub open spec fn declared(cases: Seq<CaseId>) -> bool {
    forall|j: int|
        0 <= j < cases.len() ==> #[trigger] cases[j] != CaseId::Unset && cases[j] != CaseId::Abort
}

/// Whether `case_id` is among the first `t` cases of `cases`.
pub open spec fn among_first(cases: Seq<CaseId>, t: int, case_id: CaseId) -> bool {
    exists|j: int| 0 <= j < t && #[trigger] cases[j] == case_id
}

impl Selection {
    /// Whether the caller keeps to its part with the list `cases`: the list
    /// holds at least one case and no identifier twice, and the turns are
    /// calls for its cases in its order, again and again.
    pub open spec fn follows(self, cases: Seq<CaseId>) -> bool {
        &&& cases.len() >= 1
        &&& cases.no_duplicates()
        &&& forall|t: int|
            0 <= t < self.turns.len() ==> {
                &&& (#[trigger] self.turns[t]).case_id == cases[t % (cases.len() as int)]
                &&& !self.turns[t].bare
            }
    }

    /// The position at which the first attempt phase starts its visits, for
    /// a caller with `n` cases: the number drawn at the end of the count,
    /// taken modulo `n`.
    pub open spec fn first_start(self, n: int) -> int {
        (self.turns[n].answer.random() as int) % n
    }
}

/// Whether the driver in state `m` stands where a caller with `n` cases of
/// which the first is `first` expects it, when the next turn is for the case at
/// position `q`: while it counts it has counted the cases before `q`, and
/// afterwards its next slot is one of the two slots of `q`.
pub open spec fn in_step(m: Model, n: int, first: CaseId, q: int) -> bool {
    &&& m.len >= 1 ==> m.first_id == first
    &&& m.phase is Count ==> m.len <= n && (m.len < n ==> q == m.len) && (m.len == n ==> q == 0)
    &&& !(m.phase is Count) && !(m.phase is Dead) ==> {
        &&& m.len == n
        &&& m.index == q || m.index == q + n || m.index == q + 2 * n
    }
}

/// The window of a phase is a rotation of the caller's list: of the two
/// slots of each position exactly one visits, and the visits go through the
/// positions in the caller's order, starting at `start_index` and wrapping
/// round at the end of the list.
pub proof fn lemma_window_is_a_rotation(m: Model, p: int, k: int)
    requires
        m.wf(),
        !(m.phase is Count),
        !(m.phase is Dead),
        0 <= p < m.len,
        0 <= k < m.len,
    ensures
        m.visits(p) != m.visits(p + m.len),
        m.slot_of(p) == p || m.slot_of(p) == p + m.len,
        m.visits(m.slot_of(p)),
        0 <= m.slot_of(p) < 2 * m.len,
        m.visits(m.start_index + k),
        m.slot_of(
            if m.start_index + k < m.len {
                m.start_index + k
            } else {
                m.start_index + k - m.len
            },
        ) == m.start_index + k,
{
}

/// What a turn in the middle of a phase comes to: it takes one slot and
/// leaves the rotation alone, and it performs the operation of its phase if
/// the slot visits a real case: an attempt, a registration, a withdrawal
/// unless the case was selected, or a completion if it was.
pub proof fn lemma_turn_within_phase(m: Model, turn: Turn)
    requires
        m.wf(),
        m.pending is None,
        !(m.phase is Count),
        !(m.phase is Dead),
        !m.at_boundary(),
    ensures
        ({
            let served = m.serve(turn);
            let visit = m.visits(m.index as int) && turn.case_id.is_real() && !turn.bare;
            &&& served.after.index == m.index + 1
            &&& served.after.start_index == m.start_index
            &&& served.after.len == m.len
            &&& served.after.first_id == m.first_id
            &&& served.after.phase is Dead || match m.phase {
                Phase::Try { .. } => served.after.phase is Try,
                Phase::Promise { .. } => served.after.phase is Promise,
                _ => served.after.phase == m.phase,
            }
            &&& served.after.phase is Dead ==> served.ended
            &&& served.ended ==> !turn.bare && if turn.case_id.is_real() {
                (m.phase is Try || m.phase is Fulfill) && served.op is Some
            } else {
                m.phase.fired_by(turn.case_id)
            }
            &&& match m.phase {
                Phase::Try { .. } => served.op is Some <==> visit,
                Phase::Promise { .. } => served.op is Some <==> visit,
                Phase::Revoke { case_id: selected } => served.op is Some <==> visit
                    && turn.case_id != selected,
                Phase::Fulfill { case_id: selected } => served.op is Some <==> visit
                    && turn.case_id == selected,
                _ => served.op is None,
            }
            &&& served.op matches Some(op) ==> m.awaits(op) || (m.phase is Revoke
                && op.is_revoke())
        }),
{
    assert(m.prepare(turn.answer) == m);
    assert(!m.counts(turn.case_id));
}

/// Throughout a selection with a caller that keeps to its part, the driver is
/// in step with the caller: it counts every case once, and from then on slot
/// and position go together.
pub proof fn lemma_selection_in_step(s: Selection, cases: Seq<CaseId>, t: int)
    requires
        s.follows(cases),
        s.valid_to(t),
        0 <= t <= s.turns.len(),
    ensures
        in_step(s.state_at(t), cases.len() as int, cases[0], t % (cases.len() as int)),
    decreases t,
{
    let n = cases.len() as int;
    if t > 0 {
        let m = s.state_at(t - 1);
        let q = (t - 1) % n;
        let turn = s.turns[t - 1];
        lemma_selection_in_step(s, cases, t - 1);
        lemma_selection_keeps_wf(s, t - 1);
        lemma_next_position(t - 1, n);
        assert(turn.case_id == cases[q]);
        if m.counts(turn.case_id) {
        } else {
            lemma_turn_from_prepared(m, turn);
            let r = m.prepare(turn.answer);
            if m.phase is Count {
                assert(m.first_id == cases[q]);
                assert(q == 0);
            }
            lemma_turn_within_phase(r, turn);
        }
    } else {
        assert(0int % n == 0) by {
            lemma_next_position(0, n);
        }
    }
}

/// While a caller that keeps to its part goes through its list for the first
/// time the driver counts: after `t` turns it has counted `t` cases.
pub proof fn lemma_counted_all(s: Selection, cases: Seq<CaseId>, t: int)
    requires
        s.follows(cases),
        0 <= t <= cases.len(),
        t <= s.turns.len(),
        s.valid_to(t),
    ensures
        s.state_at(t).phase is Count,
        s.state_at(t).len == t,
    decreases t,
{
    let n = cases.len() as int;
    if t > 0 {
        lemma_counted_all(s, cases, t - 1);
        lemma_selection_in_step(s, cases, t - 1);
        lemma_selection_keeps_wf(s, t - 1);
        assert((t - 1) % n == t - 1) by {
            vstd::arithmetic::div_mod::lemma_fundamental_div_mod_converse(t - 1, n, 0, t - 1);
        }
        let m = s.state_at(t - 1);
        assert(s.turns[t - 1].case_id == cases[t - 1]);
        assert(m.counts(cases[t - 1]));
    }
}

/// The classes add up: while a caller that keeps to its part goes through
/// declared cases for the first time, every case counted so far fell into
/// exactly one class, and each reserved case is noted as present exactly if
/// it was among them.
pub proof fn lemma_classes_add_up(s: Selection, cases: Seq<CaseId>, t: int)
    requires
        s.follows(cases),
        declared(cases),
        0 <= t <= cases.len(),
        t <= s.turns.len(),
        s.valid_to(t),
    ensures
        s.state_at(t).classified_count() == t,
        s.state_at(t).len == t,
        s.state_at(t).has_disconnected_case == among_first(cases, t, CaseId::Disconnected),
        s.state_at(t).has_would_block_case == among_first(cases, t, CaseId::WouldBlock),
        s.state_at(t).has_timed_out_case == among_first(cases, t, CaseId::TimedOut),
    decreases t,
{
    let n = cases.len() as int;
    if t > 0 {
        lemma_classes_add_up(s, cases, t - 1);
        lemma_counted_all(s, cases, t - 1);
        lemma_counted_all(s, cases, t);
        lemma_selection_in_step(s, cases, t - 1);
        lemma_selection_keeps_wf(s, t - 1);
        assert((t - 1) % n == t - 1) by {
            vstd::arithmetic::div_mod::lemma_fundamental_div_mod_converse(t - 1, n, 0, t - 1);
        }
        let m = s.state_at(t - 1);
        let case_id = cases[t - 1];
        assert(s.turns[t - 1].case_id == case_id);
        assert(m.counts(case_id));
        assert(s.state_at(t) == m.count(case_id));
        assert(!among_first(cases, t - 1, case_id));
        assert forall|id: CaseId| among_first(cases, t, id) == (among_first(cases, t - 1, id)
            || id == case_id) by {
            if among_first(cases, t - 1, id) {
                let j = choose|j: int| 0 <= j < t - 1 && #[trigger] cases[j] == id;
                assert(0 <= j < t && cases[j] == id);
            }
            if id == case_id {
                assert(cases[t - 1] == id);
            }
        }
    }
}

/// The draw picks the case: in a selection with a caller that keeps to its
/// part, the first case on which anything is attempted is the one at the
/// position that the draw gives, whatever the other cases are. If that case
/// is a real one, it is attempted; and if the attempt succeeds, the selection
/// commits to it.
///
/// So where every case is ready, each is committed to as often as the draw
/// gives its position.
pub proof fn lemma_draw_picks_first_attempt(s: Selection, cases: Seq<CaseId>, j: int)
    requires
        s.follows(cases),
        0 <= j <= s.first_start(cases.len() as int),
        cases.len() + j < s.turns.len(),
        s.valid_to(cases.len() + j + 1),
    ensures
        ({
            let n = cases.len() as int;
            let served = s.served(n + j);
            &&& 0 <= s.first_start(n) < n
            &&& s.turns[n + j].case_id == cases[j]
            &&& j < s.first_start(n) ==> served.op is None && !served.ended
            &&& j == s.first_start(n) && cases[j].is_real() ==> {
                &&& served.op matches Some(op) && op.is_try()
                &&& served.ended <==> s.turns[n + j].attempt is Done
            }
            &&& !served.ended ==> {
                &&& served.after.phase is Try
                &&& served.after.index == j + 1
                &&& served.after.start_index == s.first_start(n)
            }
        }),
    decreases j,
{
    let n = cases.len() as int;
    let t = n + j;
    let m = s.state_at(t);
    let turn = s.turns[t];
    lemma_next_position(s.turns[n].answer.random() as int, n);
    assert(t % n == j) by {
        vstd::arithmetic::div_mod::lemma_fundamental_div_mod_converse(t, n, 1, j);
    }
    assert(turn.case_id == cases[j]);
    lemma_valid_to_earlier(s, t + 1, t);
    lemma_selection_keeps_wf(s, t);
    lemma_selection_in_step(s, cases, t);
    if j == 0 {
        lemma_counted_all(s, cases, n);
        assert(!m.counts(cases[0]));
        lemma_turn_from_prepared(m, turn);
        lemma_turn_within_phase(m.prepare(turn.answer), turn);
    } else {
        lemma_draw_picks_first_attempt(s, cases, j - 1);
        assert(s.state_at(t) == s.served(t - 1).after);
        lemma_turn_within_phase(m, turn);
    }
}

/// Where a step counts no case, the turn goes as it would from the state in
/// which the step takes its slot.
pub proof fn lemma_turn_from_prepared(m: Model, turn: Turn)
    requires
        m.wf(),
        m.admits(turn),
        !m.counts(turn.case_id),
    ensures
        m.serve(turn) == m.prepare(turn.answer).serve(turn),
        m.prepare(turn.answer).wf(),
        m.prepare(turn.answer).pending is None,
        !(m.prepare(turn.answer).phase is Count),
        !(m.prepare(turn.answer).phase is Dead),
        !m.prepare(turn.answer).at_boundary(),
{
    let r = m.prepare(turn.answer);
    assert(r.prepare(turn.answer) == r);
    assert(!r.counts(turn.case_id));
    assert(m.step(turn.case_id, turn.answer) == r.step(turn.case_id, turn.answer));
}

/// The position that follows position `t % n` in a list of `n` cases is
/// `(t + 1) % n`.
pub proof fn lemma_next_position(t: int, n: int)
    requires
        0 <= t,
        0 < n,
    ensures
        0 <= t % n < n,
        (t + 1) % n == if t % n + 1 == n {
            0
        } else {
            t % n + 1
        },
{
    vstd::arithmetic::div_mod::lemma_fundamental_div_mod(t, n);
    vstd::arithmetic::div_mod::lemma_mod_pos_bound(t, n);
    let d = t / n;
    let r = t % n;
    if r + 1 == n {
        assert(t + 1 == (d + 1) * n + 0) by (nonlinear_arith)
            requires
                t == n * d + r,
                r + 1 == n,
        ;
        vstd::arithmetic::div_mod::lemma_fundamental_div_mod_converse(t + 1, n, d + 1, 0);
    } else {
        assert(t + 1 == d * n + (r + 1)) by (nonlinear_arith)
            requires
                t == n * d + r,
        ;
        vstd::arithmetic::div_mod::lemma_fundamental_div_mod_converse(t + 1, n, d, r + 1);
    }
}

} // verus!
