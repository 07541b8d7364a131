//! The driver of a selection over channels.
//!
//! The channels and the handle are whatever the caller brings: nothing is
//! known of how they behave, and what is proved here holds of all of them.

use vstd::prelude::*;
use crate::case_id::CaseId;
use crate::channel::{Receiver, Sender, TryRecvError, TrySendError};
use crate::handle::Handle;
use crate::model::Model;
use crate::protocol::{Answer, Attempt, Op, Request, State, MAX_CASES};
use crate::selection::{lemma_extended_is_valid, lemma_serve_keeps_wf, Selection, Turn};
use crate::sequencer::Sequencer;

verus! {

/// The driver of one selection, with the handle of the thread that runs it.
///
/// The caller goes through its cases in a fixed order, again and again, with
/// one call for each, and leaves the loop when a call commits: when
/// [`Machine::send`] or [`Machine::recv`] returns `Ok`, or one of
/// [`Machine::disconnected`], [`Machine::would_block`] and
/// [`Machine::timed_out`] returns `true`. After that the selection is spent.
///
/// The view of a driver is the selection so far: its deadline and the turns
/// taken, each with what the channel and the handle did in it. Every law of
/// [`crate::selection`], [`crate::rotation`] and [`crate::tally`] holds of it.
pub struct Machine<'a, H: Handle> {
    sequencer: Sequencer,
    handle: &'a H,
    turns: Ghost<Seq<Turn>>,
}

impl<'a, H: Handle> View for Machine<'a, H> {
    type V = Selection;

    closed spec fn view(&self) -> Selection {
        Selection { deadline: self.sequencer@.deadline, turns: self.turns@ }
    }
}

/// What one more turn does to a selection whose driver is in the state that
/// its turns led to.
proof fn lemma_turn_taken(s: Selection, turn: Turn)
    requires
        s.valid(),
        s.state().wf(),
        s.state().deadline == s.deadline,
        s.state().admits(turn),
    ensures
        s.extended(turn).valid(),
        s.extended(turn).state() == s.state().serve(turn).after,
        s.extended(turn).state().wf(),
        s.extended(turn).state().pending is None,
        s.extended(turn).state().deadline == s.deadline,
{
    lemma_extended_is_valid(s, turn);
    lemma_serve_keeps_wf(s.state(), turn);
}

impl<'a, H: Handle> Machine<'a, H> {
    /// The state of the driver.
    pub closed spec fn model(&self) -> Model {
        self.sequencer@
    }

    /// The invariant of a driver: the turns so far were calls that it admits,
    /// it is in the state that they led to, and between calls no operation
    /// waits for its report.
    pub open spec fn wf(&self) -> bool {
        &&& self@.valid()
        &&& self.model() == self@.state()
        &&& self.model().wf()
        &&& self.model().pending is None
        &&& self.model().deadline == self@.deadline
    }

    /// Whether the driver can take another call: the selection is not spent,
    /// and a case that would be counted still fits.
    pub open spec fn live(&self) -> bool {
        !(self@.state().phase is Dead) && (self@.state().phase is Count ==> self@.state().len
            < MAX_CASES)
    }

    /// A driver without a deadline, for the thread with the handle `handle`.
    pub fn new(handle: &'a H) -> (machine: Self)
        ensures
            machine.wf(),
            machine@ == Selection::start(None),
    {
        Machine { sequencer: Sequencer::new(), handle, turns: Ghost(Seq::empty()) }
    }

    /// A driver that gives up once the clock of `handle` shows `deadline` or
    /// later.
    pub fn with_deadline(handle: &'a H, deadline: Option<u64>) -> (machine: Self)
        ensures
            machine.wf(),
            machine@ == Selection::start(deadline),
    {
        Machine { sequencer: Sequencer::with_deadline(deadline), handle, turns: Ghost(Seq::empty()) }
    }

    /// Whether the selection is spent.
    pub fn is_dead(&self) -> (b: bool)
        requires
            self.wf(),
        ensures
            b == (self@.state().phase is Dead),
    {
        self.sequencer.is_dead()
    }

    /// Whether the driver can take another call.
    pub fn is_live(&self) -> (b: bool)
        requires
            self.wf(),
        ensures
            b == self.live(),
    {
        match self.sequencer.state() {
            State::Dead => false,
            State::Count => self.sequencer.len() < MAX_CASES,
            _ => true,
        }
    }

    /// The sequencer of the driver, to look at.
    pub fn sequencer(&self) -> (sequencer: &Sequencer)
        requires
            self.wf(),
        ensures
            sequencer.wf(),
            sequencer@ == self@.state(),
    {
        &self.sequencer
    }

    /// Does the work that the driver asks for before it steps on `case_id`,
    /// and brings back the answer.
    fn answer(&self, case_id: CaseId) -> (answer: Answer)
        requires
            self.wf(),
        ensures
            self@.state().request(case_id).admits(answer),
    {
        match self.sequencer.request(case_id) {
            Request::Nothing => Answer::Nothing,
            Request::Draw => Answer::Drawn { random: self.handle.random() },
            Request::Reset => {
                self.handle.reset();
                Answer::Nothing
            },
            Request::Abort => {
                self.handle.try_select(CaseId::abort());
                Answer::Selected { case_id: self.handle.selected() }
            },
            Request::Park { deadline } => {
                self.handle.wait_until(deadline);
                Answer::Selected { case_id: self.handle.selected() }
            },
            Request::Clock => Answer::Clock { now: self.handle.now(), random: self.handle.random() },
        }
    }

    /// Takes one step on `case_id`, after the outside work that the step
    /// calls for, and tells whether the case is to be visited. No operation is
    /// performed on any channel, and the step does not end the selection.
    pub fn step(&mut self, case_id: CaseId) -> (visit: bool)
        requires
            old(self).wf(),
            old(self).live(),
        ensures
            final(self).wf(),
            !(final(self)@.state().phase is Dead),
            exists|turn: Turn|
                {
                    &&& turn.case_id == case_id
                    &&& turn.bare
                    &&& old(self)@.state().admits(turn)
                    &&& final(self)@ == #[trigger] old(self)@.extended(turn)
                    &&& visit == old(self)@.state().step(case_id, turn.answer).1
                },
    {
        let answer = self.answer(case_id);
        let ghost before = self@;
        let ghost turn = Turn {
            case_id,
            bare: true,
            answer,
            attempt: Attempt::NotReady,
            is_disconnected: false,
            ready: false,
            done: false,
        };
        let visit = self.sequencer.step(case_id, answer);
        proof {
            assert(self.sequencer@ == before.state().serve(turn).after);
            lemma_turn_taken(before, turn);
        }
        self.turns = Ghost(before.turns.push(turn));
        visit
    }

    /// Takes the turn of a send of `msg` on `tx`. `Ok` says that the message
    /// was sent and the selection is over; `Err` gives the message back.
    ///
    /// Whatever the channel and the handle do, the call is one turn of the
    /// driver for a send: the selection ends exactly if the call commits, and
    /// the message comes back as it was unless the channel was asked to send
    /// it.
    pub fn send<T, S: Sender<T>>(&mut self, tx: &S, msg: T) -> (r: Result<(), T>)
        requires
            old(self).wf(),
            old(self).live(),
        ensures
            final(self).wf(),
            r is Ok <==> final(self)@.state().phase is Dead,
            exists|turn: Turn|
                {
                    let served = #[trigger] old(self)@.state().serve(turn);
                    &&& turn.case_id is Send
                    &&& !turn.bare
                    &&& old(self)@.state().admits(turn)
                    &&& final(self)@ == old(self)@.extended(turn)
                    &&& r is Ok <==> served.ended
                    &&& !(served.op == Some(Op::TrySend) || served.op == Some(Op::FulfillSend))
                        ==> r == Err::<(), T>(msg)
                },
    {
        let endpoint = tx.endpoint();
        let answer = self.answer(CaseId::send(endpoint));
        let ghost before = self@;
        let op = self.sequencer.send(endpoint, answer);
        let ghost mut turn = Turn {
            case_id: CaseId::Send(endpoint),
            bare: false,
            answer,
            attempt: Attempt::NotReady,
            is_disconnected: false,
            ready: false,
            done: false,
        };
        let r = match op {
            Some(Op::TrySend) => match tx.try_send(msg) {
                Ok(()) => {
                    proof {
                        turn = Turn { attempt: Attempt::Done, ..turn };
                    }
                    self.sequencer.tried(Attempt::Done);
                    Ok(())
                },
                Err(TrySendError::Full(msg)) => {
                    self.sequencer.tried(Attempt::NotReady);
                    Err(msg)
                },
                Err(TrySendError::Disconnected(msg)) => {
                    proof {
                        turn = Turn { attempt: Attempt::Disconnected, ..turn };
                    }
                    self.sequencer.tried(Attempt::Disconnected);
                    Err(msg)
                },
            },
            Some(Op::PromiseSend) => {
                tx.promise_send();
                let is_disconnected = tx.is_disconnected();
                let ready = !is_disconnected && tx.can_send();
                proof {
                    turn = Turn { is_disconnected, ready, ..turn };
                }
                if self.sequencer.promised(is_disconnected, ready) {
                    self.handle.try_select(CaseId::abort());
                }
                Err(msg)
            },
            Some(Op::RevokeSend) => {
                tx.revoke_send();
                Err(msg)
            },
            Some(Op::FulfillSend) => match tx.fulfill_send(msg) {
                Ok(()) => {
                    proof {
                        turn = Turn { done: true, ..turn };
                    }
                    self.sequencer.fulfilled(true);
                    Ok(())
                },
                Err(msg) => {
                    self.sequencer.fulfilled(false);
                    Err(msg)
                },
            },
            _ => Err(msg),
        };
        proof {
            assert(self.sequencer@ == before.state().serve(turn).after);
            lemma_turn_taken(before, turn);
        }
        self.turns = Ghost(before.turns.push(turn));
        r
    }

    /// Takes the turn of a receive on `rx`. `Ok` brings the message that was
    /// received and says that the selection is over.
    ///
    /// Whatever the channel and the handle do, the call is one turn of the
    /// driver for a receive: the selection ends exactly if the call commits.
    pub fn recv<T, R: Receiver<T>>(&mut self, rx: &R) -> (r: Result<T, ()>)
        requires
            old(self).wf(),
            old(self).live(),
        ensures
            final(self).wf(),
            r is Ok <==> final(self)@.state().phase is Dead,
            exists|turn: Turn|
                {
                    let served = #[trigger] old(self)@.state().serve(turn);
                    &&& turn.case_id is Recv
                    &&& !turn.bare
                    &&& old(self)@.state().admits(turn)
                    &&& final(self)@ == old(self)@.extended(turn)
                    &&& r is Ok <==> served.ended
                },
    {
        let endpoint = rx.endpoint();
        let answer = self.answer(CaseId::recv(endpoint));
        let ghost before = self@;
        let op = self.sequencer.recv(endpoint, answer);
        let ghost mut turn = Turn {
            case_id: CaseId::Recv(endpoint),
            bare: false,
            answer,
            attempt: Attempt::NotReady,
            is_disconnected: false,
            ready: false,
            done: false,
        };
        let r = match op {
            Some(Op::TryRecv) => match rx.try_recv() {
                Ok(msg) => {
                    proof {
                        turn = Turn { attempt: Attempt::Done, ..turn };
                    }
                    self.sequencer.tried(Attempt::Done);
                    Ok(msg)
                },
                Err(TryRecvError::Empty) => {
                    self.sequencer.tried(Attempt::NotReady);
                    Err(())
                },
                Err(TryRecvError::Disconnected) => {
                    proof {
                        turn = Turn { attempt: Attempt::Disconnected, ..turn };
                    }
                    self.sequencer.tried(Attempt::Disconnected);
                    Err(())
                },
            },
            Some(Op::PromiseRecv) => {
                rx.promise_recv();
                let is_disconnected = rx.is_disconnected();
                let ready = rx.can_recv();
                proof {
                    turn = Turn { is_disconnected, ready, ..turn };
                }
                if self.sequencer.promised(is_disconnected, ready) {
                    self.handle.try_select(CaseId::abort());
                }
                Err(())
            },
            Some(Op::RevokeRecv) => {
                rx.revoke_recv();
                Err(())
            },
            Some(Op::FulfillRecv) => match rx.fulfill_recv() {
                Ok(msg) => {
                    proof {
                        turn = Turn { done: true, ..turn };
                    }
                    self.sequencer.fulfilled(true);
                    Ok(msg)
                },
                Err(_) => {
                    self.sequencer.fulfilled(false);
                    Err(())
                },
            },
            _ => Err(()),
        };
        proof {
            assert(self.sequencer@ == before.state().serve(turn).after);
            lemma_turn_taken(before, turn);
        }
        self.turns = Ghost(before.turns.push(turn));
        r
    }

    /// Takes the turn of a reserved case with the answer to its request.
    fn settle(&mut self, case_id: CaseId) -> (fired: bool)
        requires
            old(self).wf(),
            old(self).live(),
            case_id == CaseId::Disconnected || case_id == CaseId::WouldBlock || case_id
                == CaseId::TimedOut,
        ensures
            final(self).wf(),
            fired <==> final(self)@.state().phase is Dead,
            exists|turn: Turn|
                {
                    let served = #[trigger] old(self)@.state().serve(turn);
                    &&& turn.case_id == case_id
                    &&& !turn.bare
                    &&& old(self)@.state().admits(turn)
                    &&& final(self)@ == old(self)@.extended(turn)
                    &&& fired == served.ended
                },
    {
        let answer = self.answer(case_id);
        let ghost before = self@;
        let ghost turn = Turn {
            case_id,
            bare: false,
            answer,
            attempt: Attempt::NotReady,
            is_disconnected: false,
            ready: false,
            done: false,
        };
        let fired = match case_id {
            CaseId::Disconnected => self.sequencer.disconnected(answer),
            CaseId::WouldBlock => self.sequencer.would_block(answer),
            _ => self.sequencer.timed_out(answer),
        };
        proof {
            assert(self.sequencer@ == before.state().serve(turn).after);
            lemma_turn_taken(before, turn);
        }
        self.turns = Ghost(before.turns.push(turn));
        fired
    }

    /// Takes the turn of the case for "every channel is disconnected", and
    /// tells whether the selection ends with it.
    pub fn disconnected(&mut self) -> (fired: bool)
        requires
            old(self).wf(),
            old(self).live(),
        ensures
            final(self).wf(),
            fired <==> final(self)@.state().phase is Dead,
            exists|turn: Turn|
                {
                    let served = #[trigger] old(self)@.state().serve(turn);
                    &&& turn.case_id == CaseId::Disconnected
                    &&& !turn.bare
                    &&& old(self)@.state().admits(turn)
                    &&& final(self)@ == old(self)@.extended(turn)
                    &&& fired == served.ended
                },
    {
        self.settle(CaseId::disconnected())
    }

    /// Takes the turn of the case for "no operation is ready", and tells
    /// whether the selection ends with it.
    pub fn would_block(&mut self) -> (fired: bool)
        requires
            old(self).wf(),
            old(self).live(),
        ensures
            final(self).wf(),
            fired <==> final(self)@.state().phase is Dead,
            exists|turn: Turn|
                {
                    let served = #[trigger] old(self)@.state().serve(turn);
                    &&& turn.case_id == CaseId::WouldBlock
                    &&& !turn.bare
                    &&& old(self)@.state().admits(turn)
                    &&& final(self)@ == old(self)@.extended(turn)
                    &&& fired == served.ended
                },
    {
        self.settle(CaseId::would_block())
    }

    /// Takes the turn of the case for "the deadline has passed", and tells
    /// whether the selection ends with it.
    pub fn timed_out(&mut self) -> (fired: bool)
        requires
            old(self).wf(),
            old(self).live(),
        ensures
            final(self).wf(),
            fired <==> final(self)@.state().phase is Dead,
            exists|turn: Turn|
                {
                    let served = #[trigger] old(self)@.state().serve(turn);
                    &&& turn.case_id == CaseId::TimedOut
                    &&& !turn.bare
                    &&& old(self)@.state().admits(turn)
                    &&& final(self)@ == old(self)@.extended(turn)
                    &&& fired == served.ended
                },
    {
        self.settle(CaseId::timed_out())
    }
}

} // verus!
