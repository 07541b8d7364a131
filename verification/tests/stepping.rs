//! The sequencer call by call: identifiers, counting, requests, the rotation and
//! the reports.

use select_driver::case_id::CaseId;
use select_driver::sequencer::Sequencer;
use select_driver::protocol::{Answer, Attempt, Op, Request, State, MAX_CASES};

/// Counts the cases of `cases` with bare steps.
fn counted(deadline: Option<u64>, cases: &[CaseId]) -> Sequencer {
    let mut machine = Sequencer::with_deadline(deadline);
    for &case_id in cases {
        assert_eq!(machine.request(case_id), Request::Nothing);
        assert!(machine.accepts(case_id, Answer::Nothing));
        assert!(!machine.step(case_id, Answer::Nothing));
    }
    machine
}

/// Takes `slots` bare steps in the middle of a phase and says which of them
/// visit.
fn visits(machine: &mut Sequencer, case_id: CaseId, slots: usize) -> Vec<bool> {
    let mut seen = Vec::new();
    for _ in 0..slots {
        assert_eq!(machine.request(case_id), Request::Nothing);
        seen.push(machine.step(case_id, Answer::Nothing));
    }
    seen
}

#[test]
fn reserved_identifiers_are_distinct_and_not_real() {
    let reserved = [
        CaseId::none(),
        CaseId::disconnected(),
        CaseId::would_block(),
        CaseId::timed_out(),
        CaseId::abort(),
    ];
    for (i, a) in reserved.iter().enumerate() {
        assert!(!a.is_send());
        assert!(!a.is_recv());
        for (j, b) in reserved.iter().enumerate() {
            assert_eq!(a == b, i == j);
        }
        for endpoint in [0usize, 1, 4, usize::MAX] {
            assert_ne!(*a, CaseId::send(endpoint));
            assert_ne!(*a, CaseId::recv(endpoint));
        }
    }
}

#[test]
fn real_identifiers_carry_their_class_and_endpoint() {
    let tx = CaseId::send(17);
    let rx = CaseId::recv(17);
    assert!(tx.is_send() && !tx.is_recv());
    assert!(rx.is_recv() && !rx.is_send());
    assert_ne!(tx, rx);
    assert_eq!(tx, CaseId::send(17));
    assert_eq!(rx, CaseId::recv(17));
    assert_ne!(tx, CaseId::send(18));
    assert_ne!(rx, CaseId::recv(18));
    assert_eq!(tx, CaseId::Send(17));
    assert_eq!(CaseId::none(), CaseId::Unset);
}

#[test]
fn new_sequencer_counts_and_holds_nothing() {
    let machine = Sequencer::new();
    assert_eq!(machine.state(), State::Count);
    assert_eq!(machine.index(), 0);
    assert_eq!(machine.start_index(), 0);
    assert_eq!(machine.first_id(), CaseId::none());
    assert_eq!(machine.deadline(), None);
    assert_eq!(machine.len(), 0);
    assert_eq!(machine.send_case_count(), 0);
    assert_eq!(machine.recv_case_count(), 0);
    assert!(!machine.has_disconnected_case());
    assert!(!machine.has_would_block_case());
    assert!(!machine.has_timed_out_case());
    assert_eq!(machine.pending(), None);
    assert!(!machine.is_dead());
    assert_eq!(Sequencer::with_deadline(Some(9)).deadline(), Some(9));
    assert_eq!(Sequencer::with_deadline(None).deadline(), None);
}

#[test]
fn counting_classifies_each_case() {
    let cases = [
        CaseId::send(1),
        CaseId::recv(2),
        CaseId::send(3),
        CaseId::disconnected(),
        CaseId::would_block(),
        CaseId::timed_out(),
    ];
    let machine = counted(None, &cases);
    assert_eq!(machine.state(), State::Count);
    assert_eq!(machine.len(), 6);
    assert_eq!(machine.index(), 6);
    assert_eq!(machine.first_id(), CaseId::send(1));
    assert_eq!(machine.send_case_count(), 2);
    assert_eq!(machine.recv_case_count(), 1);
    assert!(machine.has_disconnected_case());
    assert!(machine.has_would_block_case());
    assert!(machine.has_timed_out_case());
    // Every counted case fell into one class: the classes add up to the length.
    assert_eq!(
        machine.send_case_count() + machine.recv_case_count() + 3,
        machine.len()
    );
}

#[test]
fn repeated_and_unclassified_cases_count_towards_the_length_only() {
    let cases = [
        CaseId::recv(1),
        CaseId::would_block(),
        CaseId::would_block(),
        CaseId::abort(),
        CaseId::none(),
    ];
    let machine = counted(None, &cases);
    assert_eq!(machine.len(), 5);
    assert_eq!(machine.send_case_count(), 0);
    assert_eq!(machine.recv_case_count(), 1);
    assert!(machine.has_would_block_case());
    assert!(!machine.has_disconnected_case());
    assert!(!machine.has_timed_out_case());
    assert!(machine.send_case_count() + machine.recv_case_count() + 1 < machine.len());
}

#[test]
fn first_case_is_counted_even_if_it_is_the_unset_identifier() {
    let mut machine = Sequencer::new();
    assert_eq!(machine.request(CaseId::none()), Request::Nothing);
    assert!(!machine.step(CaseId::none(), Answer::Nothing));
    assert_eq!(machine.len(), 1);
    assert_eq!(machine.state(), State::Count);
    // The second time round it closes the count.
    assert_eq!(machine.request(CaseId::none()), Request::Draw);
    assert!(machine.step(CaseId::none(), Answer::Drawn { random: 8 }));
    assert_eq!(machine.state(), State::Try { disconnected_count: 0 });
    assert_eq!(machine.len(), 1);
}

#[test]
fn rotation_starts_at_the_draw_modulo_the_length() {
    let cases = [CaseId::send(0), CaseId::send(1), CaseId::send(2), CaseId::send(3)];
    for (random, start) in [(0usize, 0usize), (1, 1), (2, 2), (3, 3), (4, 0), (10, 2), (4_000_003, 3)] {
        let mut machine = counted(None, &cases);
        assert_eq!(machine.request(cases[0]), Request::Draw);
        let first = machine.step(cases[0], Answer::Drawn { random });
        assert_eq!(machine.state(), State::Try { disconnected_count: 0 });
        assert_eq!(machine.start_index(), start);
        assert_eq!(machine.index(), 1);
        let mut seen = vec![first];
        seen.extend(visits(&mut machine, cases[1], 7));
        let expected: Vec<bool> = (0..8).map(|slot| start <= slot && slot < start + 4).collect();
        assert_eq!(seen, expected);
        assert_eq!(seen.iter().filter(|&&v| v).count(), 4);
        assert_eq!(machine.index(), 8);
    }
}

#[test]
fn answers_must_be_of_the_kind_that_was_asked_for() {
    let cases = [CaseId::recv(0), CaseId::timed_out()];
    let mut machine = counted(Some(100), &cases);
    // The count closes with a draw.
    assert_eq!(machine.request(cases[0]), Request::Draw);
    assert!(!machine.accepts(cases[0], Answer::Nothing));
    assert!(!machine.accepts(cases[0], Answer::Selected { case_id: CaseId::abort() }));
    assert!(!machine.accepts(cases[0], Answer::Clock { now: 1, random: 1 }));
    assert!(machine.accepts(cases[0], Answer::Drawn { random: 0 }));
    // A case that is still to be counted asks for nothing.
    assert_eq!(machine.request(CaseId::recv(5)), Request::Nothing);
    assert!(machine.accepts(CaseId::recv(5), Answer::Nothing));
    assert!(!machine.accepts(CaseId::recv(5), Answer::Drawn { random: 0 }));

    assert_eq!(machine.recv(0, Answer::Drawn { random: 0 }), Some(Op::TryRecv));
    // No step while a report is due.
    assert_eq!(machine.pending(), Some(Op::TryRecv));
    assert!(!machine.accepts(cases[1], Answer::Nothing));
    assert!(!machine.tried(Attempt::NotReady));
    assert_eq!(machine.pending(), None);
    assert!(machine.accepts(cases[1], Answer::Nothing));
    assert_eq!(visits(&mut machine, cases[1], 3), vec![true, false, false]);

    // The attempts are over: the cell is to be cleared.
    assert_eq!(machine.request(cases[0]), Request::Reset);
    assert!(machine.accepts(cases[0], Answer::Nothing));
    assert!(!machine.accepts(cases[0], Answer::Drawn { random: 0 }));
    assert_eq!(machine.recv(0, Answer::Nothing), Some(Op::PromiseRecv));
    assert_eq!(machine.state(), State::Promise { disconnected_count: 0 });
    assert!(!machine.promised(false, false));
    visits(&mut machine, cases[1], 3);

    // The registrations are over: park until the deadline.
    assert_eq!(machine.request(cases[0]), Request::Park { deadline: Some(100) });
    assert!(!machine.accepts(cases[0], Answer::Nothing));
    let woke = Answer::Selected { case_id: CaseId::recv(0) };
    assert!(machine.accepts(cases[0], woke));
    // The selected case withdraws nothing.
    assert_eq!(machine.recv(0, woke), None);
    assert_eq!(machine.state(), State::Revoke { case_id: CaseId::recv(0) });
    visits(&mut machine, cases[1], 3);

    assert_eq!(machine.request(cases[0]), Request::Nothing);
    assert_eq!(machine.recv(0, Answer::Nothing), Some(Op::FulfillRecv));
    assert_eq!(machine.state(), State::Fulfill { case_id: CaseId::recv(0) });
    assert!(!machine.fulfilled(false));
    visits(&mut machine, cases[1], 3);

    // The completion failed: read the clock.
    assert_eq!(machine.request(cases[0]), Request::Clock);
    assert!(!machine.accepts(cases[0], Answer::Drawn { random: 3 }));
    assert!(machine.accepts(cases[0], Answer::Clock { now: 99, random: 3 }));
    assert_eq!(machine.recv(0, Answer::Clock { now: 99, random: 3 }), None);
    assert_eq!(machine.state(), State::Try { disconnected_count: 0 });
    assert_eq!(machine.start_index(), 1);
}

#[test]
fn clock_at_the_deadline_times_out_and_before_it_does_not() {
    for (now, expected) in [
        (0u64, State::Try { disconnected_count: 0 }),
        (99, State::Try { disconnected_count: 0 }),
        (100, State::TimedOut),
        (101, State::TimedOut),
        (u64::MAX, State::TimedOut),
    ] {
        let cases = [CaseId::send(0)];
        let mut machine = counted(Some(100), &cases);
        assert_eq!(machine.send(0, Answer::Drawn { random: 0 }), Some(Op::TrySend));
        assert!(!machine.tried(Attempt::NotReady));
        assert_eq!(machine.send(0, Answer::Nothing), None);
        assert_eq!(machine.send(0, Answer::Nothing), Some(Op::PromiseSend));
        assert!(!machine.promised(false, false));
        assert_eq!(machine.send(0, Answer::Nothing), None);
        let woke = Answer::Selected { case_id: CaseId::abort() };
        assert_eq!(machine.send(0, woke), Some(Op::RevokeSend));
        assert_eq!(machine.pending(), None);
        assert_eq!(machine.send(0, Answer::Nothing), None);
        assert_eq!(machine.send(0, Answer::Nothing), None);
        assert_eq!(machine.state(), State::Fulfill { case_id: CaseId::abort() });
        assert_eq!(machine.send(0, Answer::Nothing), None);
        assert_eq!(machine.request(cases[0]), Request::Clock);
        machine.step(cases[0], Answer::Clock { now, random: 0 });
        assert_eq!(machine.state(), expected);
    }
}

#[test]
fn without_a_deadline_the_next_round_starts_with_a_draw() {
    let cases = [CaseId::send(0), CaseId::send(1), CaseId::send(2)];
    let mut machine = counted(None, &cases);
    assert!(!machine.step(cases[0], Answer::Drawn { random: 1 }));
    visits(&mut machine, cases[1], 5);
    assert_eq!(machine.request(cases[0]), Request::Reset);
    machine.step(cases[0], Answer::Nothing);
    visits(&mut machine, cases[1], 5);
    assert_eq!(machine.request(cases[0]), Request::Park { deadline: None });
    machine.step(cases[0], Answer::Selected { case_id: CaseId::abort() });
    visits(&mut machine, cases[1], 5);
    machine.step(cases[0], Answer::Nothing);
    visits(&mut machine, cases[1], 5);
    assert_eq!(machine.state(), State::Fulfill { case_id: CaseId::abort() });
    assert_eq!(machine.start_index(), 1);
    assert_eq!(machine.request(cases[0]), Request::Draw);
    assert!(!machine.step(cases[0], Answer::Drawn { random: 5 }));
    assert_eq!(machine.state(), State::Try { disconnected_count: 0 });
    assert_eq!(machine.start_index(), 2);
    assert_eq!(machine.index(), 1);
}

#[test]
fn attempts_count_disconnected_channels() {
    let cases = [CaseId::send(0), CaseId::recv(1), CaseId::disconnected()];
    let mut machine = counted(None, &cases);
    assert_eq!(machine.send(0, Answer::Drawn { random: 0 }), Some(Op::TrySend));
    assert!(!machine.tried(Attempt::Disconnected));
    assert_eq!(machine.state(), State::Try { disconnected_count: 1 });
    assert_eq!(machine.recv(1, Answer::Nothing), Some(Op::TryRecv));
    assert!(!machine.tried(Attempt::NotReady));
    assert_eq!(machine.state(), State::Try { disconnected_count: 1 });
    assert!(!machine.disconnected(Answer::Nothing));
    visits(&mut machine, cases[0], 3);
    // One of two channels is connected: the case for "all disconnected" does
    // not fire, and the registrations start.
    assert_eq!(machine.request(cases[0]), Request::Reset);
    assert_eq!(machine.send(0, Answer::Nothing), Some(Op::PromiseSend));
    assert_eq!(machine.state(), State::Promise { disconnected_count: 0 });
}

#[test]
fn registration_of_a_sender_counts_a_disconnected_channel() {
    for (is_disconnected, ready, count, abort) in [
        (false, false, 0usize, false),
        (false, true, 0, true),
        (true, false, 1, false),
        (true, true, 1, false),
    ] {
        let cases = [CaseId::send(0)];
        let mut machine = counted(None, &cases);
        machine.step(cases[0], Answer::Drawn { random: 0 });
        machine.step(cases[0], Answer::Nothing);
        assert_eq!(machine.send(0, Answer::Nothing), Some(Op::PromiseSend));
        assert_eq!(machine.pending(), Some(Op::PromiseSend));
        assert_eq!(machine.promised(is_disconnected, ready), abort);
        assert_eq!(machine.state(), State::Promise { disconnected_count: count });
        assert_eq!(machine.pending(), None);
    }
}

#[test]
fn registration_of_a_receiver_counts_only_a_drained_disconnected_channel() {
    for (is_disconnected, ready, count, abort) in [
        (false, false, 0usize, false),
        (false, true, 0, true),
        (true, false, 1, false),
        (true, true, 0, true),
    ] {
        let cases = [CaseId::recv(0)];
        let mut machine = counted(None, &cases);
        machine.step(cases[0], Answer::Drawn { random: 0 });
        machine.step(cases[0], Answer::Nothing);
        assert_eq!(machine.recv(0, Answer::Nothing), Some(Op::PromiseRecv));
        assert_eq!(machine.promised(is_disconnected, ready), abort);
        assert_eq!(machine.state(), State::Promise { disconnected_count: count });
    }
}

#[test]
fn all_disconnected_at_registration_cancels_the_park() {
    let cases = [CaseId::recv(0), CaseId::disconnected()];
    let mut machine = counted(None, &cases);
    assert_eq!(machine.recv(0, Answer::Drawn { random: 0 }), Some(Op::TryRecv));
    // Connected and empty during the attempts.
    assert!(!machine.tried(Attempt::NotReady));
    visits(&mut machine, cases[1], 3);
    assert_eq!(machine.recv(0, Answer::Nothing), Some(Op::PromiseRecv));
    // Disconnected by the time of the registration.
    assert!(!machine.promised(true, false));
    visits(&mut machine, cases[1], 3);
    assert_eq!(machine.request(cases[0]), Request::Abort);
    assert!(machine.accepts(cases[0], Answer::Selected { case_id: CaseId::abort() }));
    assert_eq!(
        machine.recv(0, Answer::Selected { case_id: CaseId::abort() }),
        Some(Op::RevokeRecv)
    );
    assert_eq!(machine.state(), State::Revoke { case_id: CaseId::abort() });
}

#[test]
fn disconnected_takes_precedence_over_would_block() {
    let cases = [CaseId::recv(0), CaseId::would_block(), CaseId::disconnected()];
    let mut machine = counted(None, &cases);
    assert_eq!(machine.recv(0, Answer::Drawn { random: 0 }), Some(Op::TryRecv));
    assert!(!machine.tried(Attempt::Disconnected));
    visits(&mut machine, cases[1], 5);
    assert_eq!(machine.request(cases[0]), Request::Nothing);
    assert_eq!(machine.recv(0, Answer::Nothing), None);
    assert_eq!(machine.state(), State::Disconnected);
    assert!(!machine.would_block(Answer::Nothing));
    assert_eq!(machine.state(), State::Disconnected);
    assert!(machine.disconnected(Answer::Nothing));
    assert_eq!(machine.state(), State::Dead);
}

#[test]
fn would_block_fires_when_all_are_disconnected_but_undeclared() {
    let cases = [CaseId::recv(0), CaseId::would_block()];
    let mut machine = counted(None, &cases);
    assert_eq!(machine.recv(0, Answer::Drawn { random: 0 }), Some(Op::TryRecv));
    assert!(!machine.tried(Attempt::Disconnected));
    visits(&mut machine, cases[1], 3);
    assert_eq!(machine.recv(0, Answer::Nothing), None);
    assert_eq!(machine.state(), State::WouldBlock);
    assert!(machine.would_block(Answer::Nothing));
    assert!(machine.is_dead());
}

#[test]
fn reserved_case_fires_only_when_its_slot_is_in_the_window() {
    // One case: the window is slot 0, so the case fires on the first call that
    // finds the driver at rest, after any number of idle slots.
    let cases = [CaseId::would_block()];
    let mut machine = counted(None, &cases);
    assert!(!machine.would_block(Answer::Drawn { random: 0 }));
    assert!(!machine.would_block(Answer::Nothing));
    assert!(!machine.is_dead());
    assert!(machine.would_block(Answer::Nothing));
    assert!(machine.is_dead());

    // Bare steps never end the selection.
    let mut machine = counted(None, &cases);
    machine.step(cases[0], Answer::Drawn { random: 0 });
    for _ in 0..7 {
        assert_eq!(machine.request(cases[0]), Request::Nothing);
        machine.step(cases[0], Answer::Nothing);
    }
    assert_eq!(machine.state(), State::WouldBlock);
    assert_eq!(machine.index(), 2);
}

#[test]
fn successful_attempt_and_completion_end_the_selection() {
    let cases = [CaseId::send(0)];
    let mut machine = counted(None, &cases);
    assert_eq!(machine.send(0, Answer::Drawn { random: 0 }), Some(Op::TrySend));
    assert!(machine.tried(Attempt::Done));
    assert_eq!(machine.state(), State::Dead);
    assert_eq!(machine.pending(), None);

    let mut machine = counted(None, &cases);
    assert_eq!(machine.send(0, Answer::Drawn { random: 0 }), Some(Op::TrySend));
    assert!(!machine.tried(Attempt::NotReady));
    machine.step(cases[0], Answer::Nothing);
    assert_eq!(machine.send(0, Answer::Nothing), Some(Op::PromiseSend));
    assert!(!machine.promised(false, false));
    machine.step(cases[0], Answer::Nothing);
    assert_eq!(machine.send(0, Answer::Selected { case_id: CaseId::send(0) }), None);
    machine.step(cases[0], Answer::Nothing);
    assert_eq!(machine.send(0, Answer::Nothing), Some(Op::FulfillSend));
    assert_eq!(machine.pending(), Some(Op::FulfillSend));
    assert!(machine.fulfilled(true));
    assert_eq!(machine.state(), State::Dead);
    assert!(!machine.accepts(cases[0], Answer::Nothing));
}

#[test]
fn a_send_and_a_receive_on_one_endpoint_are_two_cases() {
    let cases = [CaseId::send(4), CaseId::recv(4)];
    let mut machine = counted(None, &cases);
    assert_eq!(machine.len(), 2);
    assert_eq!(machine.send(4, Answer::Drawn { random: 0 }), Some(Op::TrySend));
    assert!(!machine.tried(Attempt::NotReady));
    assert_eq!(machine.recv(4, Answer::Nothing), Some(Op::TryRecv));
    assert!(!machine.tried(Attempt::NotReady));
    visits(&mut machine, cases[0], 2);
    assert_eq!(machine.send(4, Answer::Nothing), Some(Op::PromiseSend));
    assert!(!machine.promised(false, false));
    assert_eq!(machine.recv(4, Answer::Nothing), Some(Op::PromiseRecv));
    assert!(!machine.promised(false, false));
    visits(&mut machine, cases[0], 2);
    let woke = Answer::Selected { case_id: CaseId::recv(4) };
    assert_eq!(machine.send(4, woke), Some(Op::RevokeSend));
    assert_eq!(machine.recv(4, Answer::Nothing), None);
    visits(&mut machine, cases[0], 2);
    assert_eq!(machine.send(4, Answer::Nothing), None);
    assert_eq!(machine.recv(4, Answer::Nothing), Some(Op::FulfillRecv));
    assert!(machine.fulfilled(true));
    assert!(machine.is_dead());
}

#[test]
fn answers_yield_what_they_carry() {
    let drawn = Answer::Drawn { random: 12 };
    let selected = Answer::Selected { case_id: CaseId::recv(3) };
    let clock = Answer::Clock { now: 77, random: 5 };
    assert_eq!(drawn.random(), 12);
    assert_eq!(clock.random(), 5);
    assert_eq!(clock.now(), 77);
    assert_eq!(selected.selected(), CaseId::recv(3));
    assert_eq!(Answer::Nothing.random(), 0);
    assert_eq!(Answer::Nothing.now(), 0);
    assert_eq!(Answer::Nothing.selected(), CaseId::none());
    assert_eq!(selected.random(), 0);
    assert_eq!(drawn.selected(), CaseId::none());
}

#[test]
fn case_limit_is_half_the_counter_range() {
    assert_eq!(MAX_CASES, usize::MAX / 2);
}
