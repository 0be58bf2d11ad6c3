use weight_throwing::message::{Event, Message, ProcessState};
use weight_throwing::process::{receiver_candidates, Choices, Process};
use weight_throwing::weight::{fraction_of, INITIAL_WEIGHT, MIN_WEIGHT_FRACTION};

fn active(id: usize, weight: u64) -> Process {
    Process {
        id,
        is_controlling_agent: id == 0,
        weight,
        state: ProcessState::Active,
        controlling_agent_id: 0,
        sent_computation_messages_count: 0,
    }
}

fn no_draws() -> Choices {
    Choices { send_roll: false, receiver_index: 0, fraction_ppm: 100_000, idle_roll: false }
}

#[test]
fn controlling_agent_starts_with_whole_weight() {
    let p = Process::new(0, true, 0);
    assert_eq!(p.weight, INITIAL_WEIGHT);
    assert_eq!(p.state, ProcessState::Idle);
    assert_eq!(p.sent_computation_messages_count, 0);
}

#[test]
fn other_process_starts_without_weight() {
    let p = Process::new(3, false, 0);
    assert_eq!(p.weight, 0);
    assert_eq!(p.state, ProcessState::Idle);
    assert_eq!(p.controlling_agent_id, 0);
    assert_eq!(p.id, 3);
}

#[test]
fn set_active_wakes_idle_process() {
    let mut p = Process::new(2, false, 0);
    p.set_active();
    assert_eq!(p.state, ProcessState::Active);
    p.set_active();
    assert_eq!(p.state, ProcessState::Active);
}

#[test]
fn going_idle_returns_weight_to_controlling_agent() {
    let mut p = active(2, 300);
    let control = p.set_idle();
    assert_eq!(control, Some((0, Message::Control { sender_id: 2, weight: 300 })));
    assert_eq!(p.weight, 0);
    assert_eq!(p.state, ProcessState::Idle);
}

#[test]
fn controlling_agent_keeps_weight_when_idle() {
    let mut p = active(0, 700);
    assert_eq!(p.set_idle(), None);
    assert_eq!(p.weight, 700);
    assert_eq!(p.state, ProcessState::Idle);
}

#[test]
fn going_idle_when_idle_changes_nothing() {
    let mut p = Process::new(1, false, 0);
    let before = p;
    assert_eq!(p.set_idle(), None);
    assert_eq!(p, before);
}

#[test]
fn idle_process_without_weight_sends_nothing() {
    let mut p = active(1, 0);
    assert_eq!(p.set_idle(), None);
    assert_eq!(p.state, ProcessState::Idle);
}

#[test]
fn sending_splits_weight() {
    let mut p = active(1, 1_000);
    let env = p.send_computation_message(4, 400);
    assert_eq!(env, (4, Message::Computation { sender_id: 1, weight: 400 }));
    assert_eq!(p.weight, 600);
    assert_eq!(p.sent_computation_messages_count, 1);
}

#[test]
fn computation_message_activates_and_adds_weight() {
    let mut p = Process::new(1, false, 0);
    p.handle_event(Event::Received(Message::Computation { sender_id: 0, weight: 250 }));
    assert_eq!(p.weight, 250);
    assert_eq!(p.state, ProcessState::Active);
}

#[test]
fn control_message_adds_weight_at_controlling_agent() {
    let mut p = Process::new(0, true, 0);
    p.handle_event(Event::Received(Message::Control { sender_id: 2, weight: 5 }));
    assert_eq!(p.weight, INITIAL_WEIGHT + 5);
    assert_eq!(p.state, ProcessState::Idle);
}

#[test]
fn control_message_is_dropped_elsewhere() {
    let mut p = active(3, 10);
    p.handle_event(Event::Received(Message::Control { sender_id: 2, weight: 5 }));
    assert_eq!(p.weight, 10);
}

#[test]
fn timeout_changes_nothing() {
    let mut p = active(3, 10);
    p.handle_event(Event::Timeout);
    assert_eq!(p, active(3, 10));
}

#[test]
fn candidates_leave_out_self() {
    assert_eq!(receiver_candidates(&[0, 1, 2, 3, 4], 2), vec![0, 1, 3, 4]);
    assert_eq!(receiver_candidates(&[7], 7), Vec::<usize>::new());
    assert_eq!(receiver_candidates(&[], 7), Vec::<usize>::new());
    assert_eq!(receiver_candidates(&[5, 5, 6], 5), vec![6]);
}

#[test]
fn fraction_rounds_down() {
    assert_eq!(fraction_of(1_000_000_000, 250_000), 250_000_000);
    assert_eq!(fraction_of(7, 500_000), 3);
    assert_eq!(fraction_of(u64::MAX, 1_000_000), u64::MAX);
    assert_eq!(fraction_of(123, 0), 0);
}

#[test]
fn message_accessors() {
    let m = Message::Control { sender_id: 4, weight: 9 };
    assert_eq!(m.weight(), 9);
    assert_eq!(m.sender_id(), 4);
    let c = Message::Computation { sender_id: 1, weight: 2 };
    assert_eq!(c.weight(), 2);
    assert_eq!(c.sender_id(), 1);
}

#[test]
fn disconnected_round_stops_before_work() {
    let mut p = active(1, 500_000_000);
    let draws = Choices { send_roll: true, receiver_index: 0, fraction_ppm: 500_000, idle_roll: true };
    let out = p.run_step_with(Event::Disconnected, &[0, 1, 2], draws);
    assert!(out.stop);
    assert!(out.outgoing.is_empty());
    assert_eq!(p, active(1, 500_000_000));
}

#[test]
fn round_sends_a_share_to_the_chosen_receiver() {
    let mut p = active(1, 500_000_000);
    let draws = Choices { send_roll: true, receiver_index: 1, fraction_ppm: 500_000, idle_roll: false };
    let out = p.run_step_with(Event::Timeout, &[0, 1, 2], draws);
    assert_eq!(out.outgoing, vec![(2, Message::Computation { sender_id: 1, weight: 250_000_000 })]);
    assert_eq!(p.weight, 250_000_000);
    assert_eq!(p.state, ProcessState::Active);
    assert_eq!(p.sent_computation_messages_count, 1);
    assert!(!out.stop);
    assert!(out.published.is_empty());
}

#[test]
fn round_without_send_roll_sends_nothing() {
    let mut p = active(1, 500_000_000);
    let out = p.run_step_with(Event::Timeout, &[0, 1, 2], no_draws());
    assert!(out.outgoing.is_empty());
    assert_eq!(p, active(1, 500_000_000));
}

#[test]
fn idle_process_does_no_work() {
    let mut p = Process::new(1, false, 0);
    let draws = Choices { send_roll: true, receiver_index: 0, fraction_ppm: 500_000, idle_roll: true };
    let out = p.run_step_with(Event::Timeout, &[0, 1, 2], draws);
    assert!(out.outgoing.is_empty());
    assert_eq!(p, Process::new(1, false, 0));
}

#[test]
fn process_goes_idle_by_choice_after_two_messages() {
    let mut p = active(1, 500_000_000);
    p.sent_computation_messages_count = 1;
    let draws = Choices { send_roll: true, receiver_index: 0, fraction_ppm: 200_000, idle_roll: true };
    let out = p.run_step_with(Event::Timeout, &[0, 1, 2], draws);
    assert_eq!(
        out.outgoing,
        vec![
            (0, Message::Computation { sender_id: 1, weight: 100_000_000 }),
            (0, Message::Control { sender_id: 1, weight: 400_000_000 }),
        ]
    );
    assert_eq!(p.weight, 0);
    assert_eq!(p.state, ProcessState::Idle);
    assert_eq!(p.sent_computation_messages_count, 0);
}

#[test]
fn process_short_of_weight_goes_idle() {
    let mut p = active(2, MIN_WEIGHT_FRACTION - 1);
    let out = p.run_step_with(Event::Timeout, &[0, 1, 2], no_draws());
    assert_eq!(out.outgoing, vec![(0, Message::Control { sender_id: 2, weight: MIN_WEIGHT_FRACTION - 1 })]);
    assert_eq!(p.state, ProcessState::Idle);
    assert_eq!(p.weight, 0);
}

#[test]
fn process_at_minimum_does_not_send() {
    let mut p = active(2, MIN_WEIGHT_FRACTION);
    let draws = Choices { send_roll: true, receiver_index: 0, fraction_ppm: 500_000, idle_roll: false };
    let out = p.run_step_with(Event::Timeout, &[0, 1, 2], draws);
    assert!(out.outgoing.is_empty());
    assert_eq!(p, active(2, MIN_WEIGHT_FRACTION));
}

#[test]
fn lone_process_has_nobody_to_send_to() {
    let mut p = active(1, 500_000_000);
    let draws = Choices { send_roll: true, receiver_index: 0, fraction_ppm: 500_000, idle_roll: false };
    let out = p.run_step_with(Event::Timeout, &[1], draws);
    assert!(out.outgoing.is_empty());
    assert_eq!(p.weight, 500_000_000);
}

#[test]
fn received_computation_is_worked_on_in_the_same_round() {
    let mut p = Process::new(3, false, 0);
    let draws = Choices { send_roll: true, receiver_index: 3, fraction_ppm: 100_000, idle_roll: false };
    let msg = Message::Computation { sender_id: 0, weight: 500_000_000 };
    let out = p.run_step_with(Event::Received(msg), &[0, 1, 2, 3, 4], draws);
    assert_eq!(out.outgoing, vec![(4, Message::Computation { sender_id: 3, weight: 50_000_000 })]);
    assert_eq!(p.weight, 450_000_000);
    assert_eq!(p.state, ProcessState::Active);
}

#[test]
fn monitored_agent_needs_twice_the_minimum_to_send() {
    let draws = Choices { send_roll: true, receiver_index: 0, fraction_ppm: 500_000, idle_roll: false };
    let mut ca = active(0, 150_000_000);
    let out = ca.run_with_monitoring_step_with(Event::Timeout, &[0, 1, 2], draws);
    assert!(out.outgoing.is_empty());
    assert!(out.published.is_empty());
    let mut plain = active(0, 150_000_000);
    let out = plain.run_step_with(Event::Timeout, &[0, 1, 2], draws);
    assert_eq!(out.outgoing, vec![(1, Message::Computation { sender_id: 0, weight: 75_000_000 })]);
}

#[test]
fn monitored_agent_publishes_changes() {
    let mut ca = Process::new(0, true, 0);
    let out = ca.run_with_monitoring_step_with(
        Event::Received(Message::Control { sender_id: 2, weight: 10 }),
        &[0, 1, 2],
        no_draws(),
    );
    assert_eq!(out.published, vec![(INITIAL_WEIGHT + 10, ProcessState::Idle)]);
    assert_eq!(ca.weight, INITIAL_WEIGHT + 10);
    let out = ca.run_with_monitoring_step_with(Event::Timeout, &[0, 1, 2], no_draws());
    assert!(out.published.is_empty());
    let draws = Choices { send_roll: true, receiver_index: 1, fraction_ppm: 100_000, idle_roll: false };
    let out = ca.run_with_monitoring_step_with(
        Event::Received(Message::Computation { sender_id: 1, weight: 0 }),
        &[0, 1, 2],
        draws,
    );
    assert_eq!(
        out.published,
        vec![(1_000_000_010, ProcessState::Active), (900_000_009, ProcessState::Active)]
    );
    assert_eq!(ca.state, ProcessState::Active);
    assert_eq!(out.outgoing, vec![(2, Message::Computation { sender_id: 0, weight: 100_000_001 })]);
    assert_eq!(ca.weight, 900_000_009);
}

#[test]
fn empty_computation_message_leaves_process_idle_without_weight() {
    let mut p = Process::new(2, false, 0);
    let draws = Choices { send_roll: true, receiver_index: 0, fraction_ppm: 500_000, idle_roll: false };
    let msg = Message::Computation { sender_id: 1, weight: 0 };
    let out = p.run_step_with(Event::Received(msg), &[0, 1, 2], draws);
    assert!(out.outgoing.is_empty());
    assert_eq!(p.state, ProcessState::Idle);
    assert_eq!(p.weight, 0);
}

#[test]
fn stray_control_message_keeps_activity_and_weight_together() {
    let mut p = active(3, 400_000_000);
    let msg = Message::Control { sender_id: 1, weight: 7 };
    let out = p.run_step_with(Event::Received(msg), &[0, 1, 2, 3], no_draws());
    assert!(out.outgoing.is_empty());
    assert_eq!(p.state, ProcessState::Active);
    assert_eq!(p.weight, 400_000_000);
}

#[test]
fn monitored_change_is_always_published() {
    let draws = Choices { send_roll: false, receiver_index: 0, fraction_ppm: 100_000, idle_roll: true };
    let mut ca = active(0, 500_000_000);
    ca.sent_computation_messages_count = 2;
    let out = ca.run_with_monitoring_step_with(Event::Timeout, &[0, 1], draws);
    assert_eq!(ca.state, ProcessState::Idle);
    assert_eq!(ca.weight, 500_000_000);
    assert_eq!(out.published, vec![(500_000_000, ProcessState::Idle)]);
}

#[test]
fn monitored_round_publishes_at_every_write_point() {
    let mut ca = active(0, 500_000_000);
    ca.sent_computation_messages_count = 1;
    let draws = Choices { send_roll: true, receiver_index: 0, fraction_ppm: 500_000, idle_roll: true };
    let msg = Message::Computation { sender_id: 1, weight: 100_000_000 };
    let out = ca.run_with_monitoring_step_with(Event::Received(msg), &[0, 1], draws);
    assert_eq!(
        out.published,
        vec![
            (600_000_000, ProcessState::Active),
            (300_000_000, ProcessState::Active),
            (300_000_000, ProcessState::Idle),
        ]
    );
    assert_eq!(out.outgoing, vec![(1, Message::Computation { sender_id: 0, weight: 300_000_000 })]);
    assert_eq!(ca.sent_computation_messages_count, 0);
}

#[test]
fn ordinary_round_publishes_nothing() {
    let mut p = Process::new(1, false, 0);
    let msg = Message::Computation { sender_id: 0, weight: 300_000_000 };
    let out = p.run_step_with(Event::Received(msg), &[0, 1], no_draws());
    assert!(out.published.is_empty());
    assert_eq!(p.state, ProcessState::Active);
}

#[test]
fn a_run_of_rounds_neither_creates_nor_destroys_weight() {
    let ids = [0usize, 1, 2, 3];
    let mut p = Process::new(2, false, 0);
    let events = [
        Event::Received(Message::Computation { sender_id: 0, weight: 600_000_000 }),
        Event::Timeout,
        Event::Received(Message::Control { sender_id: 1, weight: 9 }),
        Event::Received(Message::Computation { sender_id: 3, weight: 50_000_000 }),
        Event::Timeout,
    ];
    let draws = [
        Choices { send_roll: true, receiver_index: 0, fraction_ppm: 250_000, idle_roll: false },
        Choices { send_roll: true, receiver_index: 2, fraction_ppm: 300_000, idle_roll: false },
        Choices { send_roll: false, receiver_index: 0, fraction_ppm: 100_000, idle_roll: false },
        Choices { send_roll: true, receiver_index: 1, fraction_ppm: 999_999, idle_roll: false },
        Choices { send_roll: false, receiver_index: 0, fraction_ppm: 100_000, idle_roll: true },
    ];
    let mut sent: u64 = 0;
    for (event, choices) in events.iter().zip(draws.iter()) {
        let out = p.run_step_with(*event, &ids, *choices);
        sent += out.outgoing.iter().map(|e| e.1.weight()).sum::<u64>();
    }
    // The control message is dropped by a process other than the agent.
    assert_eq!(p.weight + sent, 650_000_000);
    assert_eq!(p.state, ProcessState::Idle);
    assert_eq!(p.weight, 0);
}
