use weight_throwing::message::{Event, Message, ProcessState};
use weight_throwing::process::Process;
use weight_throwing::weight::MIN_WEIGHT_FRACTION;

#[test]
fn random_rounds_send_valid_shares_to_varied_receivers() {
    let mut rng = rand::rng();
    let ids = [0usize, 1, 2, 3, 4];
    let mut receivers = std::collections::HashSet::new();
    let mut shares = std::collections::HashSet::new();
    let mut sends = 0;
    for _ in 0..2_000 {
        let mut p = Process {
            id: 2,
            is_controlling_agent: false,
            weight: 800_000_000,
            state: ProcessState::Active,
            controlling_agent_id: 0,
            sent_computation_messages_count: 0,
        };
        let out = p.run_step(Event::Timeout, &ids, &mut rng);
        assert!(!out.stop);
        let mut returned = 0;
        for (to, msg) in &out.outgoing {
            match msg {
                Message::Computation { sender_id, weight } => {
                    assert_eq!(*sender_id, 2);
                    assert_ne!(*to, 2);
                    assert!(*weight >= 80_000_000 && *weight < 800_000_000);
                    receivers.insert(*to);
                    shares.insert(*weight);
                    sends += 1;
                }
                Message::Control { weight, .. } => {
                    assert_eq!(*to, 0);
                    returned += *weight;
                }
            }
        }
        let sent: u64 = out.outgoing.iter().map(|e| e.1.weight()).sum();
        assert_eq!(p.weight + sent, 800_000_000);
        assert!(returned == 0 || p.weight == 0);
    }
    // About three rounds in ten send; the receiver and the share vary.
    assert!(sends > 300 && sends < 900, "{} sends", sends);
    assert_eq!(receivers.len(), 4);
    assert!(shares.len() > 100);
}

#[test]
fn random_rounds_go_idle_by_choice_some_of_the_time() {
    let mut rng = rand::rng();
    let ids = [0usize, 1, 2];
    let mut idle = 0;
    for _ in 0..1_000 {
        let mut p = Process {
            id: 1,
            is_controlling_agent: false,
            weight: 5 * MIN_WEIGHT_FRACTION,
            state: ProcessState::Active,
            controlling_agent_id: 0,
            sent_computation_messages_count: 2,
        };
        let _ = p.run_step(Event::Timeout, &ids, &mut rng);
        if p.state == ProcessState::Idle {
            idle += 1;
            assert_eq!(p.weight, 0);
        }
    }
    assert!(idle > 450 && idle < 800, "{} idle", idle);
}

#[test]
fn monitored_random_round_with_disconnection_stops() {
    let mut rng = rand::rng();
    let mut ca = Process::new(0, true, 0);
    let out = ca.run_with_monitoring_step(Event::Disconnected, &[0, 1], &mut rng);
    assert!(out.stop);
    assert!(out.outgoing.is_empty());
    assert_eq!(ca, Process::new(0, true, 0));
}
