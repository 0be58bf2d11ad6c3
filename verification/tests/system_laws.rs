use weight_throwing::message::{Envelope, Event, Message, ProcessState};
use weight_throwing::monitor::{weight_recovered, TerminationMonitor};
use weight_throwing::process::{receiver_candidates, Choices, Process};
use weight_throwing::weight::{
    FRACTION_SCALE, INITIAL_WEIGHT, MIN_FRACTION_PPM, MIN_SHARE, MIN_WEIGHT_FRACTION,
};

struct Lcg(u64);

impl Lcg {
    fn next(&mut self) -> u64 {
        self.0 = self.0.wrapping_mul(6364136223846793005).wrapping_add(1442695040888963407);
        self.0 >> 33
    }
}

fn draw(lcg: &mut Lcg, candidates: usize) -> Choices {
    Choices {
        send_roll: lcg.next() % 10 < 3,
        receiver_index: if candidates == 0 { 0 } else { (lcg.next() as usize) % candidates },
        fraction_ppm: MIN_FRACTION_PPM + lcg.next() % (FRACTION_SCALE - MIN_FRACTION_PPM),
        idle_roll: lcg.next() % 10 < 6,
    }
}

fn total(ps: &[Process], in_flight: &[Envelope]) -> u128 {
    ps.iter().map(|p| p.weight as u128).sum::<u128>()
        + in_flight.iter().map(|e| e.1.weight() as u128).sum::<u128>()
}

fn check_shape(ps: &[Process], in_flight: &[Envelope], ca: usize) {
    assert_eq!(total(ps, in_flight), INITIAL_WEIGHT as u128);
    for (i, p) in ps.iter().enumerate() {
        assert_eq!(p.id, i);
        if i != ca {
            assert_eq!(p.state == ProcessState::Idle, p.weight == 0);
            if p.state == ProcessState::Active {
                assert!(p.weight >= MIN_WEIGHT_FRACTION);
            }
        }
    }
    for env in in_flight {
        assert!(env.1.weight() > 0);
        match env.1 {
            Message::Control { .. } => assert_eq!(env.0, ca),
            Message::Computation { weight, .. } => assert!(weight >= MIN_SHARE),
        }
    }
}

fn run_system(seed: u64) {
    let n = 5;
    let ca = 0;
    let ids: Vec<usize> = (0..n).collect();
    let mut ps: Vec<Process> = (0..n).map(|i| Process::new(i, i == ca, ca)).collect();
    let mut in_flight: Vec<Envelope> = Vec::new();
    check_shape(&ps, &in_flight, ca);
    // The controlling agent starts the computation by handing half of its
    // weight to process 1.
    ps[ca].set_active();
    in_flight.push(ps[ca].send_computation_message(1, INITIAL_WEIGHT / 2));
    check_shape(&ps, &in_flight, ca);
    let mut lcg = Lcg(seed);
    let mut rounds = 0;
    while ps[ca].weight != INITIAL_WEIGHT || ps[ca].state != ProcessState::Idle {
        rounds += 1;
        assert!(rounds < 1_000_000, "no termination");
        let i = (lcg.next() as usize) % n;
        let event = match in_flight.iter().position(|env| env.0 == i) {
            Some(k) if lcg.next() % 2 == 0 => Event::Received(in_flight.remove(k).1),
            _ => Event::Timeout,
        };
        let candidates = receiver_candidates(&ids, i).len();
        let choices = draw(&mut lcg, candidates);
        let out = if i == ca {
            ps[i].run_with_monitoring_step_with(event, &ids, choices)
        } else {
            ps[i].run_step_with(event, &ids, choices)
        };
        assert!(!out.stop);
        in_flight.extend(out.outgoing);
        check_shape(&ps, &in_flight, ca);
        if weight_recovered(ps[ca].weight) {
            assert!(in_flight.iter().all(|env| matches!(env.1, Message::Control { .. })));
            assert!(ps.iter().all(|p| p.id == ca || p.state == ProcessState::Idle));
        }
        if ps[ca].weight == INITIAL_WEIGHT {
            assert!(in_flight.is_empty());
            for p in &ps[1..] {
                assert_eq!(p.state, ProcessState::Idle);
                assert_eq!(p.weight, 0);
            }
        }
    }
    let mut monitor = TerminationMonitor::new();
    for _ in 0..4 {
        assert!(!monitor.observe(ps[ca].weight, ps[ca].state));
    }
    assert!(monitor.observe(ps[ca].weight, ps[ca].state));
}

#[test]
fn weight_is_conserved_and_detection_is_sound() {
    for seed in 1..40 {
        run_system(seed);
    }
}

#[test]
fn fresh_system_holds_whole_weight_at_controlling_agent() {
    let ps: Vec<Process> = (0..4).map(|i| Process::new(i, i == 2, 2)).collect();
    check_shape(&ps, &[], 2);
    assert!(weight_recovered(ps[2].weight));
}
