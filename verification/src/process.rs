//! The local rules of one process: how it takes part in the computation and
//! how it moves weight around.
use vstd::prelude::*;
use rand::rngs::ThreadRng;
use crate::message::{Envelope, Event, Message, ProcessState};
use crate::randomness::{random_range, random_ratio, Draw};
use crate::weight::{
    fraction_of, fraction_spec, FRACTION_SCALE, INITIAL_WEIGHT, MIN_FRACTION_PPM,
    MIN_WEIGHT_FRACTION,
};

verus! {

/// The state of one process of the computation.
#[derive(Clone, Copy, Debug, PartialEq, Eq, Structural)]
pub struct Process {
    pub id: usize,
    pub is_controlling_agent: bool,
    /// The weight the process holds, in weight units.
    pub weight: u64,
    pub state: ProcessState,
    pub controlling_agent_id: usize,
    /// Computation messages sent since the process last went idle by choice.
    pub sent_computation_messages_count: usize,
}

/// The outcomes of the random draws of one round of local work.
#[derive(Clone, Copy, Debug, PartialEq, Eq, Structural)]
pub struct Choices {
    /// Whether the process decides to send a computation message.
    pub send_roll: bool,
    /// Index of the receiver among the other processes.
    pub receiver_index: usize,
    /// The fraction of its weight to send, in parts per `FRACTION_SCALE`.
    pub fraction_ppm: u64,
    /// Whether a process that has sent enough messages decides to go idle.
    pub idle_roll: bool,
}

/// What one round of a process produces.
pub struct StepOutcome {
    /// Messages to hand to the network, each with its receiver.
    pub outgoing: Vec<Envelope>,
    /// Whether the process stops (its incoming channel is gone).
    pub stop: bool,
    /// The weight and state of the controlling agent to publish, in the
    /// order in which the round writes them (only in a monitored round).
    pub published: Vec<Snapshot>,
    /// The calls into the random generator that the round made, in order.
    pub draws: Ghost<Seq<Draw>>,
}

/// A weight and state of a process, as the controlling agent publishes them.
pub type Snapshot = (u64, ProcessState);

/// Probability (in tenths) that an active process sends a message in a round.
pub const SEND_CHANCE_TENTHS: u32 = 3;

/// Probability (in tenths) that a process that has sent enough messages goes idle.
pub const IDLE_CHANCE_TENTHS: u32 = 6;

/// Number of messages a process sends before it may choose to go idle.
pub const MESSAGES_BEFORE_IDLE: usize = 2;

// ---------------------------------------------------------------------------
// The rules, as functions on values.
// ---------------------------------------------------------------------------

/// The ids of `ids` other than `me`, in order.
pub open spec fn others(ids: Seq<usize>, me: usize) -> Seq<usize>
    decreases ids.len(),
{
    if ids.len() == 0 {
        Seq::empty()
    } else {
        let rest = others(ids.drop_last(), me);
        if ids.last() != me {
            rest.push(ids.last())
        } else {
            rest
        }
    }
}

/// A fresh, idle process: the controlling agent holds the whole weight,
/// every other process none.
pub open spec fn fresh(id: usize, is_controlling_agent: bool, controlling_agent_id: usize) -> Process {
    Process {
        id,
        is_controlling_agent,
        weight: if is_controlling_agent { INITIAL_WEIGHT } else { 0 },
        state: ProcessState::Idle,
        controlling_agent_id,
        sent_computation_messages_count: 0,
    }
}

/// An idle process becomes active; an active one stays as it is.
pub open spec fn activated(p: Process) -> Process {
    if p.state == ProcessState::Idle {
        Process { state: ProcessState::Active, ..p }
    } else {
        p
    }
}

/// Rule 3: an active process becomes idle; unless it is the controlling
/// agent, it returns all the weight it holds to the controlling agent.
pub open spec fn idled(p: Process) -> (Process, Option<Envelope>) {
    if p.state == ProcessState::Active {
        if p.weight > 0 && !p.is_controlling_agent {
            (
                Process { state: ProcessState::Idle, weight: 0, ..p },
                Some(
                    (
                        p.controlling_agent_id,
                        Message::Control { sender_id: p.id, weight: p.weight },
                    ),
                ),
            )
        } else {
            (Process { state: ProcessState::Idle, ..p }, None)
        }
    } else {
        (p, None)
    }
}

/// Rule 1: sending a computation message splits the sender's weight.
pub open spec fn sent(p: Process, receiver_id: usize, content_weight: u64) -> (Process, Envelope) {
    (
        Process {
            weight: (p.weight - content_weight) as u64,
            sent_computation_messages_count: (p.sent_computation_messages_count + 1) as usize,
            ..p
        },
        (receiver_id, Message::Computation { sender_id: p.id, weight: content_weight }),
    )
}

/// Rules 2 and 4: what a received event does to a process.  A computation
/// message adds its weight and activates the receiver; a control message
/// adds its weight at the controlling agent and is dropped elsewhere.
pub open spec fn after_event(p: Process, e: Event) -> Process {
    match e {
        Event::Received(Message::Computation { weight, .. }) => activated(
            Process { weight: (p.weight + weight) as u64, ..p },
        ),
        Event::Received(Message::Control { weight, .. }) => if p.is_controlling_agent {
            Process { weight: (p.weight + weight) as u64, ..p }
        } else {
            p
        },
        _ => p,
    }
}

/// The weight an event brings into a process.
pub open spec fn absorbed(p: Process, e: Event) -> nat {
    match e {
        Event::Received(Message::Computation { weight, .. }) => weight as nat,
        Event::Received(Message::Control { weight, .. }) => if p.is_controlling_agent {
            weight as nat
        } else {
            0
        },
        _ => 0,
    }
}

/// The weight an event carries, whether or not it is kept.
pub open spec fn carried(e: Event) -> nat {
    match e {
        Event::Received(m) => m.weight_spec(),
        _ => 0,
    }
}

/// The weight and state of a process.
pub open spec fn snapshot(p: Process) -> Snapshot {
    (p.weight, p.state)
}

/// Whether an event changes what the controlling agent publishes.
pub open spec fn event_publishes(p: Process, e: Event) -> bool {
    match e {
        Event::Received(Message::Computation { .. }) => true,
        Event::Received(Message::Control { .. }) => p.is_controlling_agent,
        _ => false,
    }
}

/// The weight above which an active process may send: the minimum for an
/// ordinary round, twice the minimum for the monitored controlling agent.
pub open spec fn send_threshold(monitored: bool) -> u64 {
    if monitored {
        (2 * MIN_WEIGHT_FRACTION) as u64
    } else {
        MIN_WEIGHT_FRACTION
    }
}

/// The draws fit the round: the fraction lies in `[MIN_FRACTION_PPM,
/// FRACTION_SCALE)` and the receiver index names one of `candidates`
/// receivers, if there are any.
pub open spec fn choices_fit(c: Choices, candidates: nat) -> bool {
    &&& MIN_FRACTION_PPM <= c.fraction_ppm < FRACTION_SCALE
    &&& candidates > 0 ==> c.receiver_index < candidates
}

/// Whether a process sends a computation message in a round of local work.
pub open spec fn sends(p: Process, ids: Seq<usize>, threshold: u64, c: Choices) -> bool {
    &&& p.state == ProcessState::Active
    &&& p.weight > threshold
    &&& c.send_roll
    &&& others(ids, p.id).len() > 0
}

/// The process and messages after the sending part of local work.
pub open spec fn after_send(p: Process, ids: Seq<usize>, threshold: u64, c: Choices) -> (Process, Seq<Envelope>) {
    if sends(p, ids, threshold, c) {
        let r = sent(
            p,
            others(ids, p.id)[c.receiver_index as int],
            fraction_spec(p.weight as nat, c.fraction_ppm as nat) as u64,
        );
        (r.0, seq![r.1])
    } else {
        (p, Seq::empty())
    }
}

/// The messages an optional envelope stands for.
pub open spec fn opt_seq(o: Option<Envelope>) -> Seq<Envelope> {
    match o {
        Some(env) => seq![env],
        None => Seq::empty(),
    }
}

/// One round of local work of an active process: perhaps send part of its
/// weight to another process, then perhaps go idle (by choice after enough
/// messages, or because a process other than the controlling agent has run
/// short of weight).  Returns the process, the messages it sends, and the
/// weight and state it is in after a send and after going idle, in order:
/// the points at which the controlling agent publishes them.
pub open spec fn work(p: Process, ids: Seq<usize>, threshold: u64, c: Choices) -> (Process, Seq<Envelope>, Seq<Snapshot>) {
    if p.state == ProcessState::Active {
        let s = after_send(p, ids, threshold, c);
        let p1 = s.0;
        let after_send_snapshots: Seq<Snapshot> = if sends(p, ids, threshold, c) {
            seq![snapshot(p1)]
        } else {
            Seq::empty()
        };
        if p1.sent_computation_messages_count >= MESSAGES_BEFORE_IDLE && c.idle_roll {
            let i = idled(p1);
            let f = Process { sent_computation_messages_count: 0, ..i.0 };
            (f, s.1 + opt_seq(i.1), after_send_snapshots.push(snapshot(f)))
        } else if p1.weight < MIN_WEIGHT_FRACTION && !p1.is_controlling_agent {
            let i = idled(p1);
            (i.0, s.1 + opt_seq(i.1), after_send_snapshots.push(snapshot(i.0)))
        } else {
            (p1, s.1, after_send_snapshots)
        }
    } else {
        (p, Seq::empty(), Seq::empty())
    }
}

/// One round of a process: handle what arrived, then do local work.  A
/// disconnected channel stops the process before any work.  Returns the
/// process, the messages it sends, whether it stops, and the weights and
/// states the controlling agent publishes, in order (monitored rounds only):
/// right after a message that changes it arrives, after a send, and after
/// going idle.
pub open spec fn step_spec(p: Process, e: Event, ids: Seq<usize>, monitored: bool, c: Choices) -> (
    Process,
    Seq<Envelope>,
    bool,
    Seq<Snapshot>,
) {
    match e {
        Event::Disconnected => (p, Seq::empty(), true, Seq::empty()),
        _ => {
            let q = after_event(p, e);
            let w = work(q, ids, send_threshold(monitored), c);
            let on_arrival: Seq<Snapshot> = if event_publishes(p, e) {
                seq![snapshot(q)]
            } else {
                Seq::empty()
            };
            (w.0, w.1, false, if monitored { on_arrival + w.2 } else { Seq::empty() })
        },
    }
}

/// The calls into the random generator that one round of local work of
/// `p` (the process once the round's event is handled) makes, each with the
/// outcome the round acts on: a 3-in-10 coin to send (`c.send_roll`) when
/// the weight is above `threshold`; when it came up and there are receivers,
/// an index below their number (`c.receiver_index`) and a fraction in
/// `[MIN_FRACTION_PPM, FRACTION_SCALE)` (`c.fraction_ppm`); and a 6-in-10
/// coin to go idle (`c.idle_roll`) once enough messages are sent.
pub open spec fn draws_made(p: Process, ids: Seq<usize>, threshold: u64, c: Choices) -> Seq<Draw> {
    if p.state == ProcessState::Active {
        let n = others(ids, p.id).len();
        let coin: Seq<Draw> = if p.weight > threshold {
            seq![Draw::Coin { numerator: SEND_CHANCE_TENTHS, denominator: 10, outcome: c.send_roll }]
        } else {
            Seq::empty()
        };
        let will_send = p.weight > threshold && c.send_roll && n > 0;
        let picks: Seq<Draw> = if will_send {
            seq![
                Draw::Range { low: 0, high: n as usize, value: c.receiver_index },
                Draw::Range {
                    low: MIN_FRACTION_PPM as usize,
                    high: FRACTION_SCALE as usize,
                    value: c.fraction_ppm as usize,
                },
            ]
        } else {
            Seq::empty()
        };
        let count = p.sent_computation_messages_count + if will_send { 1int } else { 0int };
        let idle: Seq<Draw> = if count >= MESSAGES_BEFORE_IDLE {
            seq![Draw::Coin { numerator: IDLE_CHANCE_TENTHS, denominator: 10, outcome: c.idle_roll }]
        } else {
            Seq::empty()
        };
        coin + picks + idle
    } else {
        Seq::empty()
    }
}

/// The calls into the random generator that a round makes: none when the
/// channel is gone, else those of its local work.
pub open spec fn round_draws(p: Process, e: Event, ids: Seq<usize>, monitored: bool, c: Choices) -> Seq<Draw> {
    match e {
        Event::Disconnected => Seq::empty(),
        _ => draws_made(after_event(p, e), ids, send_threshold(monitored), c),
    }
}

/// The machine limits a round must respect: the received weight fits the
/// weight counter, and one more sent message fits the message counter.
pub open spec fn step_fits(p: Process, e: Event) -> bool {
    &&& p.weight + carried(e) <= u64::MAX
    &&& p.sent_computation_messages_count < usize::MAX
}

// ---------------------------------------------------------------------------
// The executable process.
// ---------------------------------------------------------------------------

/// The ids of `all_process_ids` other than `me`, in order.
pub fn receiver_candidates(all_process_ids: &[usize], me: usize) -> (candidates: Vec<usize>)
    ensures
        candidates@ == others(all_process_ids@, me),
{
    let mut candidates: Vec<usize> = Vec::new();
    let mut i: usize = 0;
    while i < all_process_ids.len()
        invariant
            i <= all_process_ids@.len(),
            candidates@ == others(all_process_ids@.take(i as int), me),
        decreases all_process_ids@.len() - i,
    {
        let pid = all_process_ids[i];
        assert(all_process_ids@.take(i + 1).drop_last() == all_process_ids@.take(i as int));
        if pid != me {
            candidates.push(pid);
        }
        i = i + 1;
    }
    assert(all_process_ids@.take(i as int) == all_process_ids@);
    candidates
}

impl Process {
    /// A fresh, idle process.  The controlling agent starts with the whole
    /// weight, every other process with none.
    pub fn new(id: usize, is_controlling_agent: bool, controlling_agent_id: usize) -> (p: Process)
        ensures
            p == fresh(id, is_controlling_agent, controlling_agent_id),
    {
        let weight = if is_controlling_agent { INITIAL_WEIGHT } else { 0 };
        Process {
            id,
            is_controlling_agent,
            weight,
            state: ProcessState::Idle,
            controlling_agent_id,
            sent_computation_messages_count: 0,
        }
    }

    /// An idle process becomes active; an active one is left unchanged.
    pub fn set_active(&mut self)
        ensures
            *final(self) == activated(*old(self)),
    {
        if self.state == ProcessState::Idle {
            self.state = ProcessState::Active;
        }
    }

    /// An active process becomes idle.  Unless it is the controlling agent,
    /// a process that holds weight returns all of it in a control message to
    /// the controlling agent, which is returned for sending.
    pub fn set_idle(&mut self) -> (control: Option<Envelope>)
        ensures
            (*final(self), control) == idled(*old(self)),
    {
        if self.state == ProcessState::Active {
            self.state = ProcessState::Idle;
            if self.weight > 0 && !self.is_controlling_agent {
                let env = (
                    self.controlling_agent_id,
                    Message::Control { sender_id: self.id, weight: self.weight },
                );
                self.weight = 0;
                return Some(env);
            }
        }
        None
    }

    /// Sends `content_weight` of the process's weight to `receiver_id` in a
    /// computation message, which is returned for sending.
    pub fn send_computation_message(&mut self, receiver_id: usize, content_weight: u64) -> (env: Envelope)
        requires
            content_weight <= old(self).weight,
            old(self).sent_computation_messages_count < usize::MAX,
        ensures
            (*final(self), env) == sent(*old(self), receiver_id, content_weight),
    {
        let msg = Message::Computation { sender_id: self.id, weight: content_weight };
        self.weight = self.weight - content_weight;
        self.sent_computation_messages_count = self.sent_computation_messages_count + 1;
        (receiver_id, msg)
    }

    /// Handles what arrived on the incoming channel (rules 2 and 4).
    pub fn handle_event(&mut self, event: Event)
        requires
            old(self).weight + carried(event) <= u64::MAX,
        ensures
            *final(self) == after_event(*old(self), event),
    {
        match event {
            Event::Received(Message::Computation { weight, .. }) => {
                self.weight = self.weight + weight;
                if self.state == ProcessState::Idle {
                    self.set_active();
                }
            },
            Event::Received(Message::Control { weight, .. }) => {
                if self.is_controlling_agent {
                    self.weight = self.weight + weight;
                }
            },
            _ => {},
        }
    }

    /// One round with the random outcomes given.
    fn step_core(&mut self, event: Event, all_process_ids: &[usize], monitored: bool, choices: Choices) -> (outcome: StepOutcome)
        requires
            step_fits(*old(self), event),
            choices_fit(choices, others(all_process_ids@, old(self).id).len()),
        ensures
            (*final(self), outcome.outgoing@, outcome.stop, outcome.published@)
                == step_spec(*old(self), event, all_process_ids@, monitored, choices),
    {
        let mut outgoing: Vec<Envelope> = Vec::new();
        let mut published: Vec<Snapshot> = Vec::new();
        if let Event::Disconnected = event {
            return StepOutcome { outgoing, stop: true, published, draws: Ghost(Seq::empty()) };
        }
        let event_publish = match event {
            Event::Received(Message::Computation { .. }) => true,
            Event::Received(Message::Control { .. }) => self.is_controlling_agent,
            _ => false,
        };
        self.handle_event(event);
        let ghost q = *self;
        if monitored && event_publish {
            published.push((self.weight, self.state));
        }
        let ghost on_arrival = published@;
        let threshold = if monitored { 2 * MIN_WEIGHT_FRACTION } else { MIN_WEIGHT_FRACTION };
        if self.state == ProcessState::Active {
            let mut did_send = false;
            if self.weight > threshold && choices.send_roll {
                let candidates = receiver_candidates(all_process_ids, self.id);
                if candidates.len() > 0 {
                    let receiver_id = candidates[choices.receiver_index];
                    let sent_weight = fraction_of(self.weight, choices.fraction_ppm);
                    let env = self.send_computation_message(receiver_id, sent_weight);
                    outgoing.push(env);
                    did_send = true;
                    if monitored {
                        published.push((self.weight, self.state));
                    }
                }
            }
            assert(did_send == sends(q, all_process_ids@, threshold, choices));
            assert((*self, outgoing@) == after_send(q, all_process_ids@, threshold, choices));
            if self.sent_computation_messages_count >= MESSAGES_BEFORE_IDLE && choices.idle_roll {
                let control = self.set_idle();
                if let Some(env) = control {
                    outgoing.push(env);
                }
                self.sent_computation_messages_count = 0;
                if monitored {
                    published.push((self.weight, self.state));
                }
            } else if self.weight < MIN_WEIGHT_FRACTION && !self.is_controlling_agent {
                let control = self.set_idle();
                if let Some(env) = control {
                    outgoing.push(env);
                }
                if monitored {
                    published.push((self.weight, self.state));
                }
            }
            assert(monitored ==> published@ == on_arrival + work(q, all_process_ids@, threshold, choices).2);
        }
        StepOutcome { outgoing, stop: false, published, draws: Ghost(Seq::empty()) }
    }

    /// One round of the local logic with the random outcomes given, as an
    /// ordinary process runs it.
    pub fn run_step_with(&mut self, event: Event, all_process_ids: &[usize], choices: Choices) -> (outcome: StepOutcome)
        requires
            step_fits(*old(self), event),
            choices_fit(choices, others(all_process_ids@, old(self).id).len()),
        ensures
            (*final(self), outcome.outgoing@, outcome.stop, outcome.published@)
                == step_spec(*old(self), event, all_process_ids@, false, choices),
    {
        self.step_core(event, all_process_ids, false, choices)
    }

    /// One round of the local logic with the random outcomes given, as the
    /// monitored controlling agent runs it.
    pub fn run_with_monitoring_step_with(&mut self, event: Event, all_process_ids: &[usize], choices: Choices) -> (outcome: StepOutcome)
        requires
            step_fits(*old(self), event),
            choices_fit(choices, others(all_process_ids@, old(self).id).len()),
        ensures
            (*final(self), outcome.outgoing@, outcome.stop, outcome.published@)
                == step_spec(*old(self), event, all_process_ids@, true, choices),
    {
        self.step_core(event, all_process_ids, true, choices)
    }

    /// Draws the random outcomes of one round of local work of `probe` (the
    /// process as it is once the round's event is handled), in the order in
    /// which the round uses them: whether to send (only when the weight is
    /// above `threshold`), then the receiver and the fraction (only when
    /// there is a receiver), then whether to go idle (only after enough
    /// messages).  Outcomes that are not drawn get values that the round
    /// does not read.  Also returns the calls made.
    fn draw_choices(probe: &Process, all_process_ids: &[usize], threshold: u64, rng: &mut ThreadRng) -> (drawn: (Choices, Ghost<Seq<Draw>>))
        ensures
            choices_fit(drawn.0, others(all_process_ids@, probe.id).len()),
            drawn.1@ == draws_made(*probe, all_process_ids@, threshold, drawn.0),
    {
        let mut choices = Choices {
            send_roll: false,
            receiver_index: 0,
            fraction_ppm: MIN_FRACTION_PPM,
            idle_roll: false,
        };
        let ghost mut draws: Seq<Draw> = Seq::empty();
        if probe.state == ProcessState::Active {
            let mut will_send = false;
            if probe.weight > threshold {
                let (send_roll, Ghost(d)) = random_ratio(rng, SEND_CHANCE_TENTHS, 10);
                proof {
                    draws = draws.push(d);
                }
                if send_roll {
                    choices.send_roll = true;
                    let candidates = receiver_candidates(all_process_ids, probe.id);
                    if candidates.len() > 0 {
                        let (index, Ghost(d1)) = random_range(rng, 0, candidates.len());
                        let (ppm, Ghost(d2)) = random_range(
                            rng,
                            MIN_FRACTION_PPM as usize,
                            FRACTION_SCALE as usize,
                        );
                        proof {
                            draws = draws.push(d1).push(d2);
                        }
                        choices.receiver_index = index;
                        choices.fraction_ppm = ppm as u64;
                        will_send = true;
                    }
                }
            }
            let enough_sent = if will_send {
                probe.sent_computation_messages_count >= MESSAGES_BEFORE_IDLE - 1
            } else {
                probe.sent_computation_messages_count >= MESSAGES_BEFORE_IDLE
            };
            if enough_sent {
                let (idle_roll, Ghost(d)) = random_ratio(rng, IDLE_CHANCE_TENTHS, 10);
                proof {
                    draws = draws.push(d);
                }
                choices.idle_roll = idle_roll;
            }
        }
        assert(draws == draws_made(*probe, all_process_ids@, threshold, choices));
        (choices, Ghost(draws))
    }

    /// One round with the random outcomes drawn from `rng`.  Whatever is
    /// drawn, the round is the one `step_spec` gives for the fitting
    /// outcomes drawn, and the calls into the generator are those
    /// `round_draws` lists for them.
    fn random_round(&mut self, event: Event, all_process_ids: &[usize], monitored: bool, rng: &mut ThreadRng) -> (outcome: StepOutcome)
        requires
            step_fits(*old(self), event),
        ensures
            exists|c: Choices|
                #![trigger step_spec(*old(self), event, all_process_ids@, monitored, c)]
                choices_fit(c, others(all_process_ids@, old(self).id).len())
                    && (*final(self), outcome.outgoing@, outcome.stop, outcome.published@)
                    == step_spec(*old(self), event, all_process_ids@, monitored, c)
                    && outcome.draws@ == round_draws(*old(self), event, all_process_ids@, monitored, c),
    {
        let mut choices = Choices {
            send_roll: false,
            receiver_index: 0,
            fraction_ppm: MIN_FRACTION_PPM,
            idle_roll: false,
        };
        let ghost mut draws: Seq<Draw> = Seq::empty();
        if let Event::Disconnected = event {
        } else {
            let mut probe = *self;
            probe.handle_event(event);
            let threshold = if monitored { 2 * MIN_WEIGHT_FRACTION } else { MIN_WEIGHT_FRACTION };
            let (c, Ghost(d)) = Self::draw_choices(&probe, all_process_ids, threshold, rng);
            choices = c;
            proof {
                draws = d;
            }
        }
        let mut outcome = self.step_core(event, all_process_ids, monitored, choices);
        outcome.draws = Ghost(draws);
        outcome
    }

    /// One round of an ordinary process: handle `event`, then do local work
    /// with the random outcomes drawn from `rng`.
    pub fn run_step(&mut self, event: Event, all_process_ids: &[usize], rng: &mut ThreadRng) -> (outcome: StepOutcome)
        requires
            step_fits(*old(self), event),
        ensures
            exists|c: Choices|
                #![trigger step_spec(*old(self), event, all_process_ids@, false, c)]
                choices_fit(c, others(all_process_ids@, old(self).id).len())
                    && (*final(self), outcome.outgoing@, outcome.stop, outcome.published@)
                    == step_spec(*old(self), event, all_process_ids@, false, c)
                    && outcome.draws@ == round_draws(*old(self), event, all_process_ids@, false, c),
    {
        self.random_round(event, all_process_ids, false, rng)
    }

    /// One round of the monitored controlling agent: handle `event`, then do
    /// local work with the random outcomes drawn from `rng`.
    pub fn run_with_monitoring_step(&mut self, event: Event, all_process_ids: &[usize], rng: &mut ThreadRng) -> (outcome: StepOutcome)
        requires
            step_fits(*old(self), event),
        ensures
            exists|c: Choices|
                #![trigger step_spec(*old(self), event, all_process_ids@, true, c)]
                choices_fit(c, others(all_process_ids@, old(self).id).len())
                    && (*final(self), outcome.outgoing@, outcome.stop, outcome.published@)
                    == step_spec(*old(self), event, all_process_ids@, true, c)
                    && outcome.draws@ == round_draws(*old(self), event, all_process_ids@, true, c),
    {
        self.random_round(event, all_process_ids, true, rng)
    }
}

} // verus!
