//! What a process does, stated directly in terms of its inputs: a fresh
//! process, the arrival of an event, and the sending, idling and drawing of
//! one round.  Each law is stated independently of how the rules are
//! written down in `process.rs`.
use vstd::prelude::*;
use crate::message::{Event, Message, ProcessState};
use crate::message::Envelope;
use crate::monitor::recovered;
use crate::process::{
    activated, after_event, choices_fit, fresh, idled, others, round_draws, sent, step_fits,
    step_spec, Choices, Process, IDLE_CHANCE_TENTHS, MESSAGES_BEFORE_IDLE, SEND_CHANCE_TENTHS,
};
use crate::randomness::Draw;
use crate::weight::{
    fraction_spec, lemma_fraction_at_most_whole, FRACTION_SCALE, INITIAL_WEIGHT, MIN_FRACTION_PPM,
    MIN_WEIGHT_FRACTION,
};

verus! {

/// The weight a process holds once `e` has arrived: a computation message
/// always adds its weight, a control message only at the controlling agent.
pub open spec fn weight_on_arrival(p: Process, e: Event) -> int {
    match e {
        Event::Received(Message::Computation { weight, .. }) => p.weight + weight,
        Event::Received(Message::Control { weight, .. }) => if p.is_controlling_agent {
            p.weight + weight
        } else {
            p.weight as int
        },
        _ => p.weight as int,
    }
}

/// Whether a process is active once `e` has arrived: it was, or work came.
pub open spec fn active_on_arrival(p: Process, e: Event) -> bool {
    p.state == ProcessState::Active || e matches Event::Received(Message::Computation { .. })
}

/// The weight above which a process sends: a tenth of the whole in an
/// ordinary round, two tenths in the monitored round of the agent.
pub open spec fn sending_threshold(monitored: bool) -> int {
    if monitored {
        200_000_000
    } else {
        100_000_000
    }
}

/// Whether the round sends a computation message: the process is active,
/// holds more than the threshold, the send coin came up and there is
/// somebody to send to; how many messages it sent before does not matter.
pub open spec fn sends_in_round(p: Process, e: Event, ids: Seq<usize>, monitored: bool, c: Choices) -> bool {
    &&& active_on_arrival(p, e)
    &&& weight_on_arrival(p, e) > sending_threshold(monitored)
    &&& c.send_roll
    &&& others(ids, p.id).len() > 0
}

/// The weight a computation message of the round carries.
pub open spec fn share_in_round(p: Process, e: Event, c: Choices) -> int {
    (weight_on_arrival(p, e) * c.fraction_ppm / 1_000_000) as int
}

/// The weight the process keeps after the sending part of the round.
pub open spec fn kept_in_round(p: Process, e: Event, ids: Seq<usize>, monitored: bool, c: Choices) -> int {
    if sends_in_round(p, e, ids, monitored, c) {
        weight_on_arrival(p, e) - share_in_round(p, e, c)
    } else {
        weight_on_arrival(p, e)
    }
}

/// The number of computation messages sent so far, counting the round's.
pub open spec fn count_in_round(p: Process, e: Event, ids: Seq<usize>, monitored: bool, c: Choices) -> int {
    p.sent_computation_messages_count + if sends_in_round(p, e, ids, monitored, c) {
        1int
    } else {
        0int
    }
}

/// Whether the process goes idle by choice: it is active, has sent enough
/// messages, and the idle coin came up.
pub open spec fn idles_by_choice(p: Process, e: Event, ids: Seq<usize>, monitored: bool, c: Choices) -> bool {
    &&& active_on_arrival(p, e)
    &&& count_in_round(p, e, ids, monitored, c) >= 2
    &&& c.idle_roll
}

/// A fresh process has its id, role and agent, has sent no message, is
/// idle, and holds the whole weight if it is the controlling agent and none
/// otherwise.
pub proof fn lemma_fresh_process(id: usize, is_controlling_agent: bool, controlling_agent_id: usize)
    ensures
        fresh(id, is_controlling_agent, controlling_agent_id).id == id,
        fresh(id, is_controlling_agent, controlling_agent_id).is_controlling_agent == is_controlling_agent,
        fresh(id, is_controlling_agent, controlling_agent_id).controlling_agent_id == controlling_agent_id,
        fresh(id, is_controlling_agent, controlling_agent_id).sent_computation_messages_count == 0,
        fresh(id, is_controlling_agent, controlling_agent_id).state == ProcessState::Idle,
        fresh(id, is_controlling_agent, controlling_agent_id).weight == if is_controlling_agent {
            1_000_000_000int
        } else {
            0int
        },
{
}

/// The arrival of an event changes only the weight (by what it brings in)
/// and the state (a computation message activates the process); a control
/// message in particular leaves the state of the controlling agent alone.
pub proof fn lemma_arrival(p: Process, e: Event)
    requires
        p.weight + match e {
            Event::Received(m) => m.weight_spec(),
            _ => 0,
        } <= u64::MAX,
    ensures
        after_event(p, e).weight == weight_on_arrival(p, e),
        after_event(p, e).state == if e matches Event::Received(Message::Computation { .. }) {
            ProcessState::Active
        } else {
            p.state
        },
        after_event(p, e).id == p.id,
        after_event(p, e).is_controlling_agent == p.is_controlling_agent,
        after_event(p, e).controlling_agent_id == p.controlling_agent_id,
        after_event(p, e).sent_computation_messages_count == p.sent_computation_messages_count,
{
}

/// A disconnected channel stops the process and changes nothing.
pub proof fn lemma_disconnected_round(p: Process, ids: Seq<usize>, monitored: bool, c: Choices)
    ensures
        step_spec(p, Event::Disconnected, ids, monitored, c).0 == p,
        step_spec(p, Event::Disconnected, ids, monitored, c).1.len() == 0,
        step_spec(p, Event::Disconnected, ids, monitored, c).2,
        round_draws(p, Event::Disconnected, ids, monitored, c).len() == 0,
{
}

/// How the round's helpers of `process.rs` read in the terms of this file.
proof fn lemma_round_terms(p: Process, e: Event, ids: Seq<usize>, monitored: bool, c: Choices)
    requires
        !(e is Disconnected),
        step_fits(p, e),
        choices_fit(c, others(ids, p.id).len()),
    ensures
        after_event(p, e).weight == weight_on_arrival(p, e),
        (after_event(p, e).state == ProcessState::Active) == active_on_arrival(p, e),
        after_event(p, e).id == p.id,
        after_event(p, e).sent_computation_messages_count == p.sent_computation_messages_count,
        crate::process::sends(after_event(p, e), ids, crate::process::send_threshold(monitored), c)
            == sends_in_round(p, e, ids, monitored, c),
        fraction_spec(after_event(p, e).weight as nat, c.fraction_ppm as nat) == share_in_round(p, e, c),
        0 <= share_in_round(p, e, c) <= weight_on_arrival(p, e),
{
    let q = after_event(p, e);
    lemma_arrival(p, e);
    lemma_fraction_at_most_whole(q.weight as nat, c.fraction_ppm as nat);
    assert(q.weight as nat * c.fraction_ppm as nat >= 0) by (nonlinear_arith);
}

/// The sending part of a round.  When the process is active, holds more
/// than the threshold, the send coin came up and there is somebody else, it
/// sends exactly one computation message, first, to the chosen other id,
/// carrying the chosen fraction of its weight (rounded down), however many
/// messages it sent before.  Otherwise it sends no computation message.
/// Any other message is a control message to the controlling agent that
/// returns all the weight the process kept, sent by a process other than
/// the agent as it goes idle.
pub proof fn lemma_round_sending(p: Process, e: Event, ids: Seq<usize>, monitored: bool, c: Choices)
    requires
        !(e is Disconnected),
        step_fits(p, e),
        choices_fit(c, others(ids, p.id).len()),
    ensures
        ({
            let r = step_spec(p, e, ids, monitored, c);
            &&& sends_in_round(p, e, ids, monitored, c) ==> r.1.len() >= 1 && r.1[0] == (
                others(ids, p.id)[c.receiver_index as int],
                Message::Computation { sender_id: p.id, weight: share_in_round(p, e, c) as u64 },
            )
            &&& forall|k: int|
                0 <= k < r.1.len() && (#[trigger] r.1[k]).1 is Computation ==> k == 0
                    && sends_in_round(p, e, ids, monitored, c)
            &&& forall|k: int|
                0 <= k < r.1.len() && (#[trigger] r.1[k]).1 is Control ==> r.1[k] == (
                    p.controlling_agent_id,
                    Message::Control {
                        sender_id: p.id,
                        weight: kept_in_round(p, e, ids, monitored, c) as u64,
                    },
                ) && !p.is_controlling_agent && r.0.state == ProcessState::Idle
                    && kept_in_round(p, e, ids, monitored, c) > 0
        }),
{
    lemma_round_terms(p, e, ids, monitored, c);
    let r = step_spec(p, e, ids, monitored, c);
    let q = after_event(p, e);
    let threshold = crate::process::send_threshold(monitored);
    if q.state == ProcessState::Active {
        let s = crate::process::after_send(q, ids, threshold, c);
        let i = crate::process::idled(s.0);
        assert forall|k: int| 0 <= k < r.1.len() && (#[trigger] r.1[k]).1 is Control implies r.1[k] == (
            p.controlling_agent_id,
            Message::Control { sender_id: p.id, weight: kept_in_round(p, e, ids, monitored, c) as u64 },
        ) && !p.is_controlling_agent && r.0.state == ProcessState::Idle
            && kept_in_round(p, e, ids, monitored, c) > 0 by {
            if k < s.1.len() {
                assert(r.1[k] == s.1[k]);
            } else {
                assert(r.1[k] == crate::process::opt_seq(i.1)[k - s.1.len()]);
            }
        }
        assert forall|k: int| 0 <= k < r.1.len() && (#[trigger] r.1[k]).1 is Computation implies k == 0
            && sends_in_round(p, e, ids, monitored, c) by {
            if k < s.1.len() {
                assert(r.1[k] == s.1[k]);
            } else {
                assert(r.1[k] == crate::process::opt_seq(i.1)[k - s.1.len()]);
            }
        }
    }
}

/// The state, weight and message count after a round.  A process goes idle
/// by choice when it is active, has sent at least two messages counting
/// this round's, and the idle coin came up; its count starts afresh.
/// Otherwise its count is the messages sent so far, and:
/// - the controlling agent ends the round in the state it was in once the
///   event arrived (a lack of weight never makes it idle);
/// - any other process ends it idle exactly when it was idle on arrival or
///   kept less than a tenth of the whole weight.
/// A process other than the agent that goes idle holds no weight; every
/// other process keeps what it did not send.
pub proof fn lemma_round_state(p: Process, e: Event, ids: Seq<usize>, monitored: bool, c: Choices)
    requires
        !(e is Disconnected),
        step_fits(p, e),
        choices_fit(c, others(ids, p.id).len()),
    ensures
        ({
            let r = step_spec(p, e, ids, monitored, c);
            &&& idles_by_choice(p, e, ids, monitored, c) ==> r.0.state == ProcessState::Idle
                && r.0.sent_computation_messages_count == 0
            &&& !idles_by_choice(p, e, ids, monitored, c) ==> r.0.sent_computation_messages_count
                == count_in_round(p, e, ids, monitored, c)
            &&& !idles_by_choice(p, e, ids, monitored, c) && p.is_controlling_agent ==> r.0.state
                == if active_on_arrival(p, e) {
                ProcessState::Active
            } else {
                ProcessState::Idle
            }
            &&& !idles_by_choice(p, e, ids, monitored, c) && !p.is_controlling_agent ==> (r.0.state
                == ProcessState::Idle <==> (!active_on_arrival(p, e) || kept_in_round(
                p,
                e,
                ids,
                monitored,
                c,
            ) < 100_000_000))
            &&& r.0.weight == if !p.is_controlling_agent && active_on_arrival(p, e) && r.0.state
                == ProcessState::Idle {
                0
            } else {
                kept_in_round(p, e, ids, monitored, c)
            }
        }),
{
    lemma_round_terms(p, e, ids, monitored, c);
}

/// Each choice the round acts on is the outcome of the draw recorded for
/// it.  When the idle coin is drawn and comes up, the process ends the
/// round idle with its count afresh; when it is drawn and does not come up,
/// the controlling agent ends the round active.  When the send coin comes
/// up and the receiver and fraction are drawn, the round sends the drawn
/// fraction of its weight to the drawn receiver.
pub proof fn lemma_drawn_outcomes(p: Process, e: Event, ids: Seq<usize>, monitored: bool, c: Choices)
    requires
        !(e is Disconnected),
        step_fits(p, e),
        choices_fit(c, others(ids, p.id).len()),
    ensures
        ({
            let r = step_spec(p, e, ids, monitored, c);
            let d = round_draws(p, e, ids, monitored, c);
            &&& d.contains(Draw::Coin { numerator: IDLE_CHANCE_TENTHS, denominator: 10, outcome: true })
                ==> r.0.state == ProcessState::Idle && r.0.sent_computation_messages_count == 0
            &&& d.contains(Draw::Coin { numerator: IDLE_CHANCE_TENTHS, denominator: 10, outcome: false })
                && p.is_controlling_agent ==> r.0.state == ProcessState::Active
            &&& forall|v: usize, f: usize|
                #![trigger d.contains(Draw::Range { low: 0, high: others(ids, p.id).len() as usize, value: v }), d.contains(Draw::Range { low: MIN_FRACTION_PPM as usize, high: FRACTION_SCALE as usize, value: f })]
                d.contains(Draw::Range { low: 0, high: others(ids, p.id).len() as usize, value: v })
                    && d.contains(
                    Draw::Range {
                        low: MIN_FRACTION_PPM as usize,
                        high: FRACTION_SCALE as usize,
                        value: f,
                    },
                ) ==> r.1.len() >= 1 && r.1[0] == (
                    others(ids, p.id)[v as int],
                    Message::Computation {
                        sender_id: p.id,
                        weight: (weight_on_arrival(p, e) * f / 1_000_000) as u64,
                    },
                )
        }),
{
    lemma_round_terms(p, e, ids, monitored, c);
    lemma_round_state(p, e, ids, monitored, c);
    lemma_round_sending(p, e, ids, monitored, c);
    let d = round_draws(p, e, ids, monitored, c);
    let q = after_event(p, e);
    let threshold = crate::process::send_threshold(monitored);
    if q.state == ProcessState::Active {
        let n = others(ids, q.id).len();
        let coin: Seq<Draw> = if q.weight > threshold {
            seq![Draw::Coin { numerator: SEND_CHANCE_TENTHS, denominator: 10, outcome: c.send_roll }]
        } else {
            Seq::empty()
        };
        let will_send = q.weight > threshold && c.send_roll && n > 0;
        let picks: Seq<Draw> = if will_send {
            seq![
                Draw::Range { low: 0, high: n as usize, value: c.receiver_index },
                Draw::Range {
                    low: MIN_FRACTION_PPM as usize,
                    high: FRACTION_SCALE as usize,
                    value: c.fraction_ppm as usize,
                },
            ]
        } else {
            Seq::empty()
        };
        let count = q.sent_computation_messages_count + if will_send { 1int } else { 0int };
        let idle: Seq<Draw> = if count >= MESSAGES_BEFORE_IDLE {
            seq![Draw::Coin { numerator: IDLE_CHANCE_TENTHS, denominator: 10, outcome: c.idle_roll }]
        } else {
            Seq::empty()
        };
        assert(d == coin + picks + idle);
        // Where each kind of draw can stand.
        assert forall|x: Draw| d.contains(x) implies coin.contains(x) || picks.contains(x) || idle.contains(x) by {
            let k = choose|k: int| 0 <= k < d.len() && d[k] == x;
            if k < coin.len() {
                assert(coin[k] == x);
            } else if k < coin.len() + picks.len() {
                assert(picks[k - coin.len()] == x);
            } else {
                assert(idle[k - coin.len() - picks.len()] == x);
            }
        }
        assert forall|v: usize, f: usize|
            d.contains(Draw::Range { low: 0, high: others(ids, p.id).len() as usize, value: v })
                && d.contains(
                Draw::Range { low: MIN_FRACTION_PPM as usize, high: FRACTION_SCALE as usize, value: f },
            ) implies r_first(p, e, ids, monitored, c, v, f) by {
            let x = Draw::Range { low: 0, high: others(ids, p.id).len() as usize, value: v };
            let y = Draw::Range { low: MIN_FRACTION_PPM as usize, high: FRACTION_SCALE as usize, value: f };
            assert(coin.contains(x) || picks.contains(x) || idle.contains(x));
            assert(coin.contains(y) || picks.contains(y) || idle.contains(y));
            assert(picks.contains(x));
            assert(picks.len() == 2);
            assert(x == picks[0] || x == picks[1]);
            assert(y == picks[0] || y == picks[1]);
            assert(v == c.receiver_index);
            assert(f == c.fraction_ppm);
        }
    } else {
        assert(d.len() == 0);
    }
}

/// Whether the process goes idle in the round: by choice, or, for a process
/// other than the agent, because it kept less than a tenth of the weight.
pub open spec fn idles_in_round(p: Process, e: Event, ids: Seq<usize>, monitored: bool, c: Choices) -> bool {
    ||| idles_by_choice(p, e, ids, monitored, c)
    ||| !p.is_controlling_agent && active_on_arrival(p, e) && kept_in_round(p, e, ids, monitored, c)
        < 100_000_000
}

/// The calls into the random generator a round makes, each with the
/// outcome the round acts on: a 3-in-10 send coin when the process is
/// active and holds more than the threshold; when the round sends, a
/// receiver index below the number of other ids and a fraction in parts per
/// million in `[100_000, 1_000_000)`; and a 6-in-10 idle coin when the
/// process is active and has sent at least two messages, counting the
/// round's.
pub proof fn lemma_round_draws(p: Process, e: Event, ids: Seq<usize>, monitored: bool, c: Choices)
    requires
        !(e is Disconnected),
        step_fits(p, e),
        choices_fit(c, others(ids, p.id).len()),
    ensures
        round_draws(p, e, ids, monitored, c) == ({
            let coin: Seq<Draw> = if active_on_arrival(p, e) && weight_on_arrival(p, e)
                > sending_threshold(monitored) {
                seq![Draw::Coin { numerator: 3, denominator: 10, outcome: c.send_roll }]
            } else {
                Seq::empty()
            };
            let picks: Seq<Draw> = if sends_in_round(p, e, ids, monitored, c) {
                seq![
                    Draw::Range {
                        low: 0,
                        high: others(ids, p.id).len() as usize,
                        value: c.receiver_index,
                    },
                    Draw::Range { low: 100_000, high: 1_000_000, value: c.fraction_ppm as usize },
                ]
            } else {
                Seq::empty()
            };
            let idle: Seq<Draw> = if active_on_arrival(p, e) && count_in_round(p, e, ids, monitored, c)
                >= 2 {
                seq![Draw::Coin { numerator: 6, denominator: 10, outcome: c.idle_roll }]
            } else {
                Seq::empty()
            };
            coin + picks + idle
        }),
{
    lemma_round_terms(p, e, ids, monitored, c);
}

/// What a monitored round publishes, in order: the weight and state on
/// arrival of a message that changes them (a computation message, or a
/// control message at the agent); the weight kept, still active, after a
/// send; and the weight and idle state after going idle.  An ordinary round
/// publishes nothing.
pub proof fn lemma_round_published(p: Process, e: Event, ids: Seq<usize>, monitored: bool, c: Choices)
    requires
        !(e is Disconnected),
        step_fits(p, e),
        choices_fit(c, others(ids, p.id).len()),
    ensures
        ({
            let r = step_spec(p, e, ids, monitored, c);
            let arrival: Seq<(u64, ProcessState)> = if e matches Event::Received(
                Message::Computation { .. },
            ) || (e matches Event::Received(Message::Control { .. }) && p.is_controlling_agent) {
                seq![
                    (
                        weight_on_arrival(p, e) as u64,
                        if active_on_arrival(p, e) {
                            ProcessState::Active
                        } else {
                            ProcessState::Idle
                        },
                    ),
                ]
            } else {
                Seq::empty()
            };
            let after_send: Seq<(u64, ProcessState)> = if sends_in_round(p, e, ids, monitored, c) {
                seq![(kept_in_round(p, e, ids, monitored, c) as u64, ProcessState::Active)]
            } else {
                Seq::empty()
            };
            let after_idle: Seq<(u64, ProcessState)> = if idles_in_round(p, e, ids, monitored, c) {
                seq![(r.0.weight, ProcessState::Idle)]
            } else {
                Seq::empty()
            };
            &&& monitored ==> r.3 == arrival + after_send + after_idle
            &&& !monitored ==> r.3.len() == 0
        }),
{
    lemma_round_terms(p, e, ids, monitored, c);
    lemma_round_state(p, e, ids, monitored, c);
}

/// Going idle: an active process becomes idle; one other than the agent
/// that holds weight returns all of it in a control message to the agent
/// and keeps none, the agent keeps its weight; an idle process is left
/// alone.  Nothing else changes.
pub proof fn lemma_going_idle(p: Process)
    ensures
        idled(p).0.id == p.id,
        idled(p).0.is_controlling_agent == p.is_controlling_agent,
        idled(p).0.controlling_agent_id == p.controlling_agent_id,
        idled(p).0.sent_computation_messages_count == p.sent_computation_messages_count,
        idled(p).0.state == ProcessState::Idle,
        p.state == ProcessState::Idle ==> idled(p) == (p, None::<Envelope>),
        p.state == ProcessState::Active && !p.is_controlling_agent && p.weight > 0 ==> idled(p).0.weight
            == 0 && idled(p).1 == Some(
            (p.controlling_agent_id, Message::Control { sender_id: p.id, weight: p.weight }),
        ),
        p.state == ProcessState::Active && (p.is_controlling_agent || p.weight == 0) ==> idled(p).0.weight
            == p.weight && idled(p).1 is None,
{
}

/// Sending a computation message: the sender keeps its weight less the
/// content, counts one more message, and addresses the content to the
/// receiver in its own name; nothing else changes.
pub proof fn lemma_sending(p: Process, receiver_id: usize, content_weight: u64)
    requires
        content_weight <= p.weight,
        p.sent_computation_messages_count < usize::MAX,
    ensures
        sent(p, receiver_id, content_weight).0.weight + content_weight == p.weight,
        sent(p, receiver_id, content_weight).0.sent_computation_messages_count
            == p.sent_computation_messages_count + 1,
        sent(p, receiver_id, content_weight).0.state == p.state,
        sent(p, receiver_id, content_weight).0.id == p.id,
        sent(p, receiver_id, content_weight).0.is_controlling_agent == p.is_controlling_agent,
        sent(p, receiver_id, content_weight).0.controlling_agent_id == p.controlling_agent_id,
        sent(p, receiver_id, content_weight).1 == (
            receiver_id,
            Message::Computation { sender_id: p.id, weight: content_weight },
        ),
{
}

/// Waking up: an idle process becomes active, an active one stays so;
/// nothing else changes.
pub proof fn lemma_waking(p: Process)
    ensures
        activated(p).state == ProcessState::Active,
        activated(p).weight == p.weight,
        activated(p).id == p.id,
        activated(p).is_controlling_agent == p.is_controlling_agent,
        activated(p).controlling_agent_id == p.controlling_agent_id,
        activated(p).sent_computation_messages_count == p.sent_computation_messages_count,
{
}

/// The test that an id is not `me`.
pub open spec fn other_than(me: usize) -> spec_fn(usize) -> bool {
    |x: usize| x != me
}

/// The candidates for receiving are exactly the ids other than the
/// process's own, in their order.
pub proof fn lemma_candidates(ids: Seq<usize>, me: usize)
    ensures
        others(ids, me) == ids.filter(other_than(me)),
    decreases ids.len(),
{
    if ids.len() > 0 {
        lemma_candidates(ids.drop_last(), me);
        reveal(Seq::filter);
        assert(ids.filter(other_than(me)) == {
            let sub = ids.drop_last().filter(other_than(me));
            if other_than(me)(ids.last()) {
                sub.push(ids.last())
            } else {
                sub
            }
        });
    }
}

/// A share is the given parts per million of the weight, rounded down.
pub proof fn lemma_share(weight: nat, ppm: nat)
    ensures
        fraction_spec(weight, ppm) == weight * ppm / 1_000_000,
{
}

/// The controlling agent counts as holding the whole weight when less than
/// a thousandth of it is missing.
pub proof fn lemma_recovered(ca_weight: u64)
    ensures
        recovered(ca_weight) <==> ca_weight > 999_000_000,
{
}

/// The first message of the round, for the receiver and fraction `v`, `f`.
spec fn r_first(p: Process, e: Event, ids: Seq<usize>, monitored: bool, c: Choices, v: usize, f: usize) -> bool {
    let r = step_spec(p, e, ids, monitored, c);
    r.1.len() >= 1 && r.1[0] == (
        others(ids, p.id)[v as int],
        Message::Computation { sender_id: p.id, weight: (weight_on_arrival(p, e) * f / 1_000_000) as u64 },
    )
}

} // verus!
