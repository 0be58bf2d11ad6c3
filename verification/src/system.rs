//! Laws of the protocol: what every round of a process keeps, and what the
//! whole system of processes and messages in transit keeps, up to the
//! soundness of termination detection.
use vstd::prelude::*;
use crate::message::{Envelope, Event, ProcessState};
use crate::process::{
    absorbed, after_event, after_send, carried, choices_fit, fresh, idled, opt_seq, others, send_threshold,
    sends, snapshot, step_fits, step_spec, work, Choices, Process,
};
use crate::sums::{
    lemma_sum_concat, lemma_sum_elem_le, lemma_sum_remove, lemma_sum_single, lemma_sum_two_le,
    lemma_sum_update, sum_nat,
};
use crate::monitor::recovered;
use crate::weight::{
    lemma_fraction_strictly_between, INITIAL_WEIGHT, MIN_SHARE, MIN_WEIGHT_FRACTION,
    TERMINATION_TOLERANCE,
};

verus! {

/// The weights of a sequence of processes.
pub open spec fn process_weights(ps: Seq<Process>) -> Seq<nat> {
    ps.map_values(|p: Process| p.weight as nat)
}

/// The weights carried by a sequence of messages.
pub open spec fn message_weights(ms: Seq<Envelope>) -> Seq<nat> {
    ms.map_values(|env: Envelope| env.1.weight_spec())
}

/// The ids `0, 1, ..., n - 1` of a system of `n` processes.
pub open spec fn process_ids(n: nat) -> Seq<usize> {
    Seq::new(n, |k: int| k as usize)
}

/// Every member of `others(ids, me)` is a member of `ids` other than `me`.
pub proof fn lemma_others_members(ids: Seq<usize>, me: usize)
    ensures
        forall|k: int|
            0 <= k < others(ids, me).len() ==> ids.contains(#[trigger] others(ids, me)[k])
                && others(ids, me)[k] != me,
    decreases ids.len(),
{
    if ids.len() > 0 {
        lemma_others_members(ids.drop_last(), me);
        let rest = others(ids.drop_last(), me);
        assert forall|k: int| 0 <= k < others(ids, me).len() implies ids.contains(
            #[trigger] others(ids, me)[k],
        ) && others(ids, me)[k] != me by {
            if k < rest.len() {
                let x = rest[k];
                assert(ids.drop_last().contains(x));
                let t = choose|t: int| 0 <= t < ids.drop_last().len() && ids.drop_last()[t] == x;
                assert(ids[t] == x);
            } else {
                assert(ids[ids.len() - 1] == ids.last());
            }
        }
    }
}

proof fn lemma_message_weights_concat(a: Seq<Envelope>, b: Seq<Envelope>)
    ensures
        sum_nat(message_weights(a + b)) == sum_nat(message_weights(a)) + sum_nat(message_weights(b)),
{
    assert(message_weights(a + b) =~= message_weights(a) + message_weights(b));
    lemma_sum_concat(message_weights(a), message_weights(b));
}

proof fn lemma_message_weights_single(env: Envelope)
    ensures
        sum_nat(message_weights(seq![env])) == env.1.weight_spec(),
{
    assert(message_weights(seq![env]) =~= seq![env.1.weight_spec()]);
    lemma_sum_single(env.1.weight_spec());
}

proof fn lemma_message_weights_opt(o: Option<Envelope>)
    ensures
        sum_nat(message_weights(opt_seq(o))) == (match o {
            Some(env) => env.1.weight_spec(),
            None => 0,
        }),
{
    match o {
        Some(env) => lemma_message_weights_single(env),
        None => {
            assert(message_weights(opt_seq(o)) =~= Seq::<nat>::empty());
        },
    }
}

/// Rule 3 keeps the weight: the weight left to the process plus the weight
/// it returns is the weight it had.
proof fn lemma_idled_conserves(p: Process)
    ensures
        idled(p).0.weight + sum_nat(message_weights(opt_seq(idled(p).1))) == p.weight,
{
    lemma_message_weights_opt(idled(p).1);
}

/// The sending part of local work keeps the weight.
proof fn lemma_after_send_conserves(p: Process, ids: Seq<usize>, threshold: u64, c: Choices)
    requires
        choices_fit(c, others(ids, p.id).len()),
        p.sent_computation_messages_count < usize::MAX,
    ensures
        after_send(p, ids, threshold, c).0.weight + sum_nat(message_weights(after_send(p, ids, threshold, c).1))
            == p.weight,
        after_send(p, ids, threshold, c).0.id == p.id,
        after_send(p, ids, threshold, c).0.is_controlling_agent == p.is_controlling_agent,
        after_send(p, ids, threshold, c).0.controlling_agent_id == p.controlling_agent_id,
        after_send(p, ids, threshold, c).0.state == p.state,
{
    let s = after_send(p, ids, threshold, c);
    if sends(p, ids, threshold, c) {
        crate::weight::lemma_fraction_at_most_whole(p.weight as nat, c.fraction_ppm as nat);
        lemma_message_weights_single(s.1[0]);
        assert(s.1 =~= seq![s.1[0]]);
    } else {
        assert(message_weights(s.1) =~= Seq::<nat>::empty());
    }
}

/// Local work keeps the weight: the weight left plus the weight sent is the
/// weight the process had.
proof fn lemma_work_conserves(p: Process, ids: Seq<usize>, threshold: u64, c: Choices)
    requires
        choices_fit(c, others(ids, p.id).len()),
        p.sent_computation_messages_count < usize::MAX,
    ensures
        work(p, ids, threshold, c).0.weight + sum_nat(message_weights(work(p, ids, threshold, c).1)) == p.weight,
{
    if p.state == ProcessState::Active {
        let s = after_send(p, ids, threshold, c);
        lemma_after_send_conserves(p, ids, threshold, c);
        let i = idled(s.0);
        lemma_idled_conserves(s.0);
        lemma_message_weights_concat(s.1, opt_seq(i.1));
    } else {
        assert(message_weights(Seq::<Envelope>::empty()) =~= Seq::<nat>::empty());
    }
}

/// Weight is conserved by every round of a process: the weight it ends with
/// plus the weight of the messages it sends equals the weight it started
/// with plus the weight it absorbed from the event.
pub proof fn lemma_round_conserves_weight(p: Process, e: Event, ids: Seq<usize>, monitored: bool, c: Choices)
    requires
        step_fits(p, e),
        choices_fit(c, others(ids, p.id).len()),
    ensures
        step_spec(p, e, ids, monitored, c).0.weight + sum_nat(message_weights(step_spec(p, e, ids, monitored, c).1))
            == p.weight + absorbed(p, e),
{
    match e {
        Event::Disconnected => {
            assert(message_weights(Seq::<Envelope>::empty()) =~= Seq::<nat>::empty());
        },
        _ => {
            let q = after_event(p, e);
            assert(q.id == p.id);
            lemma_work_conserves(q, ids, send_threshold(monitored), c);
        },
    }
}

/// What a round leaves of a process's identity: its id, its role and the id
/// of the controlling agent never change.
pub proof fn lemma_round_keeps_identity(p: Process, e: Event, ids: Seq<usize>, monitored: bool, c: Choices)
    requires
        step_fits(p, e),
        choices_fit(c, others(ids, p.id).len()),
    ensures
        step_spec(p, e, ids, monitored, c).0.id == p.id,
        step_spec(p, e, ids, monitored, c).0.is_controlling_agent == p.is_controlling_agent,
        step_spec(p, e, ids, monitored, c).0.controlling_agent_id == p.controlling_agent_id,
{
    match e {
        Event::Disconnected => {},
        _ => {
            let q = after_event(p, e);
            lemma_after_send_conserves(q, ids, send_threshold(monitored), c);
        },
    }
}

/// Every message a round sends carries weight, a computation message at
/// least `MIN_SHARE`; a computation message goes to one of the other ids, a
/// control message to the controlling agent.
pub proof fn lemma_round_messages(p: Process, e: Event, ids: Seq<usize>, monitored: bool, c: Choices)
    requires
        step_fits(p, e),
        choices_fit(c, others(ids, p.id).len()),
    ensures
        forall|k: int|
            #![trigger step_spec(p, e, ids, monitored, c).1[k]]
            0 <= k < step_spec(p, e, ids, monitored, c).1.len() ==> {
                let env = step_spec(p, e, ids, monitored, c).1[k];
                &&& env.1.weight_spec() > 0
                &&& env.1 is Computation ==> env.1.weight_spec() >= MIN_SHARE
                &&& env.1 is Computation ==> others(ids, p.id).contains(env.0)
                &&& env.1 is Control ==> env.0 == p.controlling_agent_id
            },
{
    let r = step_spec(p, e, ids, monitored, c);
    match e {
        Event::Disconnected => {},
        _ => {
            let q = after_event(p, e);
            let threshold = send_threshold(monitored);
            if q.state == ProcessState::Active {
                let s = after_send(q, ids, threshold, c);
                lemma_after_send_conserves(q, ids, threshold, c);
                if sends(q, ids, threshold, c) {
                    lemma_fraction_strictly_between(q.weight as nat, c.fraction_ppm as nat);
                    let cands = others(ids, q.id);
                    assert(cands.contains(cands[c.receiver_index as int]));
                }
                let i = idled(s.0);
                assert forall|k: int| 0 <= k < r.1.len() implies {
                    let env = #[trigger] r.1[k];
                    &&& env.1.weight_spec() > 0
                    &&& env.1 is Computation ==> env.1.weight_spec() >= MIN_SHARE
                    &&& env.1 is Computation ==> others(ids, p.id).contains(env.0)
                    &&& env.1 is Control ==> env.0 == p.controlling_agent_id
                } by {
                    if k < s.1.len() {
                        assert(r.1[k] == s.1[k]);
                    } else {
                        assert(r.1[k] == opt_seq(i.1)[k - s.1.len()]);
                    }
                }
            }
        },
    }
}

/// For a process other than the controlling agent, an idle process holds no
/// weight, and every round keeps it so, whatever event it handles; and a
/// process that ends a round active (a round that handled an event) holds
/// at least `MIN_WEIGHT_FRACTION`.
pub proof fn lemma_round_keeps_activity(p: Process, e: Event, ids: Seq<usize>, monitored: bool, c: Choices)
    requires
        step_fits(p, e),
        choices_fit(c, others(ids, p.id).len()),
        !p.is_controlling_agent,
        p.state == ProcessState::Idle ==> p.weight == 0,
    ensures
        step_spec(p, e, ids, monitored, c).0.state == ProcessState::Idle ==> step_spec(
            p,
            e,
            ids,
            monitored,
            c,
        ).0.weight == 0,
        !(e is Disconnected) && step_spec(p, e, ids, monitored, c).0.state == ProcessState::Active
            ==> step_spec(p, e, ids, monitored, c).0.weight >= MIN_WEIGHT_FRACTION,
{
    match e {
        Event::Disconnected => {},
        _ => {
            let q = after_event(p, e);
            let threshold = send_threshold(monitored);
            // After the event, an idle process still holds no weight.
            assert(q.state == ProcessState::Idle ==> q.weight == 0);
            if q.state == ProcessState::Active {
                lemma_after_send_conserves(q, ids, threshold, c);
            }
        },
    }
}

/// The process and all the messages it sends after the rounds with events
/// `es` and draws `cs` (one draw per event), taken in order.
pub open spec fn run_rounds(p: Process, es: Seq<Event>, ids: Seq<usize>, monitored: bool, cs: Seq<Choices>) -> (
    Process,
    Seq<Envelope>,
)
    decreases es.len(),
{
    if es.len() == 0 || cs.len() != es.len() {
        (p, Seq::empty())
    } else {
        let prev = run_rounds(p, es.drop_last(), ids, monitored, cs.drop_last());
        let r = step_spec(prev.0, es.last(), ids, monitored, cs.last());
        (r.0, prev.1 + r.1)
    }
}

/// Every one of the rounds respects the machine limits and has fitting draws.
pub open spec fn rounds_fit(p: Process, es: Seq<Event>, ids: Seq<usize>, monitored: bool, cs: Seq<Choices>) -> bool
    decreases es.len(),
{
    if es.len() == 0 || cs.len() != es.len() {
        true
    } else {
        let prev = run_rounds(p, es.drop_last(), ids, monitored, cs.drop_last());
        &&& rounds_fit(p, es.drop_last(), ids, monitored, cs.drop_last())
        &&& step_fits(prev.0, es.last())
        &&& choices_fit(cs.last(), others(ids, prev.0.id).len())
    }
}

/// The weight a process of the given role absorbs from the events `es`.
pub open spec fn absorbed_all(p: Process, es: Seq<Event>) -> nat
    decreases es.len(),
{
    if es.len() == 0 {
        0
    } else {
        absorbed_all(p, es.drop_last()) + absorbed(p, es.last())
    }
}

/// A run of rounds neither creates nor destroys weight: the weight the
/// process ends with plus the weight of all the messages it sent equals the
/// weight it started with plus the weight it absorbed from the messages it
/// received (computation messages, and control messages at the controlling
/// agent).
pub proof fn lemma_rounds_conserve_weight(p: Process, es: Seq<Event>, ids: Seq<usize>, monitored: bool, cs: Seq<Choices>)
    requires
        cs.len() == es.len(),
        rounds_fit(p, es, ids, monitored, cs),
    ensures
        run_rounds(p, es, ids, monitored, cs).0.weight + sum_nat(message_weights(run_rounds(p, es, ids, monitored, cs).1))
            == p.weight + absorbed_all(p, es),
        run_rounds(p, es, ids, monitored, cs).0.id == p.id,
        run_rounds(p, es, ids, monitored, cs).0.is_controlling_agent == p.is_controlling_agent,
        run_rounds(p, es, ids, monitored, cs).0.controlling_agent_id == p.controlling_agent_id,
    decreases es.len(),
{
    if es.len() == 0 {
        assert(message_weights(Seq::<Envelope>::empty()) =~= Seq::<nat>::empty());
    } else {
        let prev = run_rounds(p, es.drop_last(), ids, monitored, cs.drop_last());
        lemma_rounds_conserve_weight(p, es.drop_last(), ids, monitored, cs.drop_last());
        let r = step_spec(prev.0, es.last(), ids, monitored, cs.last());
        lemma_round_conserves_weight(prev.0, es.last(), ids, monitored, cs.last());
        lemma_round_keeps_identity(prev.0, es.last(), ids, monitored, cs.last());
        lemma_message_weights_concat(prev.1, r.1);
        assert(absorbed(prev.0, es.last()) == absorbed(p, es.last()));
    }
}

/// A monitored round that changes the weight or the state of the process
/// publishes them, and the last weight and state it publishes are those the
/// process ends the round with.
pub proof fn lemma_monitored_round_publishes_changes(p: Process, e: Event, ids: Seq<usize>, c: Choices)
    requires
        step_fits(p, e),
        choices_fit(c, others(ids, p.id).len()),
    ensures
        ({
            let r = step_spec(p, e, ids, true, c);
            &&& r.0.weight != p.weight || r.0.state != p.state ==> r.3.len() > 0
            &&& r.3.len() > 0 ==> r.3.last() == snapshot(r.0)
        }),
{
    match e {
        Event::Disconnected => {},
        _ => {
            let q = after_event(p, e);
            let threshold = send_threshold(true);
            lemma_after_send_conserves(q, ids, threshold, c);
        },
    }
}

/// The shape of a system of processes `0, ..., n - 1` with messages in
/// transit, while the protocol runs from a fresh start:
/// - each process knows its id and the controlling agent `ca`;
/// - a process other than the controlling agent holds no weight when idle
///   and at least `MIN_WEIGHT_FRACTION` when active;
/// - every message in transit carries weight, a computation message at
///   least `MIN_SHARE`, and is addressed to a process, control messages to
///   the controlling agent;
/// - processes and messages together hold exactly the whole weight.
pub open spec fn system_invariant(ps: Seq<Process>, in_flight: Seq<Envelope>, ca: usize) -> bool {
    &&& ca < ps.len()
    &&& ps.len() <= usize::MAX
    &&& forall|i: int|
        #![trigger ps[i]]
        0 <= i < ps.len() ==> {
            &&& ps[i].id == i
            &&& ps[i].controlling_agent_id == ca
            &&& ps[i].is_controlling_agent == (i == ca)
            &&& i != ca ==> (ps[i].state == ProcessState::Idle ==> ps[i].weight == 0)
            &&& i != ca ==> (ps[i].state == ProcessState::Active ==> ps[i].weight >= MIN_WEIGHT_FRACTION)
        }
    &&& forall|j: int|
        #![trigger in_flight[j]]
        0 <= j < in_flight.len() ==> {
            &&& in_flight[j].0 < ps.len()
            &&& in_flight[j].1.weight_spec() > 0
            &&& in_flight[j].1 is Computation ==> in_flight[j].1.weight_spec() >= MIN_SHARE
            &&& in_flight[j].1 is Control ==> in_flight[j].0 == ca
        }
    &&& sum_nat(process_weights(ps)) + sum_nat(message_weights(in_flight)) == INITIAL_WEIGHT
}

/// The fresh system of `n` processes with controlling agent `ca`, before any
/// message is sent.
pub open spec fn fresh_system(n: nat, ca: usize) -> Seq<Process> {
    Seq::new(n, |i: int| fresh(i as usize, i == ca, ca))
}

/// The messages in transit once `e` is taken out of `in_flight` at index `k`
/// (an event that is no message takes nothing out).
pub open spec fn remaining(in_flight: Seq<Envelope>, e: Event, k: int) -> Seq<Envelope> {
    match e {
        Event::Received(_) => in_flight.remove(k),
        _ => in_flight,
    }
}

/// The event `e` can happen to process `i`: a received message is the
/// message in transit at index `k`, addressed to `i`.
pub open spec fn event_available(in_flight: Seq<Envelope>, i: int, e: Event, k: int) -> bool {
    match e {
        Event::Received(m) => 0 <= k < in_flight.len() && in_flight[k] == (i as usize, m),
        _ => true,
    }
}

/// The system after process `i` takes a round with event `e` (taken from
/// transit at index `k` when it is a message) and draws `c`.
pub open spec fn after_round(
    ps: Seq<Process>,
    in_flight: Seq<Envelope>,
    i: int,
    e: Event,
    k: int,
    monitored: bool,
    c: Choices,
) -> (Seq<Process>, Seq<Envelope>) {
    let r = step_spec(ps[i], e, process_ids(ps.len()), monitored, c);
    (ps.update(i, r.0), remaining(in_flight, e, k) + r.1)
}

proof fn lemma_sum_zeros(n: nat)
    ensures
        sum_nat(Seq::new(n, |i: int| 0nat)) == 0,
    decreases n,
{
    if n > 0 {
        assert(Seq::new(n, |i: int| 0nat).drop_last() =~= Seq::new((n - 1) as nat, |i: int| 0nat));
        lemma_sum_zeros((n - 1) as nat);
    }
}

/// A fresh system, with nothing in transit, has the shape of a running one:
/// the controlling agent holds the whole weight and every other process is
/// idle with none.
pub proof fn lemma_fresh_system_invariant(n: nat, ca: usize)
    requires
        ca < n <= usize::MAX,
    ensures
        system_invariant(fresh_system(n, ca), Seq::empty(), ca),
{
    let ps = fresh_system(n, ca);
    let zeros = Seq::new(n, |i: int| 0nat);
    assert(process_weights(ps) =~= zeros.update(ca as int, INITIAL_WEIGHT as nat));
    lemma_sum_zeros(n);
    lemma_sum_update(zeros, ca as int, INITIAL_WEIGHT as nat);
    assert(message_weights(Seq::<Envelope>::empty()) =~= Seq::<nat>::empty());
}

/// What a round of process `i` needs to fit the machine limits, and how the
/// round is laid out.
proof fn lemma_round_fits(ps: Seq<Process>, in_flight: Seq<Envelope>, ca: usize, i: int, e: Event, k: int)
    requires
        system_invariant(ps, in_flight, ca),
        0 <= i < ps.len(),
        event_available(in_flight, i, e, k),
        ps[i].sent_computation_messages_count < usize::MAX,
    ensures
        step_fits(ps[i], e),
        absorbed(ps[i], e) == carried(e),
{
    let p = ps[i];
    let pw = process_weights(ps);
    let mw = message_weights(in_flight);
    lemma_sum_elem_le(pw, i);
    assert(pw[i] == p.weight);
    if let Event::Received(m) = e {
        lemma_sum_elem_le(mw, k);
        assert(mw[k] == m.weight_spec());
        assert(in_flight[k].1 == m);
    }
}

/// A round of process `i` leaves the total weight of the system unchanged.
proof fn lemma_round_total(
    ps: Seq<Process>,
    in_flight: Seq<Envelope>,
    ca: usize,
    i: int,
    e: Event,
    k: int,
    monitored: bool,
    c: Choices,
)
    requires
        system_invariant(ps, in_flight, ca),
        0 <= i < ps.len(),
        event_available(in_flight, i, e, k),
        choices_fit(c, others(process_ids(ps.len()), ps[i].id).len()),
        step_fits(ps[i], e),
        absorbed(ps[i], e) == carried(e),
    ensures
        sum_nat(process_weights(after_round(ps, in_flight, i, e, k, monitored, c).0))
            + sum_nat(message_weights(after_round(ps, in_flight, i, e, k, monitored, c).1))
            == INITIAL_WEIGHT,
{
    let ids = process_ids(ps.len());
    let p = ps[i];
    let r = step_spec(p, e, ids, monitored, c);
    let rest = remaining(in_flight, e, k);
    let pw = process_weights(ps);
    let mw = message_weights(in_flight);
    lemma_round_conserves_weight(p, e, ids, monitored, c);
    assert(process_weights(ps.update(i, r.0)) =~= pw.update(i, r.0.weight as nat));
    lemma_sum_update(pw, i, r.0.weight as nat);
    assert(pw[i] == p.weight);
    lemma_message_weights_concat(rest, r.1);
    if let Event::Received(m) = e {
        assert(message_weights(rest) =~= mw.remove(k));
        lemma_sum_remove(mw, k);
        assert(mw[k] == m.weight_spec());
    }
}

/// After a round of process `i`, every process still knows its id and the
/// controlling agent, and every process other than the controlling agent
/// holds no weight when idle and at least `MIN_WEIGHT_FRACTION` when active.
proof fn lemma_round_processes(
    ps: Seq<Process>,
    in_flight: Seq<Envelope>,
    ca: usize,
    i: int,
    e: Event,
    k: int,
    monitored: bool,
    c: Choices,
)
    requires
        system_invariant(ps, in_flight, ca),
        0 <= i < ps.len(),
        event_available(in_flight, i, e, k),
        choices_fit(c, others(process_ids(ps.len()), ps[i].id).len()),
        step_fits(ps[i], e),
    ensures
        ({
            let new_ps = after_round(ps, in_flight, i, e, k, monitored, c).0;
            forall|t: int|
                #![trigger new_ps[t]]
                0 <= t < new_ps.len() ==> {
                    &&& new_ps[t].id == t
                    &&& new_ps[t].controlling_agent_id == ca
                    &&& new_ps[t].is_controlling_agent == (t == ca)
                    &&& t != ca ==> (new_ps[t].state == ProcessState::Idle ==> new_ps[t].weight == 0)
                    &&& t != ca ==> (new_ps[t].state == ProcessState::Active ==> new_ps[t].weight >= MIN_WEIGHT_FRACTION)
                }
        }),
{
    let ids = process_ids(ps.len());
    let p = ps[i];
    let r = step_spec(p, e, ids, monitored, c);
    let new_ps = ps.update(i, r.0);
    lemma_round_keeps_identity(p, e, ids, monitored, c);
    if i != ca {
        lemma_round_keeps_activity(p, e, ids, monitored, c);
        if e is Disconnected {
            assert(r.0 == p);
        }
    }
    assert forall|t: int| #![trigger new_ps[t]] 0 <= t < new_ps.len() implies {
        &&& new_ps[t].id == t
        &&& new_ps[t].controlling_agent_id == ca
        &&& new_ps[t].is_controlling_agent == (t == ca)
        &&& t != ca ==> (new_ps[t].state == ProcessState::Idle ==> new_ps[t].weight == 0)
                    &&& t != ca ==> (new_ps[t].state == ProcessState::Active ==> new_ps[t].weight >= MIN_WEIGHT_FRACTION)
    } by {
        if t != i {
            assert(new_ps[t] == ps[t]);
        }
    }
}

/// After a round of process `i`, every message in transit carries weight (a
/// computation message at least `MIN_SHARE`) and is addressed to a process, control messages to the controlling agent.
proof fn lemma_round_in_flight(
    ps: Seq<Process>,
    in_flight: Seq<Envelope>,
    ca: usize,
    i: int,
    e: Event,
    k: int,
    monitored: bool,
    c: Choices,
)
    requires
        system_invariant(ps, in_flight, ca),
        0 <= i < ps.len(),
        event_available(in_flight, i, e, k),
        choices_fit(c, others(process_ids(ps.len()), ps[i].id).len()),
        step_fits(ps[i], e),
    ensures
        ({
            let new_fl = after_round(ps, in_flight, i, e, k, monitored, c).1;
            forall|j: int|
                #![trigger new_fl[j]]
                0 <= j < new_fl.len() ==> {
                    &&& new_fl[j].0 < ps.len()
                    &&& new_fl[j].1.weight_spec() > 0
        &&& new_fl[j].1 is Computation ==> new_fl[j].1.weight_spec() >= MIN_SHARE
                    &&& new_fl[j].1 is Computation ==> new_fl[j].1.weight_spec() >= MIN_SHARE
                    &&& new_fl[j].1 is Control ==> new_fl[j].0 == ca
                }
        }),
{
    let n = ps.len();
    let ids = process_ids(n);
    let p = ps[i];
    let r = step_spec(p, e, ids, monitored, c);
    let rest = remaining(in_flight, e, k);
    let new_fl = rest + r.1;
    lemma_round_messages(p, e, ids, monitored, c);
    lemma_others_members(ids, p.id);
    assert forall|j: int| #![trigger new_fl[j]] 0 <= j < new_fl.len() implies {
        &&& new_fl[j].0 < n
        &&& new_fl[j].1.weight_spec() > 0
        &&& new_fl[j].1 is Computation ==> new_fl[j].1.weight_spec() >= MIN_SHARE
        &&& new_fl[j].1 is Control ==> new_fl[j].0 == ca
    } by {
        if j < rest.len() {
            assert(new_fl[j] == rest[j]);
            if let Event::Received(m) = e {
                if j < k {
                    assert(rest[j] == in_flight[j]);
                } else {
                    assert(rest[j] == in_flight[j + 1]);
                }
            }
        } else {
            let env = r.1[j - rest.len()];
            assert(new_fl[j] == env);
            if env.1 is Computation {
                assert(ids.contains(env.0));
                let t = choose|t: int| 0 <= t < ids.len() && ids[t] == env.0;
                assert(env.0 < n);
            }
        }
    }
}

/// Every round of any process, with any fitting draws and any event that can
/// happen to it, keeps the shape of the system; in particular processes and
/// messages in transit together always hold exactly the whole weight.  Such
/// a round also respects the machine limits of a round (`step_fits`).
pub proof fn lemma_round_preserves_invariant(
    ps: Seq<Process>,
    in_flight: Seq<Envelope>,
    ca: usize,
    i: int,
    e: Event,
    k: int,
    monitored: bool,
    c: Choices,
)
    requires
        system_invariant(ps, in_flight, ca),
        0 <= i < ps.len(),
        event_available(in_flight, i, e, k),
        choices_fit(c, others(process_ids(ps.len()), i as usize).len()),
        ps[i].sent_computation_messages_count < usize::MAX,
    ensures
        step_fits(ps[i], e),
        system_invariant(
            after_round(ps, in_flight, i, e, k, monitored, c).0,
            after_round(ps, in_flight, i, e, k, monitored, c).1,
            ca,
        ),
{
    assert(ps[i].id == i);
    lemma_round_fits(ps, in_flight, ca, i, e, k);
    lemma_round_total(ps, in_flight, ca, i, e, k, monitored, c);
    lemma_round_processes(ps, in_flight, ca, i, e, k, monitored, c);
    lemma_round_in_flight(ps, in_flight, ca, i, e, k, monitored, c);
}

/// Termination detection is sound: once the controlling agent holds the
/// whole weight, every other process is idle with no weight and no message
/// is in transit, so no process can ever become active again.
pub proof fn lemma_termination_detection_sound(ps: Seq<Process>, in_flight: Seq<Envelope>, ca: usize)
    requires
        system_invariant(ps, in_flight, ca),
        ps[ca as int].weight == INITIAL_WEIGHT,
    ensures
        in_flight.len() == 0,
        forall|i: int|
            #![trigger ps[i]]
            0 <= i < ps.len() && i != ca ==> ps[i].state == ProcessState::Idle && ps[i].weight == 0,
{
    let pw = process_weights(ps);
    let mw = message_weights(in_flight);
    lemma_sum_elem_le(pw, ca as int);
    assert(pw[ca as int] == INITIAL_WEIGHT);
    if in_flight.len() > 0 {
        lemma_sum_elem_le(mw, 0);
        assert(mw[0] == in_flight[0].1.weight_spec());
    }
    assert forall|i: int| #![trigger ps[i]] 0 <= i < ps.len() && i != ca implies ps[i].state
        == ProcessState::Idle && ps[i].weight == 0 by {
        lemma_sum_two_le(pw, ca as int, i);
        assert(pw[i] == ps[i].weight);
    }
}

/// What the monitor's tolerance means.  When the controlling agent holds
/// the whole weight up to the tolerance, the weight held by all other
/// processes and in transit together is below the tolerance; so no other
/// process is active and no computation message is in transit (an active
/// process holds at least `MIN_WEIGHT_FRACTION`, a computation message
/// carries at least `MIN_SHARE`, both above the tolerance).  Only control
/// messages, carrying less than the tolerance in all, may still be on
/// their way to the controlling agent.
pub proof fn lemma_recovered_implies_quiescent(ps: Seq<Process>, in_flight: Seq<Envelope>, ca: usize)
    requires
        system_invariant(ps, in_flight, ca),
        recovered(ps[ca as int].weight),
    ensures
        sum_nat(process_weights(ps)) - ps[ca as int].weight + sum_nat(message_weights(in_flight))
            < TERMINATION_TOLERANCE,
        forall|i: int|
            #![trigger ps[i]]
            0 <= i < ps.len() && i != ca ==> ps[i].state == ProcessState::Idle && ps[i].weight == 0,
        forall|j: int| #![trigger in_flight[j]] 0 <= j < in_flight.len() ==> in_flight[j].1 is Control,
{
    let pw = process_weights(ps);
    let mw = message_weights(in_flight);
    lemma_sum_elem_le(pw, ca as int);
    assert(pw[ca as int] == ps[ca as int].weight);
    assert forall|i: int| #![trigger ps[i]] 0 <= i < ps.len() && i != ca implies ps[i].state
        == ProcessState::Idle && ps[i].weight == 0 by {
        lemma_sum_two_le(pw, ca as int, i);
        assert(pw[i] == ps[i].weight);
    }
    assert forall|j: int| #![trigger in_flight[j]] 0 <= j < in_flight.len() implies in_flight[j].1 is Control by {
        lemma_sum_elem_le(mw, j);
        assert(mw[j] == in_flight[j].1.weight_spec());
    }
}

} // verus!
