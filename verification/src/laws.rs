//! What holds of the waiter whatever the events and whatever the stores answer.

use crate::ordered_map::{ascending, entries_map};
use crate::fetch::{fetch_step, FetchAction, FetchEvent, FetchPhase, FetchRunView};
use crate::probe::{probe_step, ProbeAction, ProbeEvent, ProbeView};
use crate::request::{lemma_lower_bound, lower_bound};
use crate::rules::{
    covered, passes_screen, read_admits, round_of, Event, WaiterView, MAX_CERTIFICATES_TO_FETCH,
};
use crate::types::{
    Certificate, CommitteeView, FetchCertificatesResponse, NetworkPublicKey, PublicKey,
    ReconfigureView, Round, StoreRead,
};
use vstd::prelude::*;

verus! {

/// When a kick launches a fetch task, every target is above what the snapshot
/// holds for its participant.
pub proof fn law_targets_ahead_of_snapshot(
    waiter: WaiterView,
    consensus_round: u64,
    reads: Seq<StoreRead>,
    a: PublicKey,
)
    requires
        waiter.kick_launches(consensus_round, reads),
        waiter.kick(consensus_round, reads).targets.contains_key(a),
    ensures
        waiter.kick(consensus_round, reads).targets[a] > covered(
            waiter.snapshot(consensus_round, reads),
            waiter.gc_round(consensus_round),
            a,
        ),
        waiter.kick(consensus_round, reads).targets[a] > waiter.gc_round(consensus_round),
{
}

/// The request of a launched fetch task reaches up to every target: in any
/// ascending list of the snapshot, which is what the request carries, the
/// lower bound of a participant is below that participant's target.
pub proof fn law_request_reaches_every_target(
    waiter: WaiterView,
    consensus_round: u64,
    reads: Seq<StoreRead>,
    bounds: Seq<(PublicKey, Round)>,
    a: PublicKey,
)
    requires
        waiter.kick_launches(consensus_round, reads),
        waiter.kick(consensus_round, reads).targets.contains_key(a),
        ascending(bounds),
        entries_map(bounds) == waiter.snapshot(consensus_round, reads),
    ensures
        lower_bound(bounds, a) < waiter.kick(consensus_round, reads).targets[a],
{
    lemma_lower_bound(bounds, a);
}

/// Once an event has put the waiter into fetching, it stays there as long as
/// no fetch task ends.
proof fn lemma_stays_fetching(start: WaiterView, events: Seq<Event>, from: int, to: int)
    requires
        0 <= from <= to <= events.len(),
        start.run(events.take(from)).fetching,
        forall|k: int| from <= k < to ==> !((#[trigger] events[k]) is FetchTaskCompleted),
    ensures
        start.run(events.take(to)).fetching,
    decreases to - from,
{
    if from < to {
        lemma_stays_fetching(start, events, from, to - 1);
        assert(events.take(to).drop_last() =~= events.take(to - 1));
        assert(events.take(to).last() == events[to - 1]);
    }
}

/// At most one fetch task runs at a time: between two events that launch a
/// fetch task, a fetch task has ended.
pub proof fn law_one_fetch_task_at_a_time(start: WaiterView, events: Seq<Event>, i: int, j: int)
    requires
        0 <= i < j < events.len(),
        start.run(events.take(i)).launches(events[i]),
        start.run(events.take(j)).launches(events[j]),
    ensures
        exists|k: int| i < k < j && (#[trigger] events[k]) is FetchTaskCompleted,
{
    if forall|k: int| i < k < j ==> !((#[trigger] events[k]) is FetchTaskCompleted) {
        assert(events.take(i + 1).drop_last() =~= events.take(i));
        assert(events.take(i + 1).last() == events[i]);
        assert(start.run(events.take(i + 1)).fetching);
        lemma_stays_fetching(start, events, i + 1, j);
        assert(false);
    }
}

/// While a fetch task runs, whatever keeps it from ending, no event launches
/// another.
pub proof fn law_no_launch_while_fetching(waiter: WaiterView, event: Event)
    requires
        waiter.fetching,
    ensures
        !waiter.launches(event),
        !(event is FetchTaskCompleted) ==> waiter.step(event).fetching,
{
}

/// After a reconfiguration to a new epoch there is no target, and a kick
/// launches nothing until a certificate with missing parents has set one.
pub proof fn law_new_epoch_clears_targets(
    waiter: WaiterView,
    committee: CommitteeView,
    consensus_round: u64,
    reads: Seq<StoreRead>,
)
    ensures
        waiter.reconfigure(ReconfigureView::NewEpoch(committee)).targets == Map::<
            PublicKey,
            Round,
        >::empty(),
        !waiter.reconfigure(ReconfigureView::NewEpoch(committee)).kick_launches(
            consensus_round,
            reads,
        ),
{
    let after = waiter.reconfigure(ReconfigureView::NewEpoch(committee));
    assert(after.targets_after_kick(consensus_round, reads) =~= Map::<PublicKey, Round>::empty());
}

/// A certificate of another epoch than the current one changes nothing.
pub proof fn law_stale_epoch_is_ignored(waiter: WaiterView, certificate: Certificate, read: StoreRead)
    requires
        certificate.epoch != waiter.committee.epoch,
    ensures
        waiter.missing_parent(certificate, read) == waiter,
        !waiter.missing_parent_kicks(certificate, read),
{
}

/// A target never goes down: as long as no event takes participant `a` out
/// of the targets, its target after a run of events is at least what it was
/// before.
pub proof fn law_targets_only_rise(start: WaiterView, events: Seq<Event>, a: PublicKey)
    requires
        start.targets.contains_key(a),
        forall|k: int|
            0 <= k < events.len() ==> !start.run(#[trigger] events.take(k)).drops(events[k], a),
    ensures
        start.run(events).targets.contains_key(a),
        start.run(events).targets[a] >= start.targets[a],
    decreases events.len(),
{
    if events.len() > 0 {
        let head = events.drop_last();
        assert forall|k: int| 0 <= k < head.len() implies !start.run(
            #[trigger] head.take(k),
        ).drops(head[k], a) by {
            assert(head.take(k) =~= events.take(k));
            assert(!start.run(events.take(k)).drops(events[k], a));
        }
        law_targets_only_rise(start, head, a);
        let before = start.run(head);
        assert(events.take(events.len() - 1) =~= head);
        assert(!start.run(events.take(events.len() - 1)).drops(events[events.len() - 1], a));
        assert(before.step(events.last()).targets[a] >= before.targets[a]);
    }
}

/// Only a reconfiguration to a new epoch or a kick takes a participant out of
/// the targets.
pub proof fn law_who_drops_targets(waiter: WaiterView, event: Event, a: PublicKey)
    requires
        waiter.drops(event, a),
    ensures
        event is Kick || event matches Event::Reconfigure(ReconfigureView::NewEpoch(_)),
{
}

/// A kick leaves each target either as it was or out.
pub proof fn law_kick_keeps_or_drops(
    waiter: WaiterView,
    consensus_round: u64,
    reads: Seq<StoreRead>,
    a: PublicKey,
)
    requires
        waiter.kick(consensus_round, reads).targets.contains_key(a),
    ensures
        waiter.targets.contains_key(a),
        waiter.kick(consensus_round, reads).targets[a] == waiter.targets[a],
{
}

/// The same certificate delivered twice leaves the waiter as one delivery
/// does, unless the store turned the first delivery away and admits the
/// second.
pub proof fn law_redelivery_changes_nothing(
    waiter: WaiterView,
    certificate: Certificate,
    first_read: StoreRead,
    second_read: StoreRead,
)
    requires
        passes_screen(waiter.targets, waiter.committee.epoch, certificate) && read_admits(
            second_read,
            certificate.round,
        ) ==> read_admits(first_read, certificate.round),
    ensures
        waiter.missing_parent(certificate, first_read).missing_parent(certificate, second_read)
            == waiter.missing_parent(certificate, first_read),
        !waiter.missing_parent(certificate, first_read).missing_parent_kicks(
            certificate,
            second_read,
        ) || !waiter.missing_parent_kicks(certificate, first_read),
{
}

/// The same certificate delivered twice, each delivery followed by the kick
/// it calls for, launches at most one fetch task.
pub proof fn law_redelivery_launches_once(
    waiter: WaiterView,
    certificate: Certificate,
    first_read: StoreRead,
    first_round: u64,
    first_reads: Seq<StoreRead>,
    second_read: StoreRead,
    second_round: u64,
    second_reads: Seq<StoreRead>,
)
    ensures
        ({
            let delivered = waiter.missing_parent(certificate, first_read);
            let first_launch = waiter.missing_parent_kicks(certificate, first_read)
                && delivered.kick_launches(first_round, first_reads);
            let kicked = if waiter.missing_parent_kicks(certificate, first_read) {
                delivered.kick(first_round, first_reads)
            } else {
                delivered
            };
            let redelivered = kicked.missing_parent(certificate, second_read);
            let second_launch = kicked.missing_parent_kicks(certificate, second_read)
                && redelivered.kick_launches(second_round, second_reads);
            !(first_launch && second_launch)
        }),
{
}

/// A run of probing: each state leads to the next by one step.
pub open spec fn probe_run(
    states: Seq<ProbeView>,
    events: Seq<ProbeEvent>,
    actions: Seq<ProbeAction>,
) -> bool {
    &&& states.len() == events.len() + 1
    &&& actions.len() == events.len()
    &&& forall|k: int|
        0 <= k < events.len() ==> probe_step(
            states[k],
            #[trigger] events[k],
            states[k + 1],
            actions[k],
        )
}

/// Within a pass the peers are asked in the order of the pass.
proof fn lemma_pass_in_order(
    states: Seq<ProbeView>,
    events: Seq<ProbeEvent>,
    actions: Seq<ProbeAction>,
    m: int,
)
    requires
        probe_run(states, events, actions),
        states[0].peers.len() > 0,
        states[0].asked >= states[0].peers.len(),
        1 <= m <= states[0].peers.len(),
        m <= events.len(),
        forall|k: int| 0 <= k < m ==> !((#[trigger] events[k]) is Responded),
    ensures
        states[1].peers.to_multiset() == states[0].peers.to_multiset(),
        states[m].peers == states[1].peers,
        states[m].asked == m,
        forall|k: int|
            0 <= k < m ==> (#[trigger] actions[k]).asks(states[1].peers[k]),
    decreases m,
{
    assert(probe_step(states[0], events[0], states[1], actions[0]));
    states[0].peers.to_multiset_ensures();
    states[1].peers.to_multiset_ensures();
    if m > 1 {
        lemma_pass_in_order(states, events, actions, m - 1);
        assert(probe_step(states[m - 1], events[m - 1], states[m], actions[m - 1]));
    }
}

/// Every peer gets its turn: in a run that starts a pass and in which no peer
/// answers, as many steps as there are peers ask each of them.
pub proof fn law_pass_asks_every_peer(
    states: Seq<ProbeView>,
    events: Seq<ProbeEvent>,
    actions: Seq<ProbeAction>,
    p: NetworkPublicKey,
)
    requires
        probe_run(states, events, actions),
        states[0].asked >= states[0].peers.len(),
        events.len() == states[0].peers.len(),
        forall|k: int| 0 <= k < events.len() ==> !((#[trigger] events[k]) is Responded),
        states[0].peers.contains(p),
    ensures
        exists|k: int|
            0 <= k < actions.len() && (#[trigger] actions[k]).asks(p),
{
    let n = states[0].peers.len() as int;
    lemma_pass_in_order(states, events, actions, n);
    states[0].peers.to_multiset_ensures();
    states[1].peers.to_multiset_ensures();
    assert(states[0].peers.to_multiset().count(p) > 0);
    assert(states[1].peers.to_multiset().count(p) > 0);
    assert(states[1].peers.contains(p));
    let k = choose|k: int| 0 <= k < states[1].peers.len() && states[1].peers[k] == p;
    assert(actions[k].asks(p));
}

/// The first answer ends probing, and it is the answer that is returned.
pub proof fn law_first_answer_wins(
    pre: ProbeView,
    response: FetchCertificatesResponse,
    post: ProbeView,
    action: ProbeAction,
)
    requires
        probe_step(pre, ProbeEvent::Responded(response), post, action),
    ensures
        action == ProbeAction::Return(response),
{
}

/// A target is set above the round that the store has for its participant.
pub proof fn law_target_set_above_committed(
    waiter: WaiterView,
    certificate: Certificate,
    read: StoreRead,
)
    requires
        waiter.missing_parent(certificate, read) != waiter,
    ensures
        waiter.missing_parent(certificate, read).targets[certificate.author] == certificate.round,
        certificate.round > round_of(read),
        read is Ok,
        certificate.epoch == waiter.committee.epoch,
{
}

/// No loopback message carries more certificates than a request asks for.
pub proof fn law_handoff_within_limit(
    pre: FetchRunView,
    event: FetchEvent,
    post: FetchRunView,
    action: FetchAction,
)
    requires
        fetch_step(pre, event, post, action),
        action.handed_off() is Some,
    ensures
        action.handed_off()->Some_0.len() <= MAX_CERTIFICATES_TO_FETCH,
        event matches FetchEvent::PeerResponded(response) && action.handed_off() == Some(
            response.certificates@,
        ),
{
}

/// An oversized answer ends the fetch task in failure, and nothing of it
/// reaches the core.
pub proof fn law_oversized_answer_is_refused(
    pre: FetchRunView,
    response: FetchCertificatesResponse,
    post: FetchRunView,
    action: FetchAction,
)
    requires
        pre.phase == FetchPhase::Probing,
        response.certificates@.len() > MAX_CERTIFICATES_TO_FETCH,
        fetch_step(pre, FetchEvent::PeerResponded(response), post, action),
    ensures
        post.phase == FetchPhase::DoneErr,
        action.handed_off() is None,
        action matches FetchAction::Finish(Err(_)),
{
}

/// A fetch task ends well only on the core's acknowledgement, and then with
/// the number of certificates it handed off.
pub proof fn law_done_only_when_acknowledged(
    pre: FetchRunView,
    event: FetchEvent,
    post: FetchRunView,
    action: FetchAction,
)
    requires
        fetch_step(pre, event, post, action),
        post.phase == FetchPhase::DoneOk,
        pre.phase != FetchPhase::DoneOk,
    ensures
        pre.phase == FetchPhase::Acknowledging,
        event matches FetchEvent::Acknowledged(Ok(_)),
        action matches FetchAction::Finish(Ok(count)) && count == pre.count,
{
}

/// How far a fetch task has come.
pub open spec fn progress(phase: FetchPhase) -> nat {
    match phase {
        FetchPhase::Start => 0,
        FetchPhase::Probing => 1,
        FetchPhase::Sending => 2,
        FetchPhase::Acknowledging => 3,
        FetchPhase::DoneOk => 4,
        FetchPhase::DoneErr => 4,
    }
}

/// A run of a fetch task: each state leads to the next by one step.
pub open spec fn fetch_run(
    states: Seq<FetchRunView>,
    events: Seq<FetchEvent>,
    actions: Seq<FetchAction>,
) -> bool {
    &&& states.len() == events.len() + 1
    &&& actions.len() == events.len()
    &&& forall|k: int|
        0 <= k < events.len() ==> fetch_step(
            states[k],
            #[trigger] events[k],
            states[k + 1],
            actions[k],
        )
}

/// A fetch task never goes back to an earlier phase.
pub proof fn law_fetch_task_moves_forward(
    states: Seq<FetchRunView>,
    events: Seq<FetchEvent>,
    actions: Seq<FetchAction>,
    i: int,
    j: int,
)
    requires
        fetch_run(states, events, actions),
        0 <= i <= j < states.len(),
    ensures
        progress(states[i].phase) <= progress(states[j].phase),
    decreases j - i,
{
    if i < j {
        law_fetch_task_moves_forward(states, events, actions, i, j - 1);
        assert(fetch_step(states[j - 1], events[j - 1], states[j], actions[j - 1]));
    }
}

/// A fetch task hands certificates to the core at most once.
pub proof fn law_one_handoff_per_fetch_task(
    states: Seq<FetchRunView>,
    events: Seq<FetchEvent>,
    actions: Seq<FetchAction>,
    i: int,
    j: int,
)
    requires
        fetch_run(states, events, actions),
        0 <= i < j < actions.len(),
        actions[i].handed_off() is Some,
    ensures
        actions[j].handed_off() is None,
{
    assert(fetch_step(states[i], events[i], states[i + 1], actions[i]));
    assert(fetch_step(states[j], events[j], states[j + 1], actions[j]));
    law_fetch_task_moves_forward(states, events, actions, i + 1, j);
}

} // verus!
