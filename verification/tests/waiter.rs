use certificate_waiter::types::{
    Certificate, Committee, DagError, NetworkPublicKey, PublicKey, ReconfigureNotification,
    RoundSource, StoreError, StoreRead,
};
use certificate_waiter::waiter::{floor_rounds, last_committed_round, CertificateWaiter};

const A0: PublicKey = PublicKey(10);
const A1: PublicKey = PublicKey(11);
const A2: PublicKey = PublicKey(12);
const A3: PublicKey = PublicKey(13);

fn committee(epoch: u64) -> Committee {
    let mut committee = Committee::new(epoch);
    // Added out of order: the committee keeps its members ascending.
    committee.add(A2, NetworkPublicKey(102));
    committee.add(A0, NetworkPublicKey(100));
    committee.add(A3, NetworkPublicKey(103));
    committee.add(A1, NetworkPublicKey(101));
    committee
}

fn waiter(gc_depth: u64) -> CertificateWaiter {
    CertificateWaiter::spawn(A0, committee(0), gc_depth, RoundSource::CertificateStore)
}

fn missing(author: PublicKey, round: u64, epoch: u64) -> Certificate {
    Certificate { author, round, epoch, payload: vec![1, 2, 3] }
}

fn rounds(values: [u64; 4]) -> Vec<StoreRead> {
    values.iter().map(|round| Ok(Some(*round))).collect()
}

fn failure(reason: &str) -> StoreError {
    StoreError { reason: reason.to_string() }
}

#[test]
fn starts_without_targets_or_fetch_task() {
    let waiter = waiter(50);
    assert!(waiter.targets().is_empty());
    assert!(!waiter.is_fetching());
    assert_eq!(waiter.name(), A0);
    assert_eq!(waiter.committee().epoch(), 0);
    assert_eq!(waiter.authorities(), vec![A0, A1, A2, A3]);
    assert_eq!(waiter.round_source(), RoundSource::CertificateStore);
}

#[test]
fn gc_round_is_the_consensus_round_less_the_depth() {
    let waiter = waiter(50);
    assert_eq!(waiter.gc_round(0), 0);
    assert_eq!(waiter.gc_round(49), 0);
    assert_eq!(waiter.gc_round(50), 0);
    assert_eq!(waiter.gc_round(51), 1);
    assert_eq!(waiter.gc_round(u64::MAX), u64::MAX - 50);
}

#[test]
fn unknown_participant_is_at_genesis() {
    assert_eq!(last_committed_round(&Ok(None)), Ok(0));
    assert_eq!(last_committed_round(&Ok(Some(7))), Ok(7));
    assert_eq!(
        last_committed_round(&Err(failure("bincode"))),
        Err(DagError::StoreError(failure("bincode")))
    );
}

#[test]
fn all_committed_rounds_lists_every_member() {
    let waiter = waiter(50);
    let reads: Vec<StoreRead> = vec![Ok(Some(4)), Ok(None), Ok(Some(0)), Ok(Some(9))];
    let rounds = waiter.all_committed_rounds(&reads).unwrap();
    assert_eq!(rounds.to_vec(), vec![(A0, 4), (A1, 0), (A2, 0), (A3, 9)]);
}

#[test]
fn all_committed_rounds_reports_the_first_failure() {
    let waiter = waiter(50);
    let reads: Vec<StoreRead> =
        vec![Ok(Some(4)), Err(failure("first")), Ok(Some(0)), Err(failure("second"))];
    assert_eq!(
        waiter.all_committed_rounds(&reads),
        Err(DagError::StoreError(failure("first")))
    );
}

#[test]
fn floor_raises_rounds_below_the_gc_round() {
    let waiter = waiter(50);
    let rounds = waiter.all_committed_rounds(&rounds([4, 0, 7, 9])).unwrap();
    let floored = floor_rounds(&rounds, 5);
    assert_eq!(floored.to_vec(), vec![(A0, 5), (A1, 5), (A2, 7), (A3, 9)]);
}

#[test]
fn missing_parent_sets_a_target_and_asks_for_a_kick() {
    let mut waiter = waiter(50);
    let certificate = missing(A1, 5, 0);
    assert!(waiter.needs_committed_round(&certificate));
    assert!(waiter.on_missing_parent(&certificate, &Ok(Some(2))));
    assert_eq!(waiter.targets().to_vec(), vec![(A1, 5)]);
}

#[test]
fn missing_parent_of_another_epoch_is_dropped() {
    let mut waiter = waiter(50);
    assert!(waiter.on_missing_parent(&missing(A1, 5, 0), &Ok(Some(2))));
    for epoch in [1, 7, u64::MAX] {
        let stale = missing(A1, 9, epoch);
        assert!(!waiter.needs_committed_round(&stale));
        assert!(!waiter.on_missing_parent(&stale, &Ok(Some(2))));
        assert_eq!(waiter.targets().to_vec(), vec![(A1, 5)]);
    }
}

#[test]
fn missing_parent_at_or_below_the_target_is_dropped() {
    let mut waiter = waiter(50);
    assert!(waiter.on_missing_parent(&missing(A1, 5, 0), &Ok(Some(2))));
    assert!(!waiter.needs_committed_round(&missing(A1, 5, 0)));
    assert!(!waiter.needs_committed_round(&missing(A1, 4, 0)));
    assert!(!waiter.on_missing_parent(&missing(A1, 4, 0), &Ok(None)));
    assert_eq!(waiter.targets().to_vec(), vec![(A1, 5)]);
    // A later round raises the target.
    assert!(waiter.needs_committed_round(&missing(A1, 6, 0)));
    assert!(waiter.on_missing_parent(&missing(A1, 6, 0), &Ok(Some(2))));
    assert_eq!(waiter.targets().to_vec(), vec![(A1, 6)]);
}

#[test]
fn missing_parent_already_covered_by_the_store_is_dropped() {
    let mut waiter = waiter(50);
    assert!(!waiter.on_missing_parent(&missing(A1, 5, 0), &Ok(Some(5))));
    assert!(!waiter.on_missing_parent(&missing(A1, 5, 0), &Ok(Some(6))));
    assert!(!waiter.on_missing_parent(&missing(A1, 0, 0), &Ok(None)));
    assert!(waiter.targets().is_empty());
    assert!(waiter.on_missing_parent(&missing(A1, 1, 0), &Ok(None)));
    assert_eq!(waiter.targets().to_vec(), vec![(A1, 1)]);
}

#[test]
fn missing_parent_is_dropped_when_the_store_fails() {
    let mut waiter = waiter(50);
    assert!(!waiter.on_missing_parent(&missing(A1, 5, 0), &Err(failure("bincode"))));
    assert!(waiter.targets().is_empty());
    assert!(!waiter.is_fetching());
}

#[test]
fn kick_is_aborted_when_a_read_fails() {
    let mut waiter = waiter(50);
    assert!(waiter.on_missing_parent(&missing(A1, 5, 0), &Ok(Some(2))));
    let reads: Vec<StoreRead> = vec![Ok(Some(9)), Ok(Some(9)), Err(failure("down")), Ok(None)];
    assert_eq!(waiter.kick(0, &reads), None);
    // The targets are not cleared, although the store has caught up.
    assert_eq!(waiter.targets().to_vec(), vec![(A1, 5)]);
    assert!(!waiter.is_fetching());
}

#[test]
fn kick_is_aborted_when_a_read_is_missing() {
    let mut waiter = waiter(50);
    assert!(waiter.on_missing_parent(&missing(A1, 5, 0), &Ok(Some(2))));
    let too_few: Vec<StoreRead> = vec![Ok(Some(9)), Ok(Some(9)), Ok(None)];
    assert_eq!(waiter.kick(0, &too_few), None);
    let too_many: Vec<StoreRead> = vec![Ok(None); 5];
    assert_eq!(waiter.kick(0, &too_many), None);
    assert_eq!(waiter.kick(0, &Vec::new()), None);
    assert_eq!(waiter.targets().to_vec(), vec![(A1, 5)]);
    assert!(!waiter.is_fetching());
}

#[test]
fn kick_without_targets_launches_nothing() {
    let mut waiter = waiter(50);
    assert_eq!(waiter.kick(0, &rounds([0, 0, 0, 0])), None);
    assert!(!waiter.is_fetching());
}

#[test]
fn launched_targets_are_ahead_of_the_snapshot() {
    let mut waiter = waiter(10);
    assert!(waiter.on_missing_parent(&missing(A0, 30, 0), &Ok(Some(1))));
    assert!(!waiter.is_fetching());
    waiter.on_missing_parent(&missing(A1, 12, 0), &Ok(Some(1)));
    waiter.on_missing_parent(&missing(A2, 15, 0), &Ok(Some(1)));
    waiter.on_missing_parent(&missing(A3, 40, 0), &Ok(Some(1)));
    waiter.on_missing_parent(&missing(PublicKey(99), 14, 0), &Ok(None));
    waiter.on_missing_parent(&missing(PublicKey(98), 16, 0), &Ok(None));
    // Consensus round 25 and depth 10 put the garbage-collection round at 15.
    let task = waiter.kick(25, &rounds([29, 3, 3, 40])).unwrap();
    assert_eq!(task.committed_rounds.to_vec(), vec![(A0, 29), (A1, 15), (A2, 15), (A3, 40)]);
    // A0 is kept, A1 and A2 fall to garbage collection, A3 is caught up; of the
    // two that are not in the committee one is above the garbage-collection round.
    assert_eq!(waiter.targets().to_vec(), vec![(A0, 30), (PublicKey(98), 16)]);
    for (author, target) in waiter.targets().to_vec() {
        let reached = task.committed_rounds.get(author).unwrap_or(15);
        assert!(target > reached);
        assert!(task.request().lower_bound(author) < target);
    }
    assert_eq!(task.name, A0);
    assert_eq!(task.committee, committee(0));
}

#[test]
fn one_fetch_task_at_a_time() {
    let mut waiter = waiter(50);
    assert!(waiter.on_missing_parent(&missing(A1, 5, 0), &Ok(Some(2))));
    assert!(waiter.kick(0, &rounds([0, 2, 0, 0])).is_some());
    assert!(waiter.is_fetching());
    // While the task runs, whatever blocks it, a new target asks for no kick
    // and a kick launches nothing and leaves the targets alone.
    assert!(!waiter.on_missing_parent(&missing(A2, 7, 0), &Ok(None)));
    assert_eq!(waiter.kick(0, &rounds([9, 9, 9, 9])), None);
    assert_eq!(waiter.targets().to_vec(), vec![(A1, 5), (A2, 7)]);
    assert!(waiter.is_fetching());
    // Once it has ended, the next kick launches again.
    assert!(waiter.on_fetch_task_completed());
    assert!(!waiter.is_fetching());
    assert!(waiter.kick(0, &rounds([0, 5, 0, 0])).is_some());
    assert_eq!(waiter.targets().to_vec(), vec![(A2, 7)]);
}

#[test]
fn redelivery_changes_nothing() {
    let mut once = waiter(50);
    let mut twice = waiter(50);
    let certificate = missing(A1, 5, 0);
    assert!(once.on_missing_parent(&certificate, &Ok(Some(2))));
    assert!(twice.on_missing_parent(&certificate, &Ok(Some(2))));
    assert!(twice.kick(0, &rounds([0, 2, 0, 0])).is_some());
    assert!(!twice.on_missing_parent(&certificate, &Ok(Some(2))));
    assert_eq!(once.targets().to_vec(), twice.targets().to_vec());
    // The second delivery launched nothing.
    assert_eq!(twice.kick(0, &rounds([0, 2, 0, 0])), None);
}

#[test]
fn redelivery_after_a_failed_read_may_set_the_target() {
    let mut waiter = waiter(50);
    let certificate = missing(A1, 5, 0);
    assert!(!waiter.on_missing_parent(&certificate, &Err(failure("bincode"))));
    assert!(waiter.targets().is_empty());
    assert!(waiter.on_missing_parent(&certificate, &Ok(Some(0))));
    assert_eq!(waiter.targets().to_vec(), vec![(A1, 5)]);
}

#[test]
fn update_committee_keeps_targets() {
    let mut waiter = waiter(50);
    waiter.on_missing_parent(&missing(A1, 5, 0), &Ok(Some(2)));
    let mut updated = committee(0);
    updated.add(A1, NetworkPublicKey(901));
    assert!(waiter.on_reconfigure(ReconfigureNotification::UpdateCommittee(updated.clone())));
    assert_eq!(waiter.committee(), &updated);
    assert_eq!(waiter.targets().to_vec(), vec![(A1, 5)]);
}

#[test]
fn shutdown_stops_the_waiter() {
    let mut waiter = waiter(50);
    waiter.on_missing_parent(&missing(A1, 5, 0), &Ok(Some(2)));
    assert!(!waiter.on_reconfigure(ReconfigureNotification::Shutdown));
    assert_eq!(waiter.targets().to_vec(), vec![(A1, 5)]);
    assert_eq!(waiter.committee(), &committee(0));
}

#[test]
fn targets_only_rise() {
    let mut waiter = waiter(50);
    waiter.on_missing_parent(&missing(A1, 5, 0), &Ok(Some(2)));
    let deliveries: Vec<(u64, StoreRead)> = vec![
        (3, Ok(None)),
        (9, Err(failure("down"))),
        (7, Ok(Some(6))),
        (6, Ok(Some(1))),
        (8, Ok(Some(8))),
        (12, Ok(Some(11))),
    ];
    let mut last = 5;
    for (round, read) in deliveries {
        waiter.on_missing_parent(&missing(A1, round, 0), &read);
        waiter.on_fetch_task_completed();
        let now = waiter.targets().get(A1).unwrap();
        assert!(now >= last);
        last = now;
    }
    assert_eq!(last, 12);
}

#[test]
fn simple_catch_up() {
    let mut waiter = waiter(50);
    // Target (A1, 5), local committed (A1, 2).
    assert!(waiter.on_missing_parent(&missing(A1, 5, 0), &Ok(Some(2))));
    let task = waiter.kick(0, &rounds([0, 2, 0, 0])).unwrap();
    assert_eq!(
        task.request().exclusive_lower_bounds,
        vec![(A0, 0), (A1, 2), (A2, 0), (A3, 0)]
    );
    // The fetch task hands three certificates over and ends; the store now
    // holds A1 up to round 5.
    assert!(waiter.on_fetch_task_completed());
    assert_eq!(waiter.kick(0, &rounds([0, 5, 0, 0])), None);
    assert!(waiter.targets().is_empty());
    assert!(!waiter.is_fetching());
}

#[test]
fn target_upgrade_mid_fetch() {
    let mut waiter = waiter(50);
    assert!(waiter.on_missing_parent(&missing(A1, 5, 0), &Ok(Some(2))));
    let first = waiter.kick(0, &rounds([0, 2, 0, 0])).unwrap();
    // During the fetch a later certificate raises the target; no kick.
    assert!(!waiter.on_missing_parent(&missing(A1, 8, 0), &Ok(Some(2))));
    assert_eq!(waiter.targets().to_vec(), vec![(A1, 8)]);
    // The running fetch still works on its own snapshot.
    assert_eq!(first.committed_rounds.get(A1), Some(2));
    // On completion the store holds round 5, and the kick launches a second
    // fetch with the new bound.
    assert!(waiter.on_fetch_task_completed());
    let second = waiter.kick(0, &rounds([0, 5, 0, 0])).unwrap();
    assert_eq!(second.committed_rounds.get(A1), Some(5));
    assert_eq!(waiter.targets().to_vec(), vec![(A1, 8)]);
    assert!(waiter.is_fetching());
}

#[test]
fn epoch_change_mid_fetch() {
    let mut waiter = waiter(50);
    assert!(waiter.on_missing_parent(&missing(A1, 5, 0), &Ok(Some(2))));
    assert!(waiter.kick(0, &rounds([0, 2, 0, 0])).is_some());
    // The new epoch clears the targets at once and leaves the task running.
    assert!(waiter.on_reconfigure(ReconfigureNotification::NewEpoch(committee(1))));
    assert!(waiter.targets().is_empty());
    assert!(waiter.is_fetching());
    assert_eq!(waiter.committee().epoch(), 1);
    // Certificates of the old epoch no longer count.
    assert!(!waiter.on_missing_parent(&missing(A1, 9, 0), &Ok(Some(2))));
    // The task ends; the kick that follows finds no work.
    assert!(waiter.on_fetch_task_completed());
    assert_eq!(waiter.kick(0, &rounds([0, 2, 0, 0])), None);
    assert!(!waiter.is_fetching());
}

#[test]
fn gc_drops_outstanding_target() {
    let mut waiter = waiter(50);
    assert!(waiter.on_missing_parent(&missing(A1, 5, 0), &Ok(Some(2))));
    // Consensus round 55 puts the garbage-collection round at 5: the target
    // is dropped although the store is still at round 2.
    assert_eq!(waiter.gc_round(55), 5);
    assert_eq!(waiter.kick(55, &rounds([0, 2, 0, 0])), None);
    assert!(waiter.targets().is_empty());
    // One round earlier it would have been kept.
    let mut other = self::waiter(50);
    other.on_missing_parent(&missing(A1, 5, 0), &Ok(Some(2)));
    assert!(other.kick(54, &rounds([0, 2, 0, 0])).is_some());
    assert_eq!(other.targets().to_vec(), vec![(A1, 5)]);
}

#[test]
fn consensus_store_is_a_round_source() {
    let waiter = CertificateWaiter::spawn(A0, committee(0), 50, RoundSource::ConsensusStore);
    assert_eq!(waiter.round_source(), RoundSource::ConsensusStore);
}
