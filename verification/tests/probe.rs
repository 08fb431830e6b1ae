use certificate_waiter::ordered_map::OrderedMap;
use certificate_waiter::probe::{PeerProbe, ProbeAction, ProbeEvent};
use certificate_waiter::types::{
    Certificate, Committee, FetchCertificatesResponse, NetworkPublicKey, PublicKey,
};
use certificate_waiter::waiter::FetchTask;

fn committee_of(size: u64) -> Committee {
    let mut committee = Committee::new(0);
    for i in 0..size {
        committee.add(PublicKey(i), NetworkPublicKey(1000 + i));
    }
    committee
}

fn response(count: usize) -> FetchCertificatesResponse {
    let certificates = (0..count)
        .map(|i| Certificate { author: PublicKey(1), round: i as u64, epoch: 0, payload: vec![] })
        .collect();
    FetchCertificatesResponse { certificates }
}

fn requested(action: ProbeAction) -> (NetworkPublicKey, bool) {
    match action {
        ProbeAction::Request { peer, fresh_pass } => (peer, fresh_pass),
        other => panic!("expected a request, got {:?}", other),
    }
}

#[test]
fn probe_starts_with_the_other_primaries() {
    let probe = PeerProbe::new(PublicKey(2), &committee_of(4));
    assert_eq!(
        probe.peers(),
        &vec![NetworkPublicKey(1000), NetworkPublicKey(1001), NetworkPublicKey(1003)]
    );
    let task = FetchTask {
        name: PublicKey(0),
        committee: committee_of(3),
        committed_rounds: OrderedMap::new(),
    };
    assert_eq!(task.probe().peers(), &vec![NetworkPublicKey(1001), NetworkPublicKey(1002)]);
}

#[test]
fn peer_failure_cascade() {
    let mut probe = PeerProbe::new(PublicKey(0), &committee_of(4));
    let mut intervals = 0;
    // The first request opens a pass.
    let (first, fresh) = requested(probe.step(ProbeEvent::Start));
    assert!(fresh);
    // The first peer errors: the second is asked at once.
    let (second, fresh) = requested(probe.step(ProbeEvent::Failed));
    assert!(!fresh);
    // The second stays silent for a whole interval: the third is asked,
    // and the second call stays open.
    intervals += 1;
    let (third, fresh) = requested(probe.step(ProbeEvent::IntervalElapsed));
    assert!(!fresh);
    // The third answers: probing returns its answer.
    assert_eq!(probe.step(ProbeEvent::Responded(response(3))), ProbeAction::Return(response(3)));
    // One interval of 5 s was waited out in full, the second not.
    assert_eq!(intervals, 1);
    // Three different peers were asked, in the order of the pass.
    assert_eq!(&vec![first, second, third], probe.peers());
    let mut asked = vec![first, second, third];
    asked.sort();
    assert_eq!(asked, vec![NetworkPublicKey(1001), NetworkPublicKey(1002), NetworkPublicKey(1003)]);
}

#[test]
fn every_peer_is_asked_once_per_pass() {
    let mut probe = PeerProbe::new(PublicKey(7), &committee_of(10));
    for pass in 0..5 {
        let mut asked = Vec::new();
        for turn in 0..9 {
            let event = if turn % 2 == 0 { ProbeEvent::IntervalElapsed } else { ProbeEvent::Failed };
            let (peer, fresh) = requested(probe.step(event));
            assert_eq!(fresh, turn == 0, "pass {pass}, turn {turn}");
            asked.push(peer);
        }
        assert_eq!(&asked, probe.peers());
        asked.sort();
        let mut everyone: Vec<_> = (0..10).filter(|i| *i != 7).map(|i| NetworkPublicKey(1000 + i)).collect();
        everyone.sort();
        assert_eq!(asked, everyone);
    }
}

#[test]
fn passes_come_in_different_orders() {
    let mut probe = PeerProbe::new(PublicKey(0), &committee_of(21));
    let initial = probe.peers().clone();
    let mut orders = Vec::new();
    for _ in 0..8 {
        for _ in 0..20 {
            requested(probe.step(ProbeEvent::IntervalElapsed));
        }
        orders.push(probe.peers().clone());
    }
    // Twenty peers have more orders than could repeat eight times by chance.
    assert!(orders.iter().any(|order| order != &initial));
    assert!(orders.iter().any(|order| order != &orders[0]));
}

#[test]
fn answer_ends_probing_at_any_point() {
    let mut probe = PeerProbe::new(PublicKey(0), &committee_of(3));
    assert_eq!(probe.step(ProbeEvent::Responded(response(0))), ProbeAction::Return(response(0)));
    requested(probe.step(ProbeEvent::Start));
    let before = probe.peers().clone();
    assert_eq!(probe.step(ProbeEvent::Responded(response(2))), ProbeAction::Return(response(2)));
    assert_eq!(probe.peers(), &before);
}

#[test]
fn committee_of_one_has_nobody_to_ask() {
    let mut probe = PeerProbe::new(PublicKey(0), &committee_of(1));
    assert!(probe.peers().is_empty());
    assert_eq!(probe.step(ProbeEvent::Start), ProbeAction::Stall);
    assert_eq!(probe.step(ProbeEvent::IntervalElapsed), ProbeAction::Stall);
    assert_eq!(probe.step(ProbeEvent::Failed), ProbeAction::Stall);
}
