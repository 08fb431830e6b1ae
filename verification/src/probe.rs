//! Peer probing: which peer a fetch task asks next.
//!
//! A fetch task asks one peer after another in a random order, a new one whenever
//! a call fails or an interval passes without an answer, and stops at the
//! first answer. When every peer has been asked it drops the calls that are
//! still open, draws a new order and starts over.

use crate::ordered_map::listing;
use crate::types::{others, Committee, FetchCertificatesResponse, NetworkPublicKey, PublicKey};
use crate::waiter::FetchTask;
use rand::seq::SliceRandom;
use vstd::prelude::*;

verus! {

/// What happened since the last request went out.
#[derive(Debug, PartialEq, Eq)]
pub enum ProbeEvent {
    /// Nothing yet: probing has just started.
    Start,
    /// A peer answered.
    Responded(FetchCertificatesResponse),
    /// A call to a peer failed.
    Failed,
    /// The interval passed without an answer.
    IntervalElapsed,
}

/// What a fetch task does next.
#[derive(Debug, PartialEq, Eq)]
pub enum ProbeAction {
    /// Send the request to `peer` and wait for an answer from any open call,
    /// for one interval at most. With `fresh_pass`, drop the open calls first.
    Request { peer: NetworkPublicKey, fresh_pass: bool },
    /// There is no peer to ask.
    Stall,
    /// Probing is over: this is the answer.
    Return(FetchCertificatesResponse),
}

impl ProbeAction {
    /// The action is a request to peer `p`.
    pub open spec fn asks(self, p: NetworkPublicKey) -> bool {
        match self {
            ProbeAction::Request { peer, .. } => peer == p,
            _ => false,
        }
    }
}

/// The peers in the order of the current pass, and how many of them have been
/// asked in it.
pub struct ProbeView {
    pub peers: Seq<NetworkPublicKey>,
    pub asked: nat,
}

/// One step of probing: from `pre` on `event` to `post` with `action`.
pub open spec fn probe_step(
    pre: ProbeView,
    event: ProbeEvent,
    post: ProbeView,
    action: ProbeAction,
) -> bool {
    match event {
        ProbeEvent::Responded(response) => post == pre && action == ProbeAction::Return(response),
        _ => if pre.peers.len() == 0 {
            post == pre && action == ProbeAction::Stall
        } else if pre.asked < pre.peers.len() {
            &&& post == (ProbeView { asked: pre.asked + 1, ..pre })
            &&& action == (ProbeAction::Request {
                peer: pre.peers[pre.asked as int],
                fresh_pass: false,
            })
        } else {
            &&& post.peers.to_multiset() == pre.peers.to_multiset()
            &&& post.asked == 1
            &&& action == (ProbeAction::Request { peer: post.peers[0], fresh_pass: true })
        },
    }
}

/// The probing state of one fetch task.
pub struct PeerProbe {
    peers: Vec<NetworkPublicKey>,
    asked: usize,
}

impl View for PeerProbe {
    type V = ProbeView;

    closed spec fn view(&self) -> ProbeView {
        ProbeView { peers: self.peers@, asked: self.asked as nat }
    }
}

/// Puts `peers` into a random order, with `rand`'s `SliceRandom::shuffle` and
/// the thread's generator. The order is not fixed by the inputs; what comes
/// back holds the same peers, each as often as before.
#[verifier::external_body]
fn shuffle(peers: &mut Vec<NetworkPublicKey>)
    ensures
        final(peers)@.to_multiset() == old(peers)@.to_multiset(),
{
    peers.shuffle(&mut rand::rngs::ThreadRng::default());
}

impl PeerProbe {
    /// Probing on behalf of `name` among the other members of `committee`,
    /// before the first pass.
    pub fn new(name: PublicKey, committee: &Committee) -> (probe: PeerProbe)
        ensures
            probe@.peers == others(listing(committee@.authorities), name),
            probe@.asked == probe@.peers.len(),
    {
        let peers = committee.others_primaries(name);
        let asked = peers.len();
        PeerProbe { peers, asked }
    }

    /// Takes in what happened and says what to do next.
    pub fn step(&mut self, event: ProbeEvent) -> (action: ProbeAction)
        ensures
            probe_step(old(self)@, event, final(self)@, action),
    {
        match event {
            ProbeEvent::Responded(response) => ProbeAction::Return(response),
            _ => {
                if self.peers.len() == 0 {
                    ProbeAction::Stall
                } else if self.asked < self.peers.len() {
                    let peer = self.peers[self.asked];
                    self.asked = self.asked + 1;
                    ProbeAction::Request { peer, fresh_pass: false }
                } else {
                    shuffle(&mut self.peers);
                    proof {
                        old(self).peers@.to_multiset_ensures();
                        self.peers@.to_multiset_ensures();
                    }
                    self.asked = 1;
                    ProbeAction::Request { peer: self.peers[0], fresh_pass: true }
                }
            },
        }
    }

    /// The peers in the order of the current pass.
    pub fn peers(&self) -> (peers: &Vec<NetworkPublicKey>)
        ensures
            peers@ == self@.peers,
    {
        &self.peers
    }
}

impl FetchTask {
    /// The probing state in which a fetch task with these inputs starts.
    pub fn probe(&self) -> (probe: PeerProbe)
        ensures
            probe@.peers == others(listing(self.committee@.authorities), self.name),
            probe@.asked == probe@.peers.len(),
    {
        PeerProbe::new(self.name, &self.committee)
    }
}

} // verus!
