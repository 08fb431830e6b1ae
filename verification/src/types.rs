//! Plain data shared by every part of the waiter.

use crate::ordered_map::{lemma_entries_len, listing, OrderedMap};
use vstd::prelude::*;

verus! {

/// A layer index in the DAG.
pub type Round = u64;

/// A committee-membership era.
pub type Epoch = u64;

/// The identity of a consensus participant: the number under which its public
/// key is registered. Two identities are the same participant exactly when the
/// numbers are equal, and participants are ordered by that number.
#[derive(Clone, Copy, Debug, PartialEq, Eq, PartialOrd, Ord, Hash, Structural)]
pub struct PublicKey(pub u64);

/// The network identity under which a primary answers peer requests.
#[derive(Clone, Copy, Debug, PartialEq, Eq, PartialOrd, Ord, Hash, Structural)]
pub struct NetworkPublicKey(pub u64);

/// A verified DAG vertex. The waiter reads its author, round and epoch and
/// carries the rest along untouched.
#[derive(Clone, Debug, PartialEq, Eq)]
pub struct Certificate {
    pub author: PublicKey,
    pub round: Round,
    pub epoch: Epoch,
    /// The certificate as its producer encoded it.
    pub payload: Vec<u8>,
}

/// Why a store could not answer.
#[derive(Debug, PartialEq, Eq)]
pub struct StoreError {
    pub reason: String,
}

impl Clone for StoreError {
    fn clone(&self) -> (copy: Self)
        ensures
            copy == *self,
    {
        StoreError { reason: self.reason.clone() }
    }
}

/// What a store answers when asked for a participant's last round: the round,
/// nothing if the participant is unknown to it, or a failure.
pub type StoreRead = Result<Option<Round>, StoreError>;

/// The store that holds each participant's highest durably known round.
#[derive(Clone, Copy, Debug, PartialEq, Eq, Structural)]
pub enum RoundSource {
    /// The consensus store: the last committed round.
    ConsensusStore,
    /// The certificate store: the last stored round.
    CertificateStore,
}

#[derive(Clone, Debug, PartialEq, Eq)]
pub enum DagError {
    /// A store could not be read.
    StoreError(StoreError),
    /// A peer answered with more certificates than were asked for: the number
    /// returned, then the limit.
    TooManyFetchedCertificatesReturned(usize, usize),
    /// A channel to another component of the primary is gone.
    ClosedChannel(String),
}

/// An epoch-tagged set of participants with the network identity of each.
#[derive(Debug, PartialEq, Eq)]
pub struct Committee {
    pub epoch: Epoch,
    pub authorities: OrderedMap<NetworkPublicKey>,
}

/// What a committee is: its epoch and who belongs to it.
pub struct CommitteeView {
    pub epoch: Epoch,
    pub authorities: Map<PublicKey, NetworkPublicKey>,
}

impl View for Committee {
    type V = CommitteeView;

    open spec fn view(&self) -> CommitteeView {
        CommitteeView { epoch: self.epoch, authorities: self.authorities@ }
    }
}

impl Clone for Committee {
    fn clone(&self) -> (copy: Self)
        ensures
            copy@ == self@,
    {
        Committee { epoch: self.epoch, authorities: self.authorities.clone() }
    }
}

/// The first components of a list of pairs.
pub open spec fn firsts<A, B>(s: Seq<(A, B)>) -> Seq<A> {
    s.map_values(|entry: (A, B)| entry.0)
}

/// The network identities of everyone in `members` but `myself`, in the order
/// of `members`.
pub open spec fn others(
    members: Seq<(PublicKey, NetworkPublicKey)>,
    myself: PublicKey,
) -> Seq<NetworkPublicKey> {
    members.filter(|member: (PublicKey, NetworkPublicKey)| member.0 != myself).map_values(
        |member: (PublicKey, NetworkPublicKey)| member.1,
    )
}

impl Committee {
    /// A committee of nobody.
    pub fn new(epoch: Epoch) -> (committee: Committee)
        ensures
            committee@.epoch == epoch,
            committee@.authorities == Map::<PublicKey, NetworkPublicKey>::empty(),
    {
        Committee { epoch, authorities: OrderedMap::new() }
    }

    /// Adds a participant, or replaces its network identity.
    pub fn add(&mut self, name: PublicKey, network_key: NetworkPublicKey)
        ensures
            final(self)@.epoch == old(self)@.epoch,
            final(self)@.authorities == old(self)@.authorities.insert(name, network_key),
    {
        self.authorities.insert(name, network_key);
    }

    pub fn epoch(&self) -> (epoch: Epoch)
        ensures
            epoch == self@.epoch,
    {
        self.epoch
    }

    /// How many participants the committee has.
    pub fn size(&self) -> (n: usize)
        ensures
            self@.authorities.dom().finite(),
            n == self@.authorities.len(),
            n == listing(self@.authorities).len(),
    {
        let list = self.authorities.to_vec();
        proof {
            lemma_entries_len(list@);
        }
        list.len()
    }

    /// The participants in ascending order.
    pub fn authorities(&self) -> (names: Vec<PublicKey>)
        ensures
            names@ == firsts(listing(self@.authorities)),
    {
        let list = self.authorities.to_vec();
        let mut names: Vec<PublicKey> = Vec::new();
        let mut i: usize = 0;
        while i < list.len()
            invariant
                i <= list.len(),
                names@ == firsts(list@.take(i as int)),
            decreases list.len() - i,
        {
            names.push(list[i].0);
            assert(firsts(list@.take(i as int)).push(list@[i as int].0) =~= firsts(
                list@.take(i + 1),
            ));
            i += 1;
        }
        assert(list@.take(list.len() as int) =~= list@);
        names
    }

    /// The network identities of all participants but `myself`, in ascending
    /// order of participant.
    pub fn others_primaries(&self, myself: PublicKey) -> (peers: Vec<NetworkPublicKey>)
        ensures
            peers@ == others(listing(self@.authorities), myself),
    {
        let list = self.authorities.to_vec();
        let mut peers: Vec<NetworkPublicKey> = Vec::new();
        let mut i: usize = 0;
        assert(others(list@.take(0), myself) =~= Seq::<NetworkPublicKey>::empty()) by {
            reveal(Seq::filter);
        }
        while i < list.len()
            invariant
                i <= list.len(),
                peers@ == others(list@.take(i as int), myself),
            decreases list.len() - i,
        {
            proof {
                let pred = |member: (PublicKey, NetworkPublicKey)| member.0 != myself;
                let head = list@.take(i as int);
                let next = list@.take(i + 1);
                assert(next.drop_last() =~= head);
                assert(next.last() == list@[i as int]);
                reveal(Seq::filter);
                if pred(list@[i as int]) {
                    assert(next.filter(pred) == head.filter(pred).push(list@[i as int]));
                    assert(others(next, myself) =~= others(head, myself).push(list@[i as int].1));
                } else {
                    assert(next.filter(pred) == head.filter(pred));
                }
            }
            if list[i].0 != myself {
                peers.push(list[i].1);
            }
            i += 1;
        }
        assert(list@.take(list.len() as int) =~= list@);
        peers
    }
}

/// A change of committee, or the order to stop.
#[derive(Clone, Debug, PartialEq, Eq)]
pub enum ReconfigureNotification {
    /// A new epoch begins with this committee.
    NewEpoch(Committee),
    /// The committee of the current epoch changed in place, with the same
    /// participants.
    UpdateCommittee(Committee),
    Shutdown,
}

/// What a reconfiguration says, over the views of the committees.
pub enum ReconfigureView {
    NewEpoch(CommitteeView),
    UpdateCommittee(CommitteeView),
    Shutdown,
}

impl View for ReconfigureNotification {
    type V = ReconfigureView;

    open spec fn view(&self) -> ReconfigureView {
        match self {
            ReconfigureNotification::NewEpoch(committee) => ReconfigureView::NewEpoch(committee@),
            ReconfigureNotification::UpdateCommittee(committee) => ReconfigureView::UpdateCommittee(
                committee@,
            ),
            ReconfigureNotification::Shutdown => ReconfigureView::Shutdown,
        }
    }
}

/// For each listed participant the round above which certificates are wanted,
/// and the largest number of certificates that may come back.
#[derive(Clone, Debug, PartialEq, Eq)]
pub struct FetchCertificatesRequest {
    pub exclusive_lower_bounds: Vec<(PublicKey, Round)>,
    pub max_items: usize,
}

#[derive(Clone, Debug, PartialEq, Eq)]
pub struct FetchCertificatesResponse {
    pub certificates: Vec<Certificate>,
}

} // verus!
