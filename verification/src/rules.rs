//! The waiter's rules as mathematics: what a garbage-collection round is,
//! which missing-parent certificates raise a target, what a snapshot of
//! committed rounds holds, and which targets a kick keeps.

use crate::ordered_map::{listing, position};
use crate::types::{
    Certificate, CommitteeView, Epoch, NetworkPublicKey, PublicKey, ReconfigureView, Round,
    RoundSource, StoreError, StoreRead,
};
use vstd::prelude::*;

verus! {

/// The most certificates that one fetch request asks for, and that one
/// loopback message carries.
pub const MAX_CERTIFICATES_TO_FETCH: usize = 1000;

/// The larger of two rounds.
pub open spec fn max_round(a: Round, b: Round) -> Round {
    if a >= b {
        a
    } else {
        b
    }
}

/// The round at and below which everything counts as already covered:
/// the latest consensus round less the depth, and 0 where that would be
/// negative.
pub open spec fn gc_round_of(consensus_round: u64, gc_depth: Round) -> Round {
    if consensus_round >= gc_depth {
        (consensus_round - gc_depth) as Round
    } else {
        0
    }
}

/// The round that a successful read stands for: a participant unknown to the
/// store is at round 0, the genesis.
pub open spec fn round_of(read: StoreRead) -> Round {
    match read {
        Ok(Some(round)) => round,
        _ => 0,
    }
}

/// A certificate of the current epoch whose round is above the target already
/// set for its author, if there is one. Only for such a certificate is a store
/// read.
pub open spec fn passes_screen(
    targets: Map<PublicKey, Round>,
    epoch: Epoch,
    certificate: Certificate,
) -> bool {
    &&& certificate.epoch == epoch
    &&& !(targets.contains_key(certificate.author) && certificate.round
        <= targets[certificate.author])
}

/// The store answered, and with a round below the certificate's.
pub open spec fn read_admits(read: StoreRead, round: Round) -> bool {
    read is Ok && round_of(read) < round
}

/// The certificate becomes its author's target.
pub open spec fn raises_target(
    targets: Map<PublicKey, Round>,
    epoch: Epoch,
    certificate: Certificate,
    read: StoreRead,
) -> bool {
    passes_screen(targets, epoch, certificate) && read_admits(read, certificate.round)
}

/// The read that belongs to participant `a`, where `reads` holds one read for
/// each member in ascending order of participant.
pub open spec fn read_for(
    members: Map<PublicKey, NetworkPublicKey>,
    reads: Seq<StoreRead>,
    a: PublicKey,
) -> StoreRead {
    reads[position(listing(members), a)]
}

/// Every read succeeded.
pub open spec fn all_ok(reads: Seq<StoreRead>) -> bool {
    forall|i: int| 0 <= i < reads.len() ==> (#[trigger] reads[i]) is Ok
}

/// The failure of the first read that failed.
pub open spec fn first_failure(reads: Seq<StoreRead>) -> StoreError
    recommends
        !all_ok(reads),
{
    let at = choose|i: int|
        0 <= i < reads.len() && (#[trigger] reads[i]) is Err && forall|j: int|
            0 <= j < i ==> (#[trigger] reads[j]) is Ok;
    reads[at]->Err_0
}

/// Each member's last round as the reads give it.
pub open spec fn committed_rounds(
    members: Map<PublicKey, NetworkPublicKey>,
    reads: Seq<StoreRead>,
) -> Map<PublicKey, Round> {
    Map::new(
        |a: PublicKey| members.contains_key(a),
        |a: PublicKey| round_of(read_for(members, reads, a)),
    )
}

/// The rounds of `rounds`, none of them below `gc_round`.
pub open spec fn floored(rounds: Map<PublicKey, Round>, gc_round: Round) -> Map<PublicKey, Round> {
    rounds.map_values(|round: Round| max_round(round, gc_round))
}

/// The snapshot that a kick works on: each member's last round, and the
/// garbage-collection round where that is higher.
pub open spec fn snapshot(
    members: Map<PublicKey, NetworkPublicKey>,
    reads: Seq<StoreRead>,
    gc_round: Round,
) -> Map<PublicKey, Round> {
    floored(committed_rounds(members, reads), gc_round)
}

/// The round that participant `a` has reached according to a snapshot; one
/// that the snapshot does not list is at the garbage-collection round.
pub open spec fn covered(snapshot: Map<PublicKey, Round>, gc_round: Round, a: PublicKey) -> Round {
    if snapshot.contains_key(a) {
        snapshot[a]
    } else {
        gc_round
    }
}

/// The targets that are still ahead of the snapshot.
pub open spec fn pruned(
    targets: Map<PublicKey, Round>,
    snapshot: Map<PublicKey, Round>,
    gc_round: Round,
) -> Map<PublicKey, Round> {
    targets.restrict(
        Set::new(
            |a: PublicKey| targets.contains_key(a) && covered(snapshot, gc_round, a) < targets[a],
        ),
    )
}

/// What the waiter is between two events.
pub struct WaiterView {
    /// The participant that runs this waiter.
    pub name: PublicKey,
    pub committee: CommitteeView,
    pub gc_depth: Round,
    /// The store that committed rounds are read from.
    pub source: RoundSource,
    /// For each participant we lag behind, the round to catch up to.
    pub targets: Map<PublicKey, Round>,
    /// Whether a fetch task is running.
    pub fetching: bool,
}

impl WaiterView {
    /// The state in which a waiter starts.
    pub open spec fn initial(
        name: PublicKey,
        committee: CommitteeView,
        gc_depth: Round,
        source: RoundSource,
    ) -> WaiterView {
        WaiterView { name, committee, gc_depth, source, targets: Map::empty(), fetching: false }
    }

    /// After a certificate with missing parents came in, and the store was
    /// read for its author where the certificate passed the screen.
    pub open spec fn missing_parent(self, certificate: Certificate, read: StoreRead) -> WaiterView {
        if raises_target(self.targets, self.committee.epoch, certificate, read) {
            WaiterView { targets: self.targets.insert(certificate.author, certificate.round), ..self }
        } else {
            self
        }
    }

    /// Whether that certificate calls for a kick.
    pub open spec fn missing_parent_kicks(self, certificate: Certificate, read: StoreRead) -> bool {
        raises_target(self.targets, self.committee.epoch, certificate, read) && !self.fetching
    }

    /// After the running fetch task ended.
    pub open spec fn fetch_task_completed(self) -> WaiterView {
        WaiterView { fetching: false, ..self }
    }

    /// After a reconfiguration.
    pub open spec fn reconfigure(self, message: ReconfigureView) -> WaiterView {
        match message {
            ReconfigureView::NewEpoch(committee) => WaiterView {
                committee,
                targets: Map::empty(),
                ..self
            },
            ReconfigureView::UpdateCommittee(committee) => WaiterView { committee, ..self },
            ReconfigureView::Shutdown => self,
        }
    }

    /// The garbage-collection round at a consensus round.
    pub open spec fn gc_round(self, consensus_round: u64) -> Round {
        gc_round_of(consensus_round, self.gc_depth)
    }

    /// The snapshot that a kick takes from one read per member.
    pub open spec fn snapshot(self, consensus_round: u64, reads: Seq<StoreRead>) -> Map<
        PublicKey,
        Round,
    > {
        snapshot(self.committee.authorities, reads, self.gc_round(consensus_round))
    }

    /// A kick does its work: no fetch task is running, there is one store
    /// read for each member of the committee, and every read succeeded.
    pub open spec fn kick_proceeds(self, reads: Seq<StoreRead>) -> bool {
        &&& !self.fetching
        &&& reads.len() == listing(self.committee.authorities).len()
        &&& all_ok(reads)
    }

    /// The targets that a kick which does its work leaves.
    pub open spec fn targets_after_kick(self, consensus_round: u64, reads: Seq<StoreRead>) -> Map<
        PublicKey,
        Round,
    > {
        pruned(self.targets, self.snapshot(consensus_round, reads), self.gc_round(consensus_round))
    }

    /// Whether a kick launches a fetch task.
    pub open spec fn kick_launches(self, consensus_round: u64, reads: Seq<StoreRead>) -> bool {
        self.kick_proceeds(reads) && self.targets_after_kick(consensus_round, reads)
            != Map::<PublicKey, Round>::empty()
    }

    /// After a kick.
    pub open spec fn kick(self, consensus_round: u64, reads: Seq<StoreRead>) -> WaiterView {
        if self.kick_proceeds(reads) {
            WaiterView {
                targets: self.targets_after_kick(consensus_round, reads),
                fetching: self.kick_launches(consensus_round, reads),
                ..self
            }
        } else {
            self
        }
    }
}

/// One thing that happens to a waiter.
pub enum Event {
    /// A certificate with missing parents came in; the read is the store's
    /// answer for its author.
    MissingParent(Certificate, StoreRead),
    /// The running fetch task ended.
    FetchTaskCompleted,
    Reconfigure(ReconfigureView),
    /// A kick at the given consensus round, with one read per member.
    Kick(u64, Seq<StoreRead>),
}

impl WaiterView {
    /// After one event.
    pub open spec fn step(self, event: Event) -> WaiterView {
        match event {
            Event::MissingParent(certificate, read) => self.missing_parent(certificate, read),
            Event::FetchTaskCompleted => self.fetch_task_completed(),
            Event::Reconfigure(message) => self.reconfigure(message),
            Event::Kick(consensus_round, reads) => self.kick(consensus_round, reads),
        }
    }

    /// Whether the event launches a fetch task.
    pub open spec fn launches(self, event: Event) -> bool {
        match event {
            Event::Kick(consensus_round, reads) => self.kick_launches(consensus_round, reads),
            _ => false,
        }
    }

    /// Whether the event takes participant `a` out of the targets.
    pub open spec fn drops(self, event: Event, a: PublicKey) -> bool {
        self.targets.contains_key(a) && !self.step(event).targets.contains_key(a)
    }

    /// After a run of events, the first of them first.
    pub open spec fn run(self, events: Seq<Event>) -> WaiterView
        decreases events.len(),
    {
        if events.len() == 0 {
            self
        } else {
            self.run(events.drop_last()).step(events.last())
        }
    }
}

} // verus!
