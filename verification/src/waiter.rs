//! The waiter's event handlers and its fetch-task launcher.
//!
//! The waiter itself neither reads a store nor touches a channel. Its owner
//! runs the event loop, reads what a handler asks for, and hands the answers
//! in; every decision is taken here.

use crate::ordered_map::{
    ascending, entries_map, lemma_entries_map, listing, position, OrderedMap,
};
use crate::rules::{
    all_ok, committed_rounds, covered, first_failure, floored, gc_round_of, max_round,
    passes_screen, pruned, read_for, round_of, WaiterView,
};
use crate::types::{
    firsts, Certificate, Committee, DagError, PublicKey, ReconfigureNotification, Round,
    RoundSource, StoreRead,
};
use vstd::prelude::*;

verus! {

/// What a fetch task is launched with: a copy of the committee and the
/// snapshot of committed rounds, both as they were at the kick.
#[derive(Debug, PartialEq, Eq)]
pub struct FetchTask {
    /// The participant on whose behalf certificates are fetched.
    pub name: PublicKey,
    pub committee: Committee,
    /// For each member of the committee, the round above which certificates
    /// are asked for.
    pub committed_rounds: OrderedMap<Round>,
}

/// Tracks, for each participant whose certificates are missing, the round
/// that the local store must catch up to, and allows one fetch task at a time.
pub struct CertificateWaiter {
    name: PublicKey,
    committee: Committee,
    gc_depth: Round,
    source: RoundSource,
    targets: OrderedMap<Round>,
    fetching: bool,
}

impl View for CertificateWaiter {
    type V = WaiterView;

    closed spec fn view(&self) -> WaiterView {
        WaiterView {
            name: self.name,
            committee: self.committee@,
            gc_depth: self.gc_depth,
            source: self.source,
            targets: self.targets@,
            fetching: self.fetching,
        }
    }
}

/// The round that a successful read stands for, or the read's failure.
pub fn last_committed_round(read: &StoreRead) -> (result: Result<Round, DagError>)
    ensures
        match result {
            Ok(round) => *read is Ok && round == round_of(*read),
            Err(error) => *read is Err && error == DagError::StoreError(read->Err_0),
        },
{
    match read {
        Ok(Some(round)) => Ok(*round),
        Ok(None) => Ok(0),
        Err(error) => Err(DagError::StoreError(error.clone())),
    }
}

/// The rounds of `rounds`, each raised to `gc_round` where it is below.
pub fn floor_rounds(rounds: &OrderedMap<Round>, gc_round: Round) -> (out: OrderedMap<Round>)
    ensures
        out@ == floored(rounds@, gc_round),
{
    let list = rounds.to_vec();
    let mut raised: Vec<(PublicKey, Round)> = Vec::new();
    let mut i: usize = 0;
    while i < list.len()
        invariant
            i <= list.len(),
            raised.len() == i,
            forall|j: int|
                0 <= j < i ==> (#[trigger] raised@[j]) == (
                    list@[j].0,
                    max_round(list@[j].1, gc_round),
                ),
        decreases list.len() - i,
    {
        let (name, round) = list[i];
        let at_least = if round >= gc_round {
            round
        } else {
            gc_round
        };
        raised.push((name, at_least));
        i += 1;
    }
    proof {
        assert forall|a: int, b: int| 0 <= a < b < raised@.len() implies (#[trigger] raised@[a]).0.0
            < (#[trigger] raised@[b]).0.0 by {
            assert(list@[a].0.0 < list@[b].0.0);
        }
        lemma_entries_map(list@);
        lemma_entries_map(raised@);
        let want = floored(rounds@, gc_round);
        assert forall|k: PublicKey| #[trigger] want.contains_key(k) implies entries_map(
            raised@,
        ).contains_key(k) && entries_map(raised@)[k] == want[k] by {
            let p = position(list@, k);
            assert(raised@[p].0 == k);
        }
        assert forall|k: PublicKey| #[trigger]
            entries_map(raised@).contains_key(k) implies want.contains_key(k) by {
            let p = position(raised@, k);
            assert(list@[p].0 == k);
        }
        assert(entries_map(raised@) =~= want);
    }
    OrderedMap::from_ascending(raised)
}

impl CertificateWaiter {
    /// A waiter with no target and no fetch task.
    pub fn spawn(
        name: PublicKey,
        committee: Committee,
        gc_depth: Round,
        source: RoundSource,
    ) -> (waiter: CertificateWaiter)
        ensures
            waiter@ == WaiterView::initial(name, committee@, gc_depth, source),
    {
        CertificateWaiter {
            name,
            committee,
            gc_depth,
            source,
            targets: OrderedMap::new(),
            fetching: false,
        }
    }

    /// The garbage-collection round at the given consensus round.
    pub fn gc_round(&self, consensus_round: u64) -> (round: Round)
        ensures
            round == self@.gc_round(consensus_round),
            round == gc_round_of(consensus_round, self@.gc_depth),
    {
        consensus_round.saturating_sub(self.gc_depth)
    }

    /// Whether the store must be read for this certificate's author: the
    /// certificate is of the current epoch and above its author's target.
    pub fn needs_committed_round(&self, certificate: &Certificate) -> (needed: bool)
        ensures
            needed == passes_screen(self@.targets, self@.committee.epoch, *certificate),
    {
        if certificate.epoch != self.committee.epoch {
            return false;
        }
        match self.targets.get(certificate.author) {
            Some(target) => certificate.round > target,
            None => true,
        }
    }

    /// Takes in a certificate with missing parents and the store's answer for
    /// its author. Returns whether to kick.
    pub fn on_missing_parent(&mut self, certificate: &Certificate, read: &StoreRead) -> (kick: bool)
        ensures
            final(self)@ == old(self)@.missing_parent(*certificate, *read),
            kick == old(self)@.missing_parent_kicks(*certificate, *read),
    {
        if !self.needs_committed_round(certificate) {
            return false;
        }
        match last_committed_round(read) {
            Ok(round) => {
                if round >= certificate.round {
                    return false;
                }
            },
            Err(_) => {
                return false;
            },
        }
        self.targets.insert(certificate.author, certificate.round);
        !self.fetching
    }

    /// Takes in the end of the running fetch task. Returns whether to kick.
    pub fn on_fetch_task_completed(&mut self) -> (kick: bool)
        ensures
            final(self)@ == old(self)@.fetch_task_completed(),
            kick,
    {
        self.fetching = false;
        true
    }

    /// Takes in a reconfiguration. Returns whether the waiter goes on; it
    /// stops on `Shutdown` only.
    pub fn on_reconfigure(&mut self, message: ReconfigureNotification) -> (running: bool)
        ensures
            final(self)@ == old(self)@.reconfigure(message@),
            running == !(message is Shutdown),
    {
        match message {
            ReconfigureNotification::NewEpoch(committee) => {
                self.committee = committee;
                self.targets.clear();
                true
            },
            ReconfigureNotification::UpdateCommittee(committee) => {
                self.committee = committee;
                true
            },
            ReconfigureNotification::Shutdown => false,
        }
    }

    /// Each member's last round, from one read per member in ascending order
    /// of participant; or the failure of the first read that failed.
    pub fn all_committed_rounds(&self, reads: &Vec<StoreRead>) -> (result: Result<
        OrderedMap<Round>,
        DagError,
    >)
        requires
            reads.len() == listing(self@.committee.authorities).len(),
        ensures
            match result {
                Ok(rounds) => all_ok(reads@) && rounds@ == committed_rounds(
                    self@.committee.authorities,
                    reads@,
                ),
                Err(error) => !all_ok(reads@) && error == DagError::StoreError(
                    first_failure(reads@),
                ),
            },
    {
        let list = self.committee.authorities.to_vec();
        let ghost members = self.committee.authorities@;
        let mut rounds: Vec<(PublicKey, Round)> = Vec::new();
        let mut i: usize = 0;
        while i < list.len()
            invariant
                i <= list.len(),
                list.len() == reads.len(),
                rounds.len() == i,
                forall|j: int| 0 <= j < i ==> (#[trigger] reads@[j]) is Ok,
                forall|j: int|
                    0 <= j < i ==> (#[trigger] rounds@[j]) == (list@[j].0, round_of(reads@[j])),
            decreases list.len() - i,
        {
            match last_committed_round(&reads[i]) {
                Ok(round) => {
                    rounds.push((list[i].0, round));
                },
                Err(error) => {
                    proof {
                        let at = choose|k: int|
                            0 <= k < reads@.len() && (#[trigger] reads@[k]) is Err && forall|
                                j: int,
                            | 0 <= j < k ==> (#[trigger] reads@[j]) is Ok;
                        assert(reads@[i as int] is Err);
                        if at < i {
                            assert(reads@[at] is Ok);
                        }
                        if i < at {
                            assert(reads@[i as int] is Ok);
                        }
                    }
                    return Err(error);
                },
            }
            i += 1;
        }
        proof {
            assert forall|a: int, b: int| 0 <= a < b < rounds@.len() implies (
            #[trigger] rounds@[a]).0.0 < (#[trigger] rounds@[b]).0.0 by {
                assert(list@[a].0.0 < list@[b].0.0);
            }
            lemma_entries_map(list@);
            lemma_entries_map(rounds@);
            let want = committed_rounds(members, reads@);
            assert forall|k: PublicKey| #[trigger] want.contains_key(k) implies entries_map(
                rounds@,
            ).contains_key(k) && entries_map(rounds@)[k] == want[k] by {
                let p = position(list@, k);
                assert(rounds@[p].0 == k);
            }
            assert forall|k: PublicKey| #[trigger]
                entries_map(rounds@).contains_key(k) implies want.contains_key(k) by {
                let p = position(rounds@, k);
                assert(list@[p].0 == k);
            }
            assert(entries_map(rounds@) =~= want);
        }
        Ok(OrderedMap::from_ascending(rounds))
    }

    /// Drops every target that the snapshot has caught up with.
    fn prune_targets(&mut self, snapshot: &OrderedMap<Round>, gc_round: Round)
        ensures
            final(self)@ == (WaiterView {
                targets: pruned(old(self)@.targets, snapshot@, gc_round),
                ..old(self)@
            }),
    {
        let list = self.targets.to_vec();
        let ghost targets = self.targets@;
        let mut kept: Vec<(PublicKey, Round)> = Vec::new();
        let mut i: usize = 0;
        while i < list.len()
            invariant
                i <= list.len(),
                ascending(list@),
                ascending(kept@),
                entries_map(list@) == targets,
                forall|j: int|
                    0 <= j < kept@.len() ==> exists|m: int|
                        0 <= m < i && (#[trigger] kept@[j]) == list@[m] && covered(
                            snapshot@,
                            gc_round,
                            list@[m].0,
                        ) < list@[m].1,
                forall|m: int|
                    0 <= m < i && covered(snapshot@, gc_round, (#[trigger] list@[m]).0) < list@[m].1
                        ==> exists|j: int| 0 <= j < kept@.len() && (#[trigger] kept@[j]) == list@[m],
            decreases list.len() - i,
        {
            let (origin, target_round) = list[i];
            let committed_round = match snapshot.get(origin) {
                Some(round) => round,
                None => gc_round,
            };
            // Drop the target when the store already has an equal or higher
            // round for the origin. This applies garbage collection as well.
            if committed_round < target_round {
                let ghost before = kept@;
                kept.push((origin, target_round));
                proof {
                    assert forall|a: int, b: int| 0 <= a < b < kept@.len() implies (
                    #[trigger] kept@[a]).0.0 < (#[trigger] kept@[b]).0.0 by {
                        if b == before.len() {
                            let m = choose|m: int|
                                0 <= m < i && before[a] == list@[m] && covered(
                                    snapshot@,
                                    gc_round,
                                    list@[m].0,
                                ) < list@[m].1;
                            assert(list@[m].0.0 < list@[i as int].0.0);
                        } else {
                            assert(before[a].0.0 < before[b].0.0);
                        }
                    }
                    assert forall|j: int| 0 <= j < kept@.len() implies exists|m: int|
                        0 <= m < i + 1 && (#[trigger] kept@[j]) == list@[m] && covered(
                            snapshot@,
                            gc_round,
                            list@[m].0,
                        ) < list@[m].1 by {
                        if j == before.len() {
                            assert(kept@[j] == list@[i as int]);
                        } else {
                            let m = choose|m: int|
                                0 <= m < i && before[j] == list@[m] && covered(
                                    snapshot@,
                                    gc_round,
                                    list@[m].0,
                                ) < list@[m].1;
                            assert(kept@[j] == list@[m]);
                        }
                    }
                    assert forall|m: int|
                        0 <= m < i + 1 && covered(snapshot@, gc_round, (#[trigger] list@[m]).0)
                            < list@[m].1 implies exists|j: int|
                        0 <= j < kept@.len() && (#[trigger] kept@[j]) == list@[m] by {
                        if m == i {
                            assert(kept@[before.len() as int] == list@[m]);
                        } else {
                            let j = choose|j: int|
                                0 <= j < before.len() && (#[trigger] before[j]) == list@[m];
                            assert(kept@[j] == list@[m]);
                        }
                    }
                }
            }
            i += 1;
        }
        proof {
            lemma_entries_map(list@);
            lemma_entries_map(kept@);
            let want = pruned(targets, snapshot@, gc_round);
            assert forall|k: PublicKey| #[trigger] want.contains_key(k) implies entries_map(
                kept@,
            ).contains_key(k) && entries_map(kept@)[k] == want[k] by {
                let m = position(list@, k);
                assert(covered(snapshot@, gc_round, list@[m].0) < list@[m].1);
                let j = choose|j: int| 0 <= j < kept@.len() && (#[trigger] kept@[j]) == list@[m];
                assert(kept@[j].0 == k);
            }
            assert forall|k: PublicKey| #[trigger]
                entries_map(kept@).contains_key(k) implies want.contains_key(k) by {
                let j = position(kept@, k);
                let m = choose|m: int|
                    0 <= m < list@.len() && kept@[j] == list@[m] && covered(
                        snapshot@,
                        gc_round,
                        list@[m].0,
                    ) < list@[m].1;
                assert(list@[m].0 == k);
            }
            assert(entries_map(kept@) =~= want);
        }
        self.targets = OrderedMap::from_ascending(kept);
    }

    /// Launches a fetch task if none is running and targets remain once the
    /// store's progress and garbage collection are taken into account.
    ///
    /// `reads` holds one read per member of the committee, in ascending order
    /// of participant. If a read failed or is missing, or a fetch task is
    /// running, nothing changes.
    pub fn kick(&mut self, consensus_round: u64, reads: &Vec<StoreRead>) -> (launch: Option<
        FetchTask,
    >)
        ensures
            final(self)@ == old(self)@.kick(consensus_round, reads@),
            launch is Some <==> old(self)@.kick_launches(consensus_round, reads@),
            launch matches Some(task) ==> {
                &&& task.name == old(self)@.name
                &&& task.committee@ == old(self)@.committee
                &&& task.committed_rounds@ == old(self)@.snapshot(consensus_round, reads@)
                &&& forall|a: PublicKey| #[trigger]
                    final(self)@.targets.contains_key(a) ==> final(self)@.targets[a] > covered(
                        task.committed_rounds@,
                        old(self)@.gc_round(consensus_round),
                        a,
                    )
            },
    {
        if self.fetching || reads.len() != self.committee.size() {
            return None;
        }
        let gc_round = self.gc_round(consensus_round);
        let committed_rounds = match self.all_committed_rounds(reads) {
            Ok(rounds) => floor_rounds(&rounds, gc_round),
            Err(_) => {
                return None;
            },
        };
        self.prune_targets(&committed_rounds, gc_round);
        if self.targets.is_empty() {
            return None;
        }
        self.fetching = true;
        Some(FetchTask { name: self.name, committee: self.committee.clone(), committed_rounds })
    }

    /// The participant that runs this waiter.
    pub fn name(&self) -> (name: PublicKey)
        ensures
            name == self@.name,
    {
        self.name
    }

    pub fn committee(&self) -> (committee: &Committee)
        ensures
            committee@ == self@.committee,
    {
        &self.committee
    }

    /// The participants to read the store for before a kick, in the order in
    /// which the kick takes the reads.
    pub fn authorities(&self) -> (names: Vec<PublicKey>)
        ensures
            names@ == firsts(listing(self@.committee.authorities)),
            names.len() == listing(self@.committee.authorities).len(),
    {
        self.committee.authorities()
    }

    /// The store that committed rounds are read from.
    pub fn round_source(&self) -> (source: RoundSource)
        ensures
            source == self@.source,
    {
        self.source
    }

    pub fn targets(&self) -> (targets: &OrderedMap<Round>)
        ensures
            targets@ == self@.targets,
    {
        &self.targets
    }

    /// Whether a fetch task is running.
    pub fn is_fetching(&self) -> (fetching: bool)
        ensures
            fetching == self@.fetching,
    {
        self.fetching
    }
}

} // verus!
