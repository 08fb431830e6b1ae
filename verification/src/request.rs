//! What a fetch request asks for.

use crate::ordered_map::{ascending, entries_map, lemma_entries_map, listing, position};
use crate::rules::MAX_CERTIFICATES_TO_FETCH;
use crate::types::{
    Certificate, FetchCertificatesRequest, FetchCertificatesResponse, PublicKey, Round,
};
use crate::waiter::FetchTask;
use vstd::prelude::*;

verus! {

/// The round above which certificates of participant `a` are asked for: the
/// bound of the first entry that lists `a`, and 0 where none does.
pub open spec fn lower_bound(bounds: Seq<(PublicKey, Round)>, a: PublicKey) -> Round
    decreases bounds.len(),
{
    if bounds.len() == 0 {
        0
    } else if bounds[0].0 == a {
        bounds[0].1
    } else {
        lower_bound(bounds.drop_first(), a)
    }
}

/// The certificate is one that the bounds ask for: its round is above its
/// author's bound.
pub open spec fn asked_for(bounds: Seq<(PublicKey, Round)>, certificate: Certificate) -> bool {
    certificate.round > lower_bound(bounds, certificate.author)
}

/// What a peer that holds `available` answers: the certificates asked for, in
/// the order in which it holds them, and no more of them than `max_items`.
pub open spec fn answer(
    bounds: Seq<(PublicKey, Round)>,
    max_items: nat,
    available: Seq<Certificate>,
) -> Seq<Certificate> {
    let wanted = available.filter(|certificate: Certificate| asked_for(bounds, certificate));
    if wanted.len() <= max_items {
        wanted
    } else {
        wanted.take(max_items as int)
    }
}

/// With ascending keys, the bound of a listed participant is its entry, and
/// that of any other is 0.
pub proof fn lemma_lower_bound(bounds: Seq<(PublicKey, Round)>, a: PublicKey)
    requires
        ascending(bounds),
    ensures
        lower_bound(bounds, a) == (if entries_map(bounds).contains_key(a) {
            entries_map(bounds)[a]
        } else {
            0
        }),
    decreases bounds.len(),
{
    lemma_entries_map(bounds);
    if bounds.len() == 0 {
    } else if bounds[0].0 == a {
    } else {
        let rest = bounds.drop_first();
        assert forall|i: int, j: int| 0 <= i < j < rest.len() implies (#[trigger] rest[i]).0.0 < (
        #[trigger] rest[j]).0.0 by {
            assert(rest[i] == bounds[i + 1] && rest[j] == bounds[j + 1]);
        }
        lemma_lower_bound(rest, a);
        lemma_entries_map(rest);
        if entries_map(rest).contains_key(a) {
            let p = position(rest, a);
            assert(rest[p] == bounds[p + 1]);
            assert(entries_map(bounds).contains_key(a));
            assert(entries_map(bounds)[bounds[p + 1].0] == bounds[p + 1].1);
        } else {
            if entries_map(bounds).contains_key(a) {
                let q = position(bounds, a);
                assert(q > 0);
                assert(rest[q - 1] == bounds[q]);
                assert(entries_map(rest).contains_key(rest[q - 1].0));
            }
        }
    }
}

impl FetchCertificatesRequest {
    /// The round above which certificates of `author` are asked for.
    pub fn lower_bound(&self, author: PublicKey) -> (bound: Round)
        ensures
            bound == lower_bound(self.exclusive_lower_bounds@, author),
    {
        let ghost bounds = self.exclusive_lower_bounds@;
        let mut i: usize = 0;
        assert(bounds.skip(0) =~= bounds);
        while i < self.exclusive_lower_bounds.len()
            invariant
                i <= self.exclusive_lower_bounds.len(),
                bounds == self.exclusive_lower_bounds@,
                lower_bound(bounds, author) == lower_bound(bounds.skip(i as int), author),
            decreases self.exclusive_lower_bounds.len() - i,
        {
            if self.exclusive_lower_bounds[i].0 == author {
                return self.exclusive_lower_bounds[i].1;
            }
            assert(bounds.skip(i as int).drop_first() =~= bounds.skip(i + 1));
            i += 1;
        }
        0
    }

    /// Whether the request asks for this certificate.
    pub fn asks_for(&self, certificate: &Certificate) -> (asked: bool)
        ensures
            asked == asked_for(self.exclusive_lower_bounds@, *certificate),
    {
        certificate.round > self.lower_bound(certificate.author)
    }

    /// The answer of a peer that holds `available`.
    pub fn select(&self, available: Vec<Certificate>) -> (response: FetchCertificatesResponse)
        ensures
            response.certificates@ == answer(
                self.exclusive_lower_bounds@,
                self.max_items as nat,
                available@,
            ),
            response.certificates@.len() <= self.max_items,
    {
        let ghost bounds = self.exclusive_lower_bounds@;
        let ghost all = available@;
        let ghost pred = |certificate: Certificate| asked_for(bounds, certificate);
        let mut certificates: Vec<Certificate> = Vec::new();
        assert(all.take(0).filter(pred) =~= Seq::<Certificate>::empty()) by {
            reveal(Seq::filter);
        }
        for certificate in it: available
            invariant
                it.seq() == all,
                bounds == self.exclusive_lower_bounds@,
                pred == |certificate: Certificate| asked_for(bounds, certificate),
                certificates@.len() <= self.max_items,
                certificates@ == answer(bounds, self.max_items as nat, all.take(it.index() as int)),
        {
            proof {
                let i = it.index() as int;
                let head = all.take(i);
                let next = all.take(i + 1);
                assert(next.drop_last() =~= head);
                assert(next.last() == all[i]);
                assert(certificate == all[i]);
                reveal(Seq::filter);
                if pred(all[i]) {
                    assert(next.filter(pred) == head.filter(pred).push(all[i]));
                    if head.filter(pred).len() >= self.max_items {
                        assert(next.filter(pred).take(self.max_items as int) =~= head.filter(
                            pred,
                        ).take(self.max_items as int));
                        assert(head.filter(pred).take(head.filter(pred).len() as int)
                            =~= head.filter(pred));
                    }
                } else {
                    assert(next.filter(pred) == head.filter(pred));
                }
            }
            if certificates.len() < self.max_items && self.asks_for(&certificate) {
                certificates.push(certificate);
            }
        }
        assert(all.take(all.len() as int) =~= all);
        FetchCertificatesResponse { certificates }
    }
}

impl FetchTask {
    /// The request that goes out to peers: the snapshot of committed
    /// rounds as lower bounds, in ascending order of participant.
    pub fn request(&self) -> (request: FetchCertificatesRequest)
        ensures
            request.exclusive_lower_bounds@ == listing(self.committed_rounds@),
            ascending(request.exclusive_lower_bounds@),
            entries_map(request.exclusive_lower_bounds@) == self.committed_rounds@,
            request.max_items == MAX_CERTIFICATES_TO_FETCH,
    {
        FetchCertificatesRequest {
            exclusive_lower_bounds: self.committed_rounds.to_vec(),
            max_items: MAX_CERTIFICATES_TO_FETCH,
        }
    }
}

} // verus!
