use vstd::prelude::*;
use crate::types::{copy_hashes, Address, TxHash};
use crate::scanner::AgeClassification;

verus! {

/// The hashes of the censored entries of `cs` whose sender is `s`, in scan order.
pub open spec fn picks(cs: Seq<AgeClassification>, s: Option<Address>) -> Seq<TxHash>
    decreases cs.len(),
{
    if cs.len() == 0 {
        Seq::empty()
    } else {
        let rest = picks(cs.drop_last(), s);
        if cs.last().is_censored && cs.last().sender == s {
            rest.push(cs.last().hash)
        } else {
            rest
        }
    }
}

/// The number of censored entries of `cs`.
pub open spec fn censored_count(cs: Seq<AgeClassification>) -> nat
    decreases cs.len(),
{
    if cs.len() == 0 {
        0
    } else {
        censored_count(cs.drop_last()) + if cs.last().is_censored { 1nat } else { 0nat }
    }
}

/// The sum of the lengths of the backlogs.
pub open spec fn total_len(bs: Seq<Vec<TxHash>>) -> nat
    decreases bs.len(),
{
    if bs.len() == 0 {
        0
    } else {
        total_len(bs.drop_last()) + bs.last()@.len()
    }
}

/// Censored transactions split by sender: `backlogs[k]` belongs to `senders[k]`,
/// and `orphans` holds those whose sender could not be recovered.
pub struct Grouping {
    pub senders: Vec<Address>,
    pub backlogs: Vec<Vec<TxHash>>,
    pub orphans: Vec<TxHash>,
}

impl Grouping {
    /// `self` is the grouping of the censored entries of `cs`.
    pub open spec fn groups(&self, cs: Seq<AgeClassification>) -> bool {
        &&& self.senders@.len() == self.backlogs@.len()
        &&& forall|k: int, l: int|
            0 <= k < l < self.senders@.len() ==> self.senders@[k] != self.senders@[l]
        &&& forall|k: int|
            0 <= k < self.backlogs@.len() ==> #[trigger] self.backlogs@[k]@ == picks(
                cs,
                Some(self.senders@[k]),
            )
        &&& forall|k: int| 0 <= k < self.backlogs@.len() ==> #[trigger] self.backlogs@[k]@.len() > 0
        &&& forall|j: int|
            0 <= j < cs.len() && (#[trigger] cs[j]).is_censored && cs[j].sender.is_some()
                ==> exists|k: int|
                0 <= k < self.senders@.len() && self.senders@[k] == cs[j].sender->0
        &&& self.orphans@ == picks(cs, None)
    }
}

proof fn lemma_total_len_set(bs: Seq<Vec<TxHash>>, k: int, v: Vec<TxHash>)
    requires
        0 <= k < bs.len(),
    ensures
        total_len(bs.update(k, v)) + bs[k]@.len() == total_len(bs) + v@.len(),
    decreases bs.len(),
{
    let u = bs.update(k, v);
    if k == bs.len() - 1 {
        assert(u.drop_last() =~= bs.drop_last());
    } else {
        assert(u.drop_last() =~= bs.drop_last().update(k, v));
        lemma_total_len_set(bs.drop_last(), k, v);
    }
}

proof fn lemma_total_len_push(bs: Seq<Vec<TxHash>>, v: Vec<TxHash>)
    ensures
        total_len(bs.push(v)) == total_len(bs) + v@.len(),
{
    assert(bs.push(v).drop_last() =~= bs);
}

/// Position of `a` in `senders`, if any.
fn find_sender(senders: &Vec<Address>, a: Address) -> (r: Option<usize>)
    ensures
        match r {
            Some(k) => k < senders@.len() && senders@[k as int] == a,
            None => forall|k: int| 0 <= k < senders@.len() ==> senders@[k] != a,
        },
{
    let mut k: usize = 0;
    while k < senders.len()
        invariant
            k <= senders@.len(),
            forall|l: int| 0 <= l < k ==> senders@[l] != a,
        decreases senders@.len() - k,
    {
        if senders[k] == a {
            return Some(k);
        }
        k = k + 1;
    }
    None
}

/// Splits the censored entries of a scan by sender, keeping scan order
/// within each backlog; each censored entry lands in exactly one place.
pub fn group(cs: &Vec<AgeClassification>) -> (g: Grouping)
    ensures
        g.groups(cs@),
        total_len(g.backlogs@) + g.orphans@.len() == censored_count(cs@),
{
    let mut senders: Vec<Address> = Vec::new();
    let mut backlogs: Vec<Vec<TxHash>> = Vec::new();
    let mut orphans: Vec<TxHash> = Vec::new();
    let mut i: usize = 0;
    while i < cs.len()
        invariant
            i <= cs@.len(),
            senders@.len() == backlogs@.len(),
            forall|k: int, l: int| 0 <= k < l < senders@.len() ==> senders@[k] != senders@[l],
            forall|k: int|
                0 <= k < backlogs@.len() ==> #[trigger] backlogs@[k]@ == picks(
                    cs@.take(i as int),
                    Some(senders@[k]),
                ),
            forall|k: int| 0 <= k < backlogs@.len() ==> #[trigger] backlogs@[k]@.len() > 0,
            forall|j: int|
                0 <= j < i && (#[trigger] cs@[j]).is_censored && cs@[j].sender.is_some()
                    ==> exists|k: int| 0 <= k < senders@.len() && senders@[k] == cs@[j].sender->0,
            orphans@ == picks(cs@.take(i as int), None),
            total_len(backlogs@) + orphans@.len() == censored_count(cs@.take(i as int)),
        decreases cs@.len() - i,
    {
        let c = cs[i];
        let ghost prev = cs@.take(i as int);
        let ghost next = cs@.take(i + 1);
        let ghost old_senders = senders@;
        assert(next.drop_last() =~= prev);
        assert(next.last() == c);
        if c.is_censored {
            match c.sender {
                None => {
                    orphans.push(c.hash);
                },
                Some(a) => {
                    match find_sender(&senders, a) {
                        Some(k) => {
                            let mut nb = copy_hashes(&backlogs[k]);
                            nb.push(c.hash);
                            proof {
                                lemma_total_len_set(backlogs@, k as int, nb);
                            }
                            backlogs.set(k, nb);
                            assert(senders@[k as int] == cs@[i as int].sender->0);
                        },
                        None => {
                            let mut nb: Vec<TxHash> = Vec::new();
                            nb.push(c.hash);
                            proof {
                                lemma_total_len_push(backlogs@, nb);
                                assert(picks(prev, Some(a)).len() == 0) by {
                                    lemma_picks_absent(prev, a);
                                }
                            }
                            senders.push(a);
                            backlogs.push(nb);
                            assert(senders@[senders@.len() - 1] == cs@[i as int].sender->0);
                        },
                    }
                },
            }
        }
        proof {
            assert(senders@.len() >= old_senders.len());
            assert forall|j: int|
                0 <= j < i && (#[trigger] cs@[j]).is_censored && cs@[j].sender.is_some() implies exists|k: int|
                0 <= k < senders@.len() && senders@[k] == cs@[j].sender->0 by {
                let k = choose|k: int| 0 <= k < old_senders.len() && old_senders[k] == cs@[j].sender->0;
                assert(senders@[k] == old_senders[k]);
            }
        }
        i = i + 1;
    }
    assert(cs@.take(cs@.len() as int) =~= cs@);
    Grouping { senders, backlogs, orphans }
}

proof fn lemma_picks_absent(cs: Seq<AgeClassification>, a: Address)
    requires
        forall|j: int| 0 <= j < cs.len() && (#[trigger] cs[j]).is_censored ==> cs[j].sender != Some(a),
    ensures
        picks(cs, Some(a)).len() == 0,
    decreases cs.len(),
{
    if cs.len() > 0 {
        lemma_picks_absent(cs.drop_last(), a);
    }
}

} // verus!
