use vstd::prelude::*;
use crate::types::{Address, PendingTransaction, TxHash};

verus! {

/// Time spent in the pool; a pool-entry time in the future counts as zero.
pub open spec fn age_of(entered_at: u64, now: u64) -> nat {
    if now >= entered_at { (now - entered_at) as nat } else { 0 }
}

/// A transaction is censored once its age exceeds the threshold.
pub open spec fn censored(entered_at: u64, now: u64, threshold: u64) -> bool {
    age_of(entered_at, now) > threshold
}

/// The classification of one pool entry.
#[derive(Clone, Copy, Debug, PartialEq, Eq, Structural)]
pub struct AgeClassification {
    pub hash: TxHash,
    pub sender: Option<Address>,
    pub age: u64,
    pub is_censored: bool,
}

/// What the scan yields for one pool entry.
pub open spec fn classify_spec(tx: PendingTransaction, now: u64, threshold: u64) -> AgeClassification {
    AgeClassification {
        hash: tx.hash,
        sender: tx.sender,
        age: age_of(tx.entered_at, now) as u64,
        is_censored: censored(tx.entered_at, now, threshold),
    }
}

/// Age of a transaction that entered the pool at `entered_at`, floored at zero.
pub fn age(entered_at: u64, now: u64) -> (r: u64)
    ensures
        r as nat == age_of(entered_at, now),
{
    if now >= entered_at {
        now - entered_at
    } else {
        0
    }
}

/// Whether a transaction that entered the pool at `entered_at` is censored at `now`.
pub fn is_censored(entered_at: u64, now: u64, threshold: u64) -> (r: bool)
    ensures
        r == censored(entered_at, now, threshold),
{
    age(entered_at, now) > threshold
}

/// Classifies one pool entry without changing it.
pub fn classify(tx: &PendingTransaction, now: u64, threshold: u64) -> (r: AgeClassification)
    ensures
        r == classify_spec(*tx, now, threshold),
{
    let a = age(tx.entered_at, now);
    AgeClassification { hash: tx.hash, sender: tx.sender, age: a, is_censored: a > threshold }
}

/// Walks the pool once, in its priority order, and classifies every entry.
pub fn scan(pool: &Vec<PendingTransaction>, now: u64, threshold: u64) -> (r: Vec<AgeClassification>)
    ensures
        r@.len() == pool@.len(),
        forall|i: int| 0 <= i < pool@.len() ==> r@[i] == #[trigger] classify_spec(pool@[i], now, threshold),
{
    let mut out: Vec<AgeClassification> = Vec::new();
    let mut i: usize = 0;
    while i < pool.len()
        invariant
            i <= pool@.len(),
            out@.len() == i,
            forall|j: int| 0 <= j < i ==> out@[j] == #[trigger] classify_spec(pool@[j], now, threshold),
        decreases pool@.len() - i,
    {
        out.push(classify(&pool[i], now, threshold));
        i = i + 1;
    }
    out
}

/// Censorship is monotonic in time: with the entry time and the threshold
/// fixed, a transaction censored at `now` stays censored at every later time.
pub proof fn lemma_censored_monotonic(entered_at: u64, now: u64, later: u64, threshold: u64)
    requires
        now <= later,
        censored(entered_at, now, threshold),
    ensures
        censored(entered_at, later, threshold),
{
}

} // verus!
