use vstd::prelude::*;

verus! {

/// A 160-bit account address, held as three machine words.
#[derive(Clone, Copy, Debug, PartialEq, Eq, Structural)]
pub struct Address {
    pub hi: u32,
    pub mid: u64,
    pub lo: u64,
}

/// A 256-bit transaction hash, held as four machine words.
#[derive(Clone, Copy, Debug, PartialEq, Eq, Structural)]
pub struct TxHash {
    pub w0: u64,
    pub w1: u64,
    pub w2: u64,
    pub w3: u64,
}

/// A transaction still waiting for inclusion, as the pool shows it.
///
/// `sender` is `None` when the signature could not be recovered;
/// `entered_at` is the pool-entry time in seconds.
pub struct PendingTransaction {
    pub hash: TxHash,
    pub sender: Option<Address>,
    pub entered_at: u64,
    pub payload: Vec<u8>,
}

/// A copy of a sequence of hashes.
pub fn copy_hashes(v: &Vec<TxHash>) -> (r: Vec<TxHash>)
    ensures
        r@ == v@,
{
    let mut out: Vec<TxHash> = Vec::new();
    let mut i: usize = 0;
    while i < v.len()
        invariant
            i <= v@.len(),
            out@ == v@.take(i as int),
        decreases v@.len() - i,
    {
        out.push(v[i]);
        i = i + 1;
        assert(out@ =~= v@.take(i as int));
    }
    assert(v@.take(v@.len() as int) =~= v@);
    out
}

} // verus!
