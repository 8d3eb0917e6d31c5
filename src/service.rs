use vstd::prelude::*;
use crate::types::{PendingTransaction, TxHash};
use crate::scanner::{classify_spec, scan, AgeClassification};
use crate::grouper::group;
use crate::report::{valid_all, Report, Run};

verus! {

/// A failure of a whole query.
#[derive(Clone, Copy, Debug, PartialEq, Eq, Structural)]
pub enum QueryError {
    /// No canonical head, or the chain state could not be opened.
    StateUnavailable,
    /// The configuration does not describe a usable threshold.
    InvalidConfig,
}

/// The head of the canonical chain that a run evaluates against.
#[derive(Clone, Copy, Debug, PartialEq, Eq, Structural)]
pub struct ChainHead {
    pub number: u64,
    pub timestamp: u64,
    pub base_fee: u64,
    pub gas_limit: u64,
    pub hash: TxHash,
}

/// The classifications that a scan of `pool` gives.
pub open spec fn scan_spec(pool: Seq<PendingTransaction>, now: u64, threshold: u64) -> Seq<AgeClassification> {
    Seq::new(pool.len(), |i: int| classify_spec(pool[i], now, threshold))
}

/// The age threshold in seconds for a cutoff of `blocks` block intervals,
/// or `None` when it does not fit in 64 bits.
pub fn threshold_secs(blocks: u64, block_interval: u64) -> (r: Option<u64>)
    ensures
        r == if blocks * block_interval <= u64::MAX {
            Some((blocks * block_interval) as u64)
        } else {
            None::<u64>
        },
{
    blocks.checked_mul(block_interval)
}

/// The query surface over a read of the pending-transaction pool, in the
/// pool's priority order.
pub struct TxpoolExt {
    pub pool: Vec<PendingTransaction>,
    pub block_interval: u64,
    pub default_threshold_blocks: u64,
}

impl TxpoolExt {
    pub fn new(pool: Vec<PendingTransaction>, block_interval: u64, default_threshold_blocks: u64) -> (r: TxpoolExt)
        ensures
            r.pool@ == pool@,
            r.block_interval == block_interval,
            r.default_threshold_blocks == default_threshold_blocks,
    {
        TxpoolExt { pool, block_interval, default_threshold_blocks }
    }

    /// The signed payloads of the pool, in priority order.
    pub fn best_transactions(&self) -> (r: Vec<Vec<u8>>)
        ensures
            r@.len() == self.pool@.len(),
            forall|i: int| 0 <= i < r@.len() ==> (#[trigger] r@[i])@ == self.pool@[i].payload@,
    {
        let mut out: Vec<Vec<u8>> = Vec::new();
        let mut i: usize = 0;
        while i < self.pool.len()
            invariant
                i <= self.pool@.len(),
                out@.len() == i,
                forall|j: int| 0 <= j < i ==> (#[trigger] out@[j])@ == self.pool@[j].payload@,
            decreases self.pool@.len() - i,
        {
            let p = self.pool[i].payload.clone();
            assert(p@ =~= self.pool@[i as int].payload@);
            out.push(p);
            i = i + 1;
        }
        out
    }

    /// The threshold in seconds that a query uses: the override when given,
    /// the default otherwise, times the block interval.
    pub open spec fn threshold_for(&self, threshold_blocks: Option<u64>) -> int {
        let blocks = match threshold_blocks {
            Some(b) => b,
            None => self.default_threshold_blocks,
        };
        blocks * self.block_interval
    }

    /// Scans the pool at `now`, groups the censored transactions and sets up
    /// their evaluation. Fails with `InvalidConfig` when the threshold does not
    /// fit in 64 bits, and otherwise with `StateUnavailable` when there is no
    /// canonical head.
    pub fn start(&self, head: Option<ChainHead>, now: u64, threshold_blocks: Option<u64>) -> (r: Result<Run, QueryError>)
        ensures
            self.threshold_for(threshold_blocks) > u64::MAX ==> r == Err::<Run, QueryError>(QueryError::InvalidConfig),
            self.threshold_for(threshold_blocks) <= u64::MAX && head.is_none() ==> r == Err::<Run, QueryError>(
                QueryError::StateUnavailable,
            ),
            self.threshold_for(threshold_blocks) <= u64::MAX && head.is_some() ==> r is Ok,
            r matches Ok(run) ==> {
                &&& run.wf()
                &&& run.next == 0
                &&& !run.cancelled
                &&& run.grouping.groups(
                    scan_spec(self.pool@, now, self.threshold_for(threshold_blocks) as u64),
                )
            },
    {
        let blocks = match threshold_blocks {
            Some(b) => b,
            None => self.default_threshold_blocks,
        };
        let threshold = match threshold_secs(blocks, self.block_interval) {
            Some(t) => t,
            None => {
                return Err(QueryError::InvalidConfig);
            },
        };
        if head.is_none() {
            return Err(QueryError::StateUnavailable);
        }
        let cs = scan(&self.pool, now, threshold);
        assert(cs@ =~= scan_spec(self.pool@, now, threshold));
        let g = group(&cs);
        Ok(Run::new(g))
    }
}

/// The summary query: how many censored transactions are still valid, or the
/// error of the whole operation.
pub fn summary(r: &Result<Report, QueryError>) -> (s: Result<usize, QueryError>)
    ensures
        match r {
            Ok(rep) => s == Ok::<usize, QueryError>(valid_all(rep.backlogs@).len() as usize),
            Err(e) => s == Err::<usize, QueryError>(*e),
        },
{
    match r {
        Ok(rep) => Ok(rep.valid_count()),
        Err(e) => Err(*e),
    }
}

/// The itemized query: the censored transactions that are still valid, or
/// the error of the whole operation.
pub fn itemized(r: &Result<Report, QueryError>) -> (s: Result<Vec<TxHash>, QueryError>)
    ensures
        match r {
            Ok(rep) => s matches Ok(v) && v@ == valid_all(rep.backlogs@),
            Err(e) => s == Err::<Vec<TxHash>, QueryError>(*e),
        },
{
    match r {
        Ok(rep) => Ok(rep.valid_transactions()),
        Err(e) => Err(*e),
    }
}

} // verus!
