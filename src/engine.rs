use vstd::prelude::*;
use crate::types::{Address, TxHash};

verus! {

/// The state of one account after a transaction touched it.
#[derive(Clone, Copy, Debug, PartialEq, Eq, Structural)]
pub struct AccountChange {
    pub address: Address,
    pub nonce: u64,
    pub balance: u128,
}

/// The account changes made by one successful execution, in order.
pub struct StateDiff {
    pub changes: Vec<AccountChange>,
}

/// Why an execution rolled back.
#[derive(Clone, Copy, Debug, PartialEq, Eq, Structural)]
pub enum RevertReason {
    InsufficientBalance,
    NonceMismatch,
    OutOfGas,
    Failed,
}

/// Why an execution could not be carried out at all.
#[derive(Clone, Copy, Debug, PartialEq, Eq, Structural)]
pub enum ExecErrorKind {
    Malformed,
    Unsupported,
    DatabaseRead,
}

/// What running one transaction against an overlay gave.
pub enum ExecutionOutcome {
    Valid(StateDiff),
    Reverted(RevertReason),
    ExecutionError(ExecErrorKind),
}

/// The verdict kept for one transaction; the diff of a valid one goes to the overlay.
#[derive(Clone, Copy, Debug, PartialEq, Eq, Structural)]
pub enum Verdict {
    Valid,
    Reverted(RevertReason),
    ExecutionError(ExecErrorKind),
}

/// The verdict on one transaction.
#[derive(Clone, Copy, Debug, PartialEq, Eq, Structural)]
pub struct SimulationResult {
    pub hash: TxHash,
    pub verdict: Verdict,
}

pub open spec fn verdict_of(o: ExecutionOutcome) -> Verdict {
    match o {
        ExecutionOutcome::Valid(_) => Verdict::Valid,
        ExecutionOutcome::Reverted(r) => Verdict::Reverted(r),
        ExecutionOutcome::ExecutionError(k) => Verdict::ExecutionError(k),
    }
}

/// The overlay that the next execution sees after `o`: a valid diff is layered
/// on top when the backlog folds, anything else leaves the overlay as it was.
pub open spec fn fold_step(layers: Seq<Seq<AccountChange>>, folds: bool, o: ExecutionOutcome) -> Seq<
    Seq<AccountChange>,
> {
    match o {
        ExecutionOutcome::Valid(d) => if folds {
            layers.push(d.changes@)
        } else {
            layers
        },
        _ => layers,
    }
}

/// The latest change to `a` within one diff.
pub open spec fn last_change(d: Seq<AccountChange>, a: Address) -> Option<AccountChange>
    decreases d.len(),
{
    if d.len() == 0 {
        None
    } else if d.last().address == a {
        Some(d.last())
    } else {
        last_change(d.drop_last(), a)
    }
}

/// The state of `a` as the layers show it; `None` means the snapshot decides.
pub open spec fn lookup(layers: Seq<Seq<AccountChange>>, a: Address) -> Option<AccountChange>
    decreases layers.len(),
{
    if layers.len() == 0 {
        None
    } else {
        match last_change(layers.last(), a) {
            Some(c) => Some(c),
            None => lookup(layers.drop_last(), a),
        }
    }
}

/// A copy-on-write layer over the shared snapshot: the diffs of earlier
/// valid transactions of one backlog, oldest first.
pub struct Overlay {
    pub diffs: Vec<StateDiff>,
}

impl Overlay {
    pub open spec fn layers(&self) -> Seq<Seq<AccountChange>> {
        self.diffs@.map_values(|d: StateDiff| d.changes@)
    }

    /// An overlay with nothing on top of the snapshot.
    pub fn new() -> (r: Overlay)
        ensures
            r.layers() == Seq::<Seq<AccountChange>>::empty(),
    {
        let r = Overlay { diffs: Vec::new() };
        assert(r.layers() =~= Seq::<Seq<AccountChange>>::empty());
        r
    }

    /// The latest state of `a` written by a layer, or `None` when reads of `a`
    /// go to the snapshot.
    pub fn account(&self, a: Address) -> (r: Option<AccountChange>)
        ensures
            r == lookup(self.layers(), a),
    {
        let mut i: usize = self.diffs.len();
        assert(self.layers().take(i as int) =~= self.layers());
        while i > 0
            invariant
                i <= self.diffs@.len(),
                lookup(self.layers(), a) == lookup(self.layers().take(i as int), a),
            decreases i,
        {
            let d = &self.diffs[i - 1];
            let ghost layer = self.layers()[i - 1];
            assert(layer == d.changes@);
            assert(self.layers().take(i as int).drop_last() =~= self.layers().take(i - 1));
            assert(self.layers().take(i as int).last() == layer);
            let mut j: usize = d.changes.len();
            assert(layer.take(j as int) =~= layer);
            while j > 0
                invariant
                    j <= d.changes@.len(),
                    0 < i <= self.diffs@.len(),
                    layer == d.changes@,
                    self.layers().take(i as int).last() == layer,
                    lookup(self.layers(), a) == lookup(self.layers().take(i as int), a),
                    last_change(layer, a) == last_change(layer.take(j as int), a),
                decreases j,
            {
                assert(layer.take(j as int).drop_last() =~= layer.take(j - 1));
                assert(layer.take(j as int).last() == d.changes@[j - 1]);
                if d.changes[j - 1].address == a {
                    assert(last_change(layer.take(j as int), a) == Some(d.changes@[j - 1]));
                    assert(last_change(self.layers().take(i as int).last(), a) == Some(d.changes@[j - 1]));
                    return Some(d.changes[j - 1]);
                }
                j = j - 1;
            }
            i = i - 1;
        }
        None
    }
}

} // verus!

verus! {

/// The evaluation of one backlog, one transaction at a time. The caller
/// executes `next_transaction` against `overlay` and hands the outcome to
/// `record`, which decides what the next execution sees.
pub struct BacklogRun {
    pub sender: Option<Address>,
    pub txs: Vec<TxHash>,
    pub folds: bool,
    pub overlay: Overlay,
    pub results: Vec<SimulationResult>,
}

/// The verdicts on one backlog, in backlog order.
pub struct BacklogReport {
    pub sender: Option<Address>,
    pub results: Vec<SimulationResult>,
}

impl BacklogRun {
    /// Results so far belong to the first transactions, in order.
    pub open spec fn wf(&self) -> bool {
        &&& self.results@.len() <= self.txs@.len()
        &&& forall|k: int| 0 <= k < self.results@.len() ==> (#[trigger] self.results@[k]).hash == self.txs@[k]
    }

    pub open spec fn done(&self) -> bool {
        self.results@.len() == self.txs@.len()
    }

    /// A run over one sender's backlog: each valid diff is layered under the
    /// transactions that follow it.
    pub fn for_sender(sender: Address, txs: Vec<TxHash>) -> (r: BacklogRun)
        ensures
            r.wf(),
            r.sender == Some(sender),
            r.txs@ == txs@,
            r.folds,
            r.overlay.layers() == Seq::<Seq<AccountChange>>::empty(),
            r.results@ == Seq::<SimulationResult>::empty(),
    {
        BacklogRun { sender: Some(sender), txs, folds: true, overlay: Overlay::new(), results: Vec::new() }
    }

    /// A run over the orphan bucket: every transaction sees the snapshot alone.
    pub fn for_orphans(txs: Vec<TxHash>) -> (r: BacklogRun)
        ensures
            r.wf(),
            r.sender.is_none(),
            r.txs@ == txs@,
            !r.folds,
            r.overlay.layers() == Seq::<Seq<AccountChange>>::empty(),
            r.results@ == Seq::<SimulationResult>::empty(),
    {
        BacklogRun { sender: None, txs, folds: false, overlay: Overlay::new(), results: Vec::new() }
    }

    pub fn is_done(&self) -> (r: bool)
        requires
            self.wf(),
        ensures
            r == self.done(),
    {
        self.results.len() == self.txs.len()
    }

    /// The transaction to execute next, or `None` once every one has a verdict.
    pub fn next_transaction(&self) -> (r: Option<TxHash>)
        requires
            self.wf(),
        ensures
            r == if self.done() {
                None
            } else {
                Some(self.txs@[self.results@.len() as int])
            },
    {
        if self.results.len() < self.txs.len() {
            Some(self.txs[self.results.len()])
        } else {
            None
        }
    }

    /// Records the outcome of executing the next transaction against `overlay`.
    /// The overlay for the following transaction holds this diff on top when the
    /// outcome is valid and the backlog folds, and is unchanged otherwise.
    pub fn record(&mut self, outcome: ExecutionOutcome)
        requires
            old(self).wf(),
            !old(self).done(),
        ensures
            final(self).wf(),
            final(self).sender == old(self).sender,
            final(self).txs@ == old(self).txs@,
            final(self).folds == old(self).folds,
            final(self).results@ == old(self).results@.push(
                SimulationResult {
                    hash: old(self).txs@[old(self).results@.len() as int],
                    verdict: verdict_of(outcome),
                },
            ),
            final(self).overlay.layers() == fold_step(old(self).overlay.layers(), old(self).folds, outcome),
    {
        let h = self.txs[self.results.len()];
        let ghost before = self.overlay.layers();
        match outcome {
            ExecutionOutcome::Valid(d) => {
                self.results.push(SimulationResult { hash: h, verdict: Verdict::Valid });
                if self.folds {
                    let ghost dv = d.changes@;
                    self.overlay.diffs.push(d);
                    assert(self.overlay.layers() =~= before.push(dv));
                }
            },
            ExecutionOutcome::Reverted(r) => {
                self.results.push(SimulationResult { hash: h, verdict: Verdict::Reverted(r) });
            },
            ExecutionOutcome::ExecutionError(k) => {
                self.results.push(SimulationResult { hash: h, verdict: Verdict::ExecutionError(k) });
            },
        }
    }

    /// The verdicts, once every transaction has one.
    pub fn finish(self) -> (r: BacklogReport)
        requires
            self.wf(),
            self.done(),
        ensures
            r.sender == self.sender,
            r.results@ == self.results@,
    {
        BacklogReport { sender: self.sender, results: self.results }
    }
}

} // verus!
