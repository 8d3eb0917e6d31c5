use vstd::prelude::*;
use crate::types::{copy_hashes, Address, TxHash};
use crate::grouper::Grouping;
use crate::engine::{
    fold_step, verdict_of, AccountChange, BacklogReport, BacklogRun, ExecutionOutcome,
    SimulationResult, Verdict,
};

verus! {

/// The hashes of the valid transactions among `rs`, in order.
pub open spec fn valid_in(rs: Seq<SimulationResult>) -> Seq<TxHash>
    decreases rs.len(),
{
    if rs.len() == 0 {
        Seq::empty()
    } else if rs.last().verdict == Verdict::Valid {
        valid_in(rs.drop_last()).push(rs.last().hash)
    } else {
        valid_in(rs.drop_last())
    }
}

/// The hashes of the valid transactions of every backlog, backlog by backlog.
pub open spec fn valid_all(bs: Seq<BacklogReport>) -> Seq<TxHash>
    decreases bs.len(),
{
    if bs.len() == 0 {
        Seq::empty()
    } else {
        valid_all(bs.drop_last()) + valid_in(bs.last().results@)
    }
}

/// Per-backlog verdicts of a run; `complete` is false when the run was
/// cancelled before every backlog was evaluated.
pub struct Report {
    pub backlogs: Vec<BacklogReport>,
    pub complete: bool,
}

impl Report {
    /// The itemized answer: every transaction found valid, backlog by backlog.
    pub fn valid_transactions(&self) -> (r: Vec<TxHash>)
        ensures
            r@ == valid_all(self.backlogs@),
    {
        let mut out: Vec<TxHash> = Vec::new();
        let mut i: usize = 0;
        while i < self.backlogs.len()
            invariant
                i <= self.backlogs@.len(),
                out@ == valid_all(self.backlogs@.take(i as int)),
            decreases self.backlogs@.len() - i,
        {
            let rs = &self.backlogs[i].results;
            let ghost base = out@;
            let mut j: usize = 0;
            while j < rs.len()
                invariant
                    j <= rs@.len(),
                    out@ == base + valid_in(rs@.take(j as int)),
                decreases rs@.len() - j,
            {
                assert(rs@.take(j + 1).drop_last() =~= rs@.take(j as int));
                if rs[j].verdict == Verdict::Valid {
                    out.push(rs[j].hash);
                }
                j = j + 1;
                assert(out@ =~= base + valid_in(rs@.take(j as int)));
            }
            assert(rs@.take(rs@.len() as int) =~= rs@);
            assert(self.backlogs@.take(i + 1).drop_last() =~= self.backlogs@.take(i as int));
            i = i + 1;
        }
        assert(self.backlogs@.take(self.backlogs@.len() as int) =~= self.backlogs@);
        out
    }

    /// The summary answer: how many transactions were found valid.
    pub fn valid_count(&self) -> (r: usize)
        ensures
            r == valid_all(self.backlogs@).len(),
    {
        self.valid_transactions().len()
    }
}

/// The number of evaluation units of a grouping: one per sender, and one for
/// the orphan bucket when it is not empty.
pub open spec fn units(g: Grouping) -> nat {
    g.senders@.len() + if g.orphans@.len() > 0 { 1nat } else { 0nat }
}

pub open spec fn unit_sender(g: Grouping, k: int) -> Option<Address> {
    if k < g.senders@.len() { Some(g.senders@[k]) } else { None }
}

pub open spec fn unit_txs(g: Grouping, k: int) -> Seq<TxHash> {
    if k < g.senders@.len() { g.backlogs@[k]@ } else { g.orphans@ }
}

/// The verdicts that executing `txs` one after the other gives, starting from
/// `layers`, when `exec` says what each execution yields.
pub open spec fn sim_from(
    exec: spec_fn(Seq<Seq<AccountChange>>, TxHash) -> ExecutionOutcome,
    txs: Seq<TxHash>,
    folds: bool,
    layers: Seq<Seq<AccountChange>>,
) -> Seq<SimulationResult>
    decreases txs.len(),
{
    if txs.len() == 0 {
        Seq::empty()
    } else {
        let o = exec(layers, txs[0]);
        seq![SimulationResult { hash: txs[0], verdict: verdict_of(o) }] + sim_from(
            exec,
            txs.drop_first(),
            folds,
            fold_step(layers, folds, o),
        )
    }
}

/// The verdicts on unit `k` of `g` from a fresh overlay.
pub open spec fn unit_results(
    exec: spec_fn(Seq<Seq<AccountChange>>, TxHash) -> ExecutionOutcome,
    g: Grouping,
    k: int,
) -> Seq<SimulationResult> {
    sim_from(exec, unit_txs(g, k), unit_sender(g, k).is_some(), Seq::empty())
}

/// `r` holds, for each unit it reports on, the sender and the verdicts that
/// `exec` gives, units in order, and all units when it says it is complete.
pub open spec fn faithful(
    exec: spec_fn(Seq<Seq<AccountChange>>, TxHash) -> ExecutionOutcome,
    g: Grouping,
    r: Report,
) -> bool {
    &&& r.backlogs@.len() <= units(g)
    &&& r.complete ==> r.backlogs@.len() == units(g)
    &&& forall|j: int|
        0 <= j < r.backlogs@.len() ==> (#[trigger] r.backlogs@[j]).sender == unit_sender(g, j)
            && r.backlogs@[j].results@ == unit_results(exec, g, j)
}

/// A cancelled run reports a subset of the backlogs of an uncancelled run over
/// the same grouping and executions, each with exactly the same verdicts.
pub proof fn lemma_partial_results(
    exec: spec_fn(Seq<Seq<AccountChange>>, TxHash) -> ExecutionOutcome,
    g: Grouping,
    partial: Report,
    full: Report,
)
    requires
        faithful(exec, g, partial),
        faithful(exec, g, full),
        full.complete,
    ensures
        partial.backlogs@.len() <= full.backlogs@.len(),
        forall|j: int|
            0 <= j < partial.backlogs@.len() ==> (#[trigger] partial.backlogs@[j]).sender
                == full.backlogs@[j].sender && partial.backlogs@[j].results@
                == full.backlogs@[j].results@,
{
    assert forall|j: int| 0 <= j < partial.backlogs@.len() implies (#[trigger] partial.backlogs@[j]).sender
        == full.backlogs@[j].sender && partial.backlogs@[j].results@ == full.backlogs@[j].results@ by {
        assert(partial.backlogs@[j].sender == unit_sender(g, j));
        assert(full.backlogs@[j].sender == unit_sender(g, j));
    }
}

/// Running the same grouping twice against the same executions gives the same
/// report: same backlogs, same order, same verdicts, same answers.
pub proof fn lemma_rerun_identical(
    exec: spec_fn(Seq<Seq<AccountChange>>, TxHash) -> ExecutionOutcome,
    g: Grouping,
    first: Report,
    second: Report,
)
    requires
        faithful(exec, g, first),
        faithful(exec, g, second),
        first.complete,
        second.complete,
    ensures
        first.backlogs@.len() == second.backlogs@.len(),
        forall|j: int|
            0 <= j < first.backlogs@.len() ==> (#[trigger] first.backlogs@[j]).sender
                == second.backlogs@[j].sender && first.backlogs@[j].results@
                == second.backlogs@[j].results@,
        valid_all(first.backlogs@) == valid_all(second.backlogs@),
{
    lemma_partial_results(exec, g, first, second);
    lemma_valid_all_ext(first.backlogs@, second.backlogs@);
}

proof fn lemma_valid_all_ext(a: Seq<BacklogReport>, b: Seq<BacklogReport>)
    requires
        a.len() == b.len(),
        forall|j: int| 0 <= j < a.len() ==> (#[trigger] a[j]).results@ == b[j].results@,
    ensures
        valid_all(a) == valid_all(b),
    decreases a.len(),
{
    if a.len() > 0 {
        lemma_valid_all_ext(a.drop_last(), b.drop_last());
    }
}

} // verus!

verus! {

/// `run` has recorded verdicts that agree with `exec` so far: its results,
/// followed by what `exec` gives for the rest from its overlay, are what `exec`
/// gives for the whole backlog from a fresh overlay.
pub open spec fn on_track(exec: spec_fn(Seq<Seq<AccountChange>>, TxHash) -> ExecutionOutcome, run: BacklogRun) -> bool {
    run.results@ + sim_from(exec, run.txs@.skip(run.results@.len() as int), run.folds, run.overlay.layers())
        == sim_from(exec, run.txs@, run.folds, Seq::empty())
}

/// Recording the outcome that `exec` gives for the next transaction keeps a
/// run on track; once done, its verdicts are exactly those of the model.
pub proof fn lemma_record_on_track(
    exec: spec_fn(Seq<Seq<AccountChange>>, TxHash) -> ExecutionOutcome,
    before: BacklogRun,
    after: BacklogRun,
    o: ExecutionOutcome,
)
    requires
        before.wf(),
        !before.done(),
        on_track(exec, before),
        o == exec(before.overlay.layers(), before.txs@[before.results@.len() as int]),
        after.txs@ == before.txs@,
        after.folds == before.folds,
        after.results@ == before.results@.push(
            SimulationResult { hash: before.txs@[before.results@.len() as int], verdict: verdict_of(o) },
        ),
        after.overlay.layers() == fold_step(before.overlay.layers(), before.folds, o),
    ensures
        on_track(exec, after),
        after.done() ==> after.results@ == sim_from(exec, after.txs@, after.folds, Seq::empty()),
{
    let n = before.results@.len() as int;
    let rest = before.txs@.skip(n);
    assert(rest.drop_first() =~= after.txs@.skip(n + 1));
    assert(rest[0] == before.txs@[n]);
    let r = SimulationResult { hash: before.txs@[n], verdict: verdict_of(o) };
    assert(sim_from(exec, rest, before.folds, before.overlay.layers()) == seq![r] + sim_from(
        exec,
        after.txs@.skip(n + 1),
        after.folds,
        after.overlay.layers(),
    ));
    assert(before.results@ + (seq![r] + sim_from(exec, after.txs@.skip(n + 1), after.folds, after.overlay.layers()))
        =~= after.results@ + sim_from(exec, after.txs@.skip(n + 1), after.folds, after.overlay.layers()));
    if after.done() {
        assert(after.txs@.skip(n + 1).len() == 0);
        assert(after.results@ + Seq::<SimulationResult>::empty() =~= after.results@);
    }
}

/// A fresh run is on track.
pub proof fn lemma_fresh_on_track(exec: spec_fn(Seq<Seq<AccountChange>>, TxHash) -> ExecutionOutcome, run: BacklogRun)
    requires
        run.results@.len() == 0,
        run.overlay.layers() == Seq::<Seq<AccountChange>>::empty(),
    ensures
        on_track(exec, run),
{
    assert(run.txs@.skip(0) =~= run.txs@);
    assert(Seq::<SimulationResult>::empty() + sim_from(exec, run.txs@, run.folds, Seq::empty())
        =~= sim_from(exec, run.txs@, run.folds, Seq::empty()));
}

/// Whether two sequences of hashes are equal.
fn same_hashes(a: &Vec<TxHash>, b: &Vec<TxHash>) -> (r: bool)
    ensures
        r == (a@ == b@),
{
    if a.len() != b.len() {
        return false;
    }
    let mut i: usize = 0;
    while i < a.len()
        invariant
            a@.len() == b@.len(),
            i <= a@.len(),
            forall|j: int| 0 <= j < i ==> a@[j] == b@[j],
        decreases a@.len() - i,
    {
        if a[i] != b[i] {
            return false;
        }
        i = i + 1;
    }
    assert(a@ =~= b@);
    true
}

/// One evaluation of a grouping: units are handed out in order (each sender's
/// backlog, then the orphan bucket), and a cancellation stops the hand-out while
/// keeping every backlog already completed.
pub struct Run {
    pub grouping: Grouping,
    pub next: usize,
    pub done: Vec<BacklogReport>,
    pub cancelled: bool,
}

impl Run {
    pub open spec fn wf(&self) -> bool {
        &&& self.grouping.senders@.len() == self.grouping.backlogs@.len()
        &&& self.next <= units(self.grouping)
        &&& self.done@.len() == self.next
        &&& forall|j: int|
            0 <= j < self.next ==> (#[trigger] self.done@[j]).sender == unit_sender(self.grouping, j)
                && self.done@[j].results@.len() == unit_txs(self.grouping, j).len()
                && forall|i: int|
                0 <= i < self.done@[j].results@.len() ==> (#[trigger] self.done@[j].results@[i]).hash
                    == unit_txs(self.grouping, j)[i]
    }

    pub open spec fn units_left(&self) -> bool {
        !self.cancelled && self.next < units(self.grouping)
    }

    /// A run over `g` with nothing evaluated yet.
    pub fn new(g: Grouping) -> (r: Run)
        requires
            g.senders@.len() == g.backlogs@.len(),
        ensures
            r.wf(),
            r.grouping == g,
            r.next == 0,
            !r.cancelled,
    {
        Run { grouping: g, next: 0, done: Vec::new(), cancelled: false }
    }

    fn has_unit(&self, k: usize) -> (r: bool)
        requires
            self.wf(),
        ensures
            r == (k < units(self.grouping)),
    {
        k < self.grouping.senders.len() || (k == self.grouping.senders.len() && self.grouping.orphans.len() > 0)
    }

    /// The next unit to evaluate, from a fresh overlay, or `None` once all
    /// are done or the run was cancelled.
    pub fn next_backlog(&self) -> (r: Option<BacklogRun>)
        requires
            self.wf(),
        ensures
            match r {
                None => !self.units_left(),
                Some(b) => {
                    &&& self.units_left()
                    &&& b.wf()
                    &&& b.sender == unit_sender(self.grouping, self.next as int)
                    &&& b.txs@ == unit_txs(self.grouping, self.next as int)
                    &&& b.folds == b.sender.is_some()
                    &&& b.overlay.layers() == Seq::<Seq<AccountChange>>::empty()
                    &&& b.results@.len() == 0
                },
            },
    {
        if self.cancelled || !self.has_unit(self.next) {
            None
        } else if self.next < self.grouping.senders.len() {
            let txs = copy_hashes(&self.grouping.backlogs[self.next]);
            Some(BacklogRun::for_sender(self.grouping.senders[self.next], txs))
        } else {
            Some(BacklogRun::for_orphans(copy_hashes(&self.grouping.orphans)))
        }
    }

    /// Hands back a finished unit. It is taken, and `true` returned, exactly
    /// when it is the unit due next, fully evaluated, and the run goes on.
    pub fn complete(&mut self, b: BacklogRun) -> (r: bool)
        requires
            old(self).wf(),
            b.wf(),
        ensures
            final(self).wf(),
            final(self).grouping == old(self).grouping,
            final(self).cancelled == old(self).cancelled,
            r == (old(self).units_left() && b.done() && b.sender == unit_sender(old(self).grouping, old(self).next as int)
                && b.txs@ == unit_txs(old(self).grouping, old(self).next as int)),
            r ==> final(self).next == old(self).next + 1 && final(self).done@.len() == old(self).done@.len() + 1
                && final(self).done@.drop_last() == old(self).done@
                && final(self).done@.last().sender == b.sender
                && final(self).done@.last().results@ == b.results@,
            !r ==> final(self).next == old(self).next && final(self).done@ == old(self).done@,
    {
        if self.cancelled || !self.has_unit(self.next) || !b.is_done() {
            return false;
        }
        let expected_sender = if self.next < self.grouping.senders.len() {
            Some(self.grouping.senders[self.next])
        } else {
            None
        };
        if b.sender != expected_sender {
            return false;
        }
        let same = if self.next < self.grouping.senders.len() {
            same_hashes(&b.txs, &self.grouping.backlogs[self.next])
        } else {
            same_hashes(&b.txs, &self.grouping.orphans)
        };
        if !same {
            return false;
        }
        let ghost before = self.done@;
        self.done.push(b.finish());
        assert(self.done@.drop_last() =~= before);
        self.next = self.done.len();
        true
    }

    /// Stops handing out units; completed ones stay in the report.
    pub fn cancel(&mut self)
        requires
            old(self).wf(),
        ensures
            final(self).wf(),
            final(self).cancelled,
            final(self).grouping == old(self).grouping,
            final(self).next == old(self).next,
            final(self).done@ == old(self).done@,
    {
        self.cancelled = true;
    }

    /// The report: every completed unit, in order, marked complete exactly
    /// when no unit was left out.
    pub fn finish(self) -> (r: Report)
        requires
            self.wf(),
        ensures
            r.backlogs@ == self.done@,
            r.complete == (self.next == units(self.grouping)),
    {
        let complete = !self.has_unit(self.next);
        Report { backlogs: self.done, complete }
    }
}

} // verus!
