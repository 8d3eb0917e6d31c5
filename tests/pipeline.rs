use eye_of_reth::builder::RethRunnerBuilder;
use eye_of_reth::engine::{
    AccountChange, BacklogRun, ExecErrorKind, ExecutionOutcome, Overlay, RevertReason, StateDiff,
    Verdict,
};
use eye_of_reth::grouper::group;
use eye_of_reth::report::Run;
use eye_of_reth::scanner::{age, is_censored, scan};
use eye_of_reth::service::{itemized, summary, threshold_secs, ChainHead, QueryError, TxpoolExt};
use eye_of_reth::types::{Address, PendingTransaction, TxHash};

fn addr(n: u64) -> Address {
    Address { hi: 0, mid: 0, lo: n }
}

fn hash(n: u64) -> TxHash {
    TxHash { w0: n, w1: 0, w2: 0, w3: 0 }
}

fn tx(n: u64, sender: Option<u64>, entered_at: u64) -> PendingTransaction {
    PendingTransaction {
        hash: hash(n),
        sender: sender.map(addr),
        entered_at,
        payload: vec![n as u8, 0xaa],
    }
}

fn head() -> ChainHead {
    ChainHead { number: 100, timestamp: 1_000, base_fee: 7, gas_limit: 30_000_000, hash: hash(999) }
}

fn valid(a: u64, nonce: u64, balance: u128) -> ExecutionOutcome {
    ExecutionOutcome::Valid(StateDiff {
        changes: vec![AccountChange { address: addr(a), nonce, balance }],
    })
}

/// Drives a whole run; `exec` gives the outcome of a hash against the overlay.
fn drive(run: &mut Run, exec: &dyn Fn(&Overlay, TxHash) -> ExecutionOutcome, cancel_after: Option<usize>) {
    let mut completed = 0usize;
    loop {
        if cancel_after == Some(completed) {
            run.cancel();
        }
        let mut b = match run.next_backlog() {
            Some(b) => b,
            None => break,
        };
        while let Some(h) = b.next_transaction() {
            let o = exec(&b.overlay, h);
            b.record(o);
        }
        assert!(run.complete(b));
        completed += 1;
    }
}

#[test]
fn age_floors_at_zero() {
    assert_eq!(age(10, 30), 20);
    assert_eq!(age(30, 10), 0);
    assert!(!is_censored(30, 10, 0));
}

#[test]
fn censored_strictly_above_threshold() {
    assert!(!is_censored(0, 12, 12));
    assert!(is_censored(0, 13, 12));
}

#[test]
fn censorship_stays_with_later_time() {
    assert!(is_censored(100, 120, 12));
    assert!(is_censored(100, 500, 12));
    assert!(is_censored(100, u64::MAX, 12));
}

#[test]
fn three_old_transactions_two_senders() {
    let now = 1_020;
    let pool = vec![tx(1, Some(1), 1_000), tx(2, Some(2), 1_000), tx(3, Some(1), 1_000)];
    let cs = scan(&pool, now, 12);
    assert_eq!(cs.len(), 3);
    assert!(cs.iter().all(|c| c.is_censored && c.age == 20));
    let g = group(&cs);
    assert_eq!(g.senders, vec![addr(1), addr(2)]);
    assert_eq!(g.backlogs, vec![vec![hash(1), hash(3)], vec![hash(2)]]);
    assert!(g.orphans.is_empty());
}

#[test]
fn grouping_partitions_censored_only() {
    let pool = vec![
        tx(1, Some(1), 0),
        tx(2, None, 0),
        tx(3, Some(2), 95),
        tx(4, Some(1), 0),
        tx(5, Some(2), 0),
        tx(6, None, 0),
    ];
    let cs = scan(&pool, 100, 12);
    let g = group(&cs);
    assert_eq!(g.senders, vec![addr(1), addr(2)]);
    assert_eq!(g.backlogs, vec![vec![hash(1), hash(4)], vec![hash(5)]]);
    assert_eq!(g.orphans, vec![hash(2), hash(6)]);
    let total: usize = g.backlogs.iter().map(|b| b.len()).sum::<usize>() + g.orphans.len();
    assert_eq!(total, 5);
}

#[test]
fn empty_pool_gives_empty_report() {
    let ext = TxpoolExt::new(vec![], 12, 1);
    let run = ext.start(Some(head()), 50, None).unwrap();
    let rep = run.finish();
    assert!(rep.complete);
    assert!(rep.backlogs.is_empty());
    assert_eq!(summary(&Ok(rep)), Ok(0));
}

#[test]
fn overlapping_balance_second_reverts() {
    // Sender 1 holds 100; each transaction spends 80.
    let exec = |o: &Overlay, _h: TxHash| -> ExecutionOutcome {
        let balance = match o.account(addr(1)) {
            Some(c) => c.balance,
            None => 100,
        };
        if balance >= 80 {
            valid(1, 1, balance - 80)
        } else {
            ExecutionOutcome::Reverted(RevertReason::InsufficientBalance)
        }
    };
    let mut b = BacklogRun::for_sender(addr(1), vec![hash(1), hash(2)]);
    while let Some(h) = b.next_transaction() {
        let o = exec(&b.overlay, h);
        b.record(o);
    }
    assert_eq!(b.results[0].verdict, Verdict::Valid);
    assert_eq!(b.results[1].verdict, Verdict::Reverted(RevertReason::InsufficientBalance));
    assert_eq!(b.overlay.diffs.len(), 1);
    assert_eq!(b.overlay.account(addr(1)).unwrap().balance, 20);
}

#[test]
fn failed_transaction_leaves_overlay_unchanged() {
    let mut b = BacklogRun::for_sender(addr(1), vec![hash(1), hash(2), hash(3)]);
    b.record(valid(1, 1, 50));
    b.record(ExecutionOutcome::ExecutionError(ExecErrorKind::Malformed));
    assert_eq!(b.overlay.diffs.len(), 1);
    b.record(valid(1, 2, 40));
    assert_eq!(b.overlay.diffs.len(), 2);
    assert_eq!(b.overlay.account(addr(1)).unwrap().nonce, 2);
    assert_eq!(b.results[1].verdict, Verdict::ExecutionError(ExecErrorKind::Malformed));
    assert!(b.is_done());
    assert_eq!(b.next_transaction(), None);
}

#[test]
fn overlay_reads_latest_change_per_account() {
    let mut b = BacklogRun::for_sender(addr(1), vec![hash(1), hash(2)]);
    b.record(ExecutionOutcome::Valid(StateDiff {
        changes: vec![
            AccountChange { address: addr(1), nonce: 1, balance: 10 },
            AccountChange { address: addr(2), nonce: 0, balance: 5 },
            AccountChange { address: addr(1), nonce: 1, balance: 9 },
        ],
    }));
    b.record(valid(2, 0, 7));
    assert_eq!(b.overlay.account(addr(1)).unwrap().balance, 9);
    assert_eq!(b.overlay.account(addr(2)).unwrap().balance, 7);
    assert_eq!(b.overlay.account(addr(3)), None);
}

#[test]
fn orphan_evaluated_against_snapshot_alone() {
    let ext = TxpoolExt::new(vec![tx(1, Some(1), 0), tx(2, None, 0), tx(3, None, 0)], 12, 1);
    let mut run = ext.start(Some(head()), 100, None).unwrap();
    let exec = |o: &Overlay, h: TxHash| -> ExecutionOutcome {
        // Valid only when nothing is layered on the snapshot.
        if o.diffs.is_empty() {
            valid(h.w0, 1, 1)
        } else {
            ExecutionOutcome::Reverted(RevertReason::NonceMismatch)
        }
    };
    drive(&mut run, &exec, None);
    let rep = run.finish();
    assert!(rep.complete);
    assert_eq!(rep.backlogs.len(), 2);
    assert_eq!(rep.backlogs[1].sender, None);
    assert!(rep.backlogs[1].results.iter().all(|r| r.verdict == Verdict::Valid));
    assert_eq!(summary(&Ok(rep)), Ok(3));
}

#[test]
fn no_canonical_head_fails_both_queries() {
    let ext = TxpoolExt::new(vec![tx(1, Some(1), 0)], 12, 1);
    let r = ext.start(None, 100, None);
    assert!(matches!(r, Err(QueryError::StateUnavailable)));
    let failed = Err(QueryError::StateUnavailable);
    assert_eq!(summary(&failed), Err(QueryError::StateUnavailable));
    assert_eq!(itemized(&failed), Err(QueryError::StateUnavailable));
}

#[test]
fn oversized_threshold_is_invalid_config() {
    assert_eq!(threshold_secs(2, 12), Some(24));
    assert_eq!(threshold_secs(u64::MAX, 2), None);
    let ext = TxpoolExt::new(vec![], 12, 1);
    assert!(matches!(ext.start(None, 0, Some(u64::MAX)), Err(QueryError::InvalidConfig)));
}

#[test]
fn threshold_override_in_blocks() {
    // Entered 30 s ago: censored at one 12 s block, not at three.
    let ext = TxpoolExt::new(vec![tx(1, Some(1), 70)], 12, 1);
    let run = ext.start(Some(head()), 100, None).unwrap();
    assert_eq!(run.grouping.senders.len(), 1);
    let run = ext.start(Some(head()), 100, Some(3)).unwrap();
    assert!(run.grouping.senders.is_empty());
}

fn five_sender_pool() -> TxpoolExt {
    let pool = (1..=5u64).map(|n| tx(n, Some(n), 0)).collect();
    TxpoolExt::new(pool, 12, 1)
}

fn all_valid(_o: &Overlay, h: TxHash) -> ExecutionOutcome {
    valid(h.w0, 1, 1)
}

#[test]
fn cancellation_after_two_of_five() {
    let ext = five_sender_pool();
    let mut run = ext.start(Some(head()), 100, None).unwrap();
    drive(&mut run, &all_valid, Some(2));
    let rep = run.finish();
    assert!(!rep.complete);
    assert_eq!(rep.backlogs.len(), 2);
    assert_eq!(rep.backlogs[0].sender, Some(addr(1)));
    assert_eq!(rep.backlogs[1].sender, Some(addr(2)));

    let mut full = ext.start(Some(head()), 100, None).unwrap();
    drive(&mut full, &all_valid, None);
    let full = full.finish();
    assert!(full.complete);
    assert_eq!(full.backlogs.len(), 5);
    for j in 0..2 {
        assert_eq!(rep.backlogs[j].sender, full.backlogs[j].sender);
        assert_eq!(rep.backlogs[j].results, full.backlogs[j].results);
    }
}

#[test]
fn rerun_gives_identical_report() {
    let ext = five_sender_pool();
    let mut a = ext.start(Some(head()), 100, None).unwrap();
    drive(&mut a, &all_valid, None);
    let mut b = ext.start(Some(head()), 100, None).unwrap();
    drive(&mut b, &all_valid, None);
    let (a, b) = (Ok(a.finish()), Ok(b.finish()));
    assert_eq!(itemized(&a), itemized(&b));
    assert_eq!(summary(&a), summary(&b));
    assert_eq!(summary(&a), Ok(5));
}

#[test]
fn complete_refuses_wrong_unit() {
    let ext = five_sender_pool();
    let mut run = ext.start(Some(head()), 100, None).unwrap();
    let unfinished = run.next_backlog().unwrap();
    assert!(!run.complete(unfinished));
    let mut other = BacklogRun::for_sender(addr(9), vec![hash(9)]);
    other.record(valid(9, 1, 1));
    assert!(!run.complete(other));
    assert_eq!(run.next, 0);
}

#[test]
fn itemized_lists_only_valid() {
    let ext = TxpoolExt::new(vec![tx(1, Some(1), 0), tx(2, Some(1), 0), tx(3, Some(2), 0)], 12, 1);
    let mut run = ext.start(Some(head()), 100, None).unwrap();
    let exec = |_o: &Overlay, h: TxHash| -> ExecutionOutcome {
        if h.w0 == 2 {
            ExecutionOutcome::Reverted(RevertReason::Failed)
        } else {
            valid(h.w0, 1, 1)
        }
    };
    drive(&mut run, &exec, None);
    let rep = Ok(run.finish());
    assert_eq!(itemized(&rep), Ok(vec![hash(1), hash(3)]));
    assert_eq!(summary(&rep), Ok(2));
}

#[test]
fn best_transactions_in_pool_order() {
    let ext = TxpoolExt::new(vec![tx(2, Some(1), 0), tx(1, None, 5)], 12, 1);
    assert_eq!(ext.best_transactions(), vec![vec![2u8, 0xaa], vec![1u8, 0xaa]]);
}

#[test]
fn builder_defaults_and_path() {
    let mut b = RethRunnerBuilder::new();
    assert_eq!(b.db_path, "./");
    b.with_db_path("/data/reth".to_string());
    assert_eq!(b.db_path, "/data/reth");
}
