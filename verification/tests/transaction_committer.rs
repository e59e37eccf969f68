use aptos_execution::hash::HashValue;
use aptos_execution::transaction_committer::{
    gen_li_with_sigs, report_block, BlockReport, CommitAction, CommitBlockMessage, CommitEvent,
    TransactionCommitter,
};

fn hash(byte: u8) -> HashValue {
    HashValue { bytes: [byte; 32] }
}

fn block(byte: u8, num_txns: usize) -> CommitBlockMessage {
    CommitBlockMessage {
        block_id: hash(byte),
        root_hash: hash(byte + 100),
        partition_time: 4_000_000,
        execution_time: 9_500_000,
        num_txns,
    }
}

#[test]
fn ledger_info_holds_the_block_and_nothing_else() {
    let li = gen_li_with_sigs(hash(1), hash(2), 77);
    let info = &li.ledger_info.commit_info;
    assert_eq!(info.epoch, 1);
    assert_eq!(info.round, 0);
    assert_eq!(info.id, hash(1));
    assert_eq!(info.executed_state_id, hash(2));
    assert_eq!(info.version, 77);
    assert_eq!(info.timestamp_usecs, 0);
    assert_eq!(info.next_epoch_state, None);
    assert_eq!(li.ledger_info.consensus_data_hash, HashValue::zero());
    assert_eq!(HashValue::zero(), hash(0));
    assert!(li.signatures.validator_bitmask.is_empty());
    assert_eq!(li.signatures.sig, None);
}

#[test]
fn block_is_pre_committed_then_made_known_then_reported() {
    let mut committer = TransactionCommitter::new(10);
    assert_eq!(committer.run(), CommitAction::Receive);
    assert!(committer.can_take(5));
    assert_eq!(
        committer.step(CommitEvent::BlockReceived(block(1, 5))),
        CommitAction::LookUpParent { num_txns: 5 }
    );
    assert!(!committer.can_take(5));
    assert_eq!(committer.get_version(), 15);
    assert_eq!(
        committer.step(CommitEvent::ParentKnown(hash(9))),
        CommitAction::PreCommit { block_id: hash(1), parent_block_id: hash(9) }
    );
    assert_eq!(
        committer.step(CommitEvent::PreCommitted),
        CommitAction::CommitLedger(gen_li_with_sigs(hash(1), hash(101), 15))
    );
    assert_eq!(
        committer.step(CommitEvent::LedgerCommitted { latency: 25_999_999, commit_time: 3_000_000 }),
        CommitAction::Report(BlockReport {
            version: 15,
            total_versions: 5,
            block_size: 5,
            latency_ms: 25,
            partition_ms: 4,
            execution_ms: 9,
            commit_ms: 3,
            partition_time: 4_000_000,
            execution_time: 9_500_000,
            commit_time: 3_000_000,
            slowest_time: 9_500_000,
        })
    );
    assert_eq!(committer.step(CommitEvent::ChannelClosed), CommitAction::Stop);
}

#[test]
fn version_adds_up_over_blocks() {
    let mut committer = TransactionCommitter::new(100);
    committer.run();
    let mut reported = Vec::new();
    for (byte, size) in [(1u8, 3usize), (2, 0), (3, 40)] {
        committer.step(CommitEvent::BlockReceived(block(byte, size)));
        committer.step(CommitEvent::ParentKnown(hash(0)));
        committer.step(CommitEvent::PreCommitted);
        match committer.step(CommitEvent::LedgerCommitted { latency: 0, commit_time: 0 }) {
            CommitAction::Report(report) => reported.push((report.version, report.total_versions)),
            _ => panic!("no report"),
        }
    }
    assert_eq!(reported, vec![(103, 3), (103, 3), (143, 43)]);
    assert_eq!(committer.get_version(), 143);
}

#[test]
fn second_run_counts_from_where_the_first_ended() {
    let mut committer = TransactionCommitter::new(0);
    committer.run();
    committer.step(CommitEvent::BlockReceived(block(1, 8)));
    committer.step(CommitEvent::ParentKnown(hash(0)));
    committer.step(CommitEvent::PreCommitted);
    committer.step(CommitEvent::LedgerCommitted { latency: 0, commit_time: 0 });
    committer.step(CommitEvent::ChannelClosed);
    assert_eq!(committer.run(), CommitAction::Receive);
    committer.step(CommitEvent::BlockReceived(block(2, 2)));
    committer.step(CommitEvent::ParentKnown(hash(1)));
    committer.step(CommitEvent::PreCommitted);
    match committer.step(CommitEvent::LedgerCommitted { latency: 0, commit_time: 0 }) {
        CommitAction::Report(report) => {
            assert_eq!(report.version, 10);
            assert_eq!(report.total_versions, 2);
        }
        _ => panic!("no report"),
    }
}

#[test]
fn block_that_overflows_the_version_is_not_taken() {
    let mut committer = TransactionCommitter::new(u64::MAX - 1);
    committer.run();
    assert!(committer.can_take(1));
    assert!(!committer.can_take(2));
}

#[test]
fn slowest_stage_is_found() {
    assert_eq!(report_block(0, 1, 0, 3, 2, 1, 1).slowest_time, 3);
    assert_eq!(report_block(0, 1, 0, 1, 3, 2, 1).slowest_time, 3);
    assert_eq!(report_block(0, 1, 0, 1, 2, 3, 1).slowest_time, 3);
    assert_eq!(report_block(0, 1, 0, 2, 2, 2, 1).slowest_time, 2);
}
