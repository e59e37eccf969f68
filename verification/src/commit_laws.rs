//! What a committer does with what it hears.

use crate::hash::{zero_hash_bytes, HashValue};
use crate::transaction_committer::{
    commits, report_of, BlockReport, CommitAction, CommitBlockMessage, CommitEvent, CommitStage,
    LedgerInfoWithSignatures, TransactionCommitter, Version,
};
use vstd::prelude::*;

verus! {

/// A ledger info that commits a block names just this block, with its state and version,
/// in the first epoch; it carries no signature, no time, no round and no next epoch.
pub proof fn ledger_info_names_just_the_block(
    li: LedgerInfoWithSignatures,
    block_id: HashValue,
    root_hash: HashValue,
    version: Version,
)
    requires
        commits(li, block_id, root_hash, version),
    ensures
        li.ledger_info.commit_info.id == block_id,
        li.ledger_info.commit_info.executed_state_id == root_hash,
        li.ledger_info.commit_info.version == version,
        li.ledger_info.commit_info.epoch == 1,
        li.ledger_info.commit_info.round == 0,
        li.ledger_info.commit_info.timestamp_usecs == 0,
        li.ledger_info.commit_info.next_epoch_state is None,
        forall|i: int|
            0 <= i < 32 ==> #[trigger] li.ledger_info.consensus_data_hash.bytes@[i] == 0,
        li.signatures.validator_bitmask@.len() == 0,
        li.signatures.sig is None,
{
}

/// Two ledger infos that commit the same block agree, and what one commits tells it apart
/// from every other block, state or version.
pub proof fn ledger_infos_tell_blocks_apart(
    li: LedgerInfoWithSignatures,
    block_id: HashValue,
    root_hash: HashValue,
    version: Version,
    other_id: HashValue,
    other_hash: HashValue,
    other_version: Version,
)
    requires
        commits(li, block_id, root_hash, version),
        commits(li, other_id, other_hash, other_version),
    ensures
        block_id == other_id,
        root_hash == other_hash,
        version == other_version,
{
}

/// The zero hash is zero in all of its 32 bytes.
pub proof fn zero_hash_is_zero_throughout()
    ensures
        zero_hash_bytes().len() == 32,
        forall|i: int| 0 <= i < 32 ==> #[trigger] zero_hash_bytes()[i] == 0,
{
}

/// Whether `millis` are the whole milliseconds in `nanos`.
pub open spec fn is_millis_of(millis: u128, nanos: u128) -> bool {
    millis * 1_000_000 <= nanos < millis * 1_000_000 + 1_000_000
}

/// Whether `report` tells the truth of a block: its times are as they were measured, in
/// whole milliseconds and in full, the slowest time is one of them and none is slower, and
/// the transactions since the start are those between the two versions.
pub open spec fn tells_the_truth(
    report: BlockReport,
    start_version: Version,
    version: Version,
    latency: u128,
    partition_time: u128,
    execution_time: u128,
    commit_time: u128,
    block_size: usize,
) -> bool {
    &&& report.version == version
    &&& start_version + report.total_versions == version
    &&& report.block_size == block_size
    &&& is_millis_of(report.latency_ms, latency)
    &&& is_millis_of(report.partition_ms, partition_time)
    &&& is_millis_of(report.execution_ms, execution_time)
    &&& is_millis_of(report.commit_ms, commit_time)
    &&& report.partition_time == partition_time
    &&& report.execution_time == execution_time
    &&& report.commit_time == commit_time
    &&& report.slowest_time >= partition_time
    &&& report.slowest_time >= execution_time
    &&& report.slowest_time >= commit_time
    &&& report.slowest_time == partition_time || report.slowest_time == execution_time
        || report.slowest_time == commit_time
}

/// A report tells the truth of its block.
pub proof fn report_tells_the_truth(
    start_version: Version,
    version: Version,
    latency: u128,
    partition_time: u128,
    execution_time: u128,
    commit_time: u128,
    block_size: usize,
)
    requires
        start_version <= version,
    ensures
        tells_the_truth(
            report_of(
                start_version,
                version,
                latency,
                partition_time,
                execution_time,
                commit_time,
                block_size,
            ),
            start_version,
            version,
            latency,
            partition_time,
            execution_time,
            commit_time,
            block_size,
        ),
{
}

/// A committer that waits for a block takes any block whose transactions can be counted,
/// and hears that there are no more; one that waits for an answer hears just that answer;
/// and one that is stopped hears nothing.
pub proof fn committer_hears_what_it_waits_for(
    committer: TransactionCommitter,
    block: CommitBlockMessage,
    parent: HashValue,
    latency: u128,
    commit_time: u128,
)
    ensures
        committer.awaits(CommitEvent::BlockReceived(block)) <==> committer.stage()
            == CommitStage::Receiving && committer.version() + block.num_txns
            <= 18446744073709551615,
        committer.awaits(CommitEvent::ChannelClosed) <==> committer.stage()
            == CommitStage::Receiving,
        committer.awaits(CommitEvent::ParentKnown(parent)) <==> committer.stage() is LookingUpParent,
        committer.awaits(CommitEvent::PreCommitted) <==> committer.stage() is PreCommitting,
        committer.awaits(CommitEvent::LedgerCommitted { latency, commit_time }) <==> committer.stage()
            is CommittingLedger,
{
}

/// A committer goes through the same stages with every block and keeps hold of it, in
/// whatever state it is, and only a new block moves the version: by its transactions.
pub proof fn every_block_goes_through_all_stages(
    committer: TransactionCommitter,
    event: CommitEvent,
    after: TransactionCommitter,
    action: CommitAction,
)
    requires
        committer.leads_to(event, after, action),
    ensures
        after.start_version() == committer.start_version(),
        !(event is BlockReceived) ==> after.version() == committer.version(),
        event is BlockReceived ==> {
            let block = event->BlockReceived_0;
            &&& after.version() == committer.version() + block.num_txns
            &&& after.stage() == CommitStage::LookingUpParent(block)
            &&& action is LookUpParent
            &&& action->num_txns == block.num_txns
        },
        event is ChannelClosed ==> after.stage() == CommitStage::Stopped && action is Stop,
        event is ParentKnown ==> {
            let block = committer.stage()->LookingUpParent_0;
            &&& after.stage() == CommitStage::PreCommitting(block)
            &&& action is PreCommit
            &&& action->block_id == block.block_id
            &&& action->parent_block_id == event->ParentKnown_0
        },
        event is PreCommitted ==> {
            let block = committer.stage()->PreCommitting_0;
            &&& after.stage() == CommitStage::CommittingLedger(block)
            &&& action is CommitLedger
            &&& action->CommitLedger_0.ledger_info.commit_info.id == block.block_id
            &&& action->CommitLedger_0.ledger_info.commit_info.executed_state_id
                == block.root_hash
            &&& action->CommitLedger_0.ledger_info.commit_info.version == committer.version()
            &&& action->CommitLedger_0.ledger_info.commit_info.epoch == 1
            &&& action->CommitLedger_0.ledger_info.commit_info.next_epoch_state is None
            &&& action->CommitLedger_0.ledger_info.commit_info.round == 0
            &&& action->CommitLedger_0.ledger_info.commit_info.timestamp_usecs == 0
            &&& forall|i: int|
                0 <= i < 32
                    ==> #[trigger] action->CommitLedger_0.ledger_info.consensus_data_hash.bytes@[i]
                    == 0
            &&& action->CommitLedger_0.signatures.validator_bitmask@.len() == 0
            &&& action->CommitLedger_0.signatures.sig is None
        },
        event is LedgerCommitted && committer.start_version() <= committer.version() ==> {
            let block = committer.stage()->CommittingLedger_0;
            &&& after.stage() == CommitStage::Receiving
            &&& action is Report
            &&& tells_the_truth(
                action->Report_0,
                committer.start_version(),
                committer.version(),
                event->latency,
                block.partition_time,
                block.execution_time,
                event->commit_time,
                block.num_txns,
            )
        },
{
    if event is LedgerCommitted && committer.start_version() <= committer.version() {
        let block = committer.stage()->CommittingLedger_0;
        report_tells_the_truth(
            committer.start_version(),
            committer.version(),
            event->latency,
            block.partition_time,
            block.execution_time,
            event->commit_time,
            block.num_txns,
        );
    }
}

} // verus!
