//! Committing executed blocks one after the other.

use crate::chunk_output::EpochState;
use crate::hash::{zero_hash_bytes, HashValue};
use vstd::prelude::*;

verus! {

/// The number of a transaction in the ledger.
pub type Version = u64;

/// A block as the ledger knows it.
#[derive(Debug, PartialEq, Eq)]
pub struct BlockInfo {
    pub epoch: u64,
    pub round: u64,
    pub id: HashValue,
    /// The root hash of the ledger after the block.
    pub executed_state_id: HashValue,
    /// The version after the block.
    pub version: Version,
    pub timestamp_usecs: u64,
    pub next_epoch_state: Option<EpochState>,
}

/// What the validators sign: a block to commit.
#[derive(Debug, PartialEq, Eq)]
pub struct LedgerInfo {
    pub commit_info: BlockInfo,
    pub consensus_data_hash: HashValue,
}

/// The signatures of the validators that are marked, put together.
#[derive(Debug, PartialEq, Eq)]
pub struct AggregateSignature {
    pub validator_bitmask: Vec<u8>,
    pub sig: Option<Vec<u8>>,
}

impl AggregateSignature {
    /// Whether nobody signed.
    pub open spec fn nobody_signed(self) -> bool {
        self.validator_bitmask@.len() == 0 && self.sig is None
    }

    /// The signature of nobody.
    pub fn empty() -> (signature: Self)
        ensures
            signature.nobody_signed(),
    {
        AggregateSignature { validator_bitmask: Vec::new(), sig: None }
    }
}

/// A block to commit, with the signatures for it.
#[derive(Debug, PartialEq, Eq)]
pub struct LedgerInfoWithSignatures {
    pub ledger_info: LedgerInfo,
    pub signatures: AggregateSignature,
}

/// Whether `li` commits the block `block_id`, which leads to `root_hash` at
/// `version`: in the first epoch, with nothing else filled in.
pub open spec fn commits(
    li: LedgerInfoWithSignatures,
    block_id: HashValue,
    root_hash: HashValue,
    version: Version,
) -> bool {
    &&& li.ledger_info.commit_info == BlockInfo {
        epoch: 1,
        round: 0,
        id: block_id,
        executed_state_id: root_hash,
        version,
        timestamp_usecs: 0,
        next_epoch_state: None,
    }
    &&& li.ledger_info.consensus_data_hash.bytes@ == zero_hash_bytes()
    &&& li.signatures.nobody_signed()
}

/// The unsigned ledger info that commits the block `block_id`.
pub fn gen_li_with_sigs(block_id: HashValue, root_hash: HashValue, version: Version) -> (li:
    LedgerInfoWithSignatures)
    ensures
        commits(li, block_id, root_hash, version),
{
    let block_info = BlockInfo {
        epoch: 1,
        round: 0,
        id: block_id,
        executed_state_id: root_hash,
        version,
        timestamp_usecs: 0,
        next_epoch_state: None,
    };
    let ledger_info = LedgerInfo {
        commit_info: block_info,
        consensus_data_hash: HashValue::zero(),
    };
    LedgerInfoWithSignatures { ledger_info, signatures: AggregateSignature::empty() }
}

/// An executed block that is to be committed. Times are in nanoseconds.
#[derive(Clone, Copy, Debug, PartialEq, Eq)]
pub struct CommitBlockMessage {
    pub block_id: HashValue,
    pub root_hash: HashValue,
    pub partition_time: u128,
    pub execution_time: u128,
    pub num_txns: usize,
}

/// What is reported of a committed block.
#[derive(Clone, Copy, Debug, PartialEq, Eq, Structural)]
pub struct BlockReport {
    /// The version after the block.
    pub version: Version,
    /// The number of transactions committed since the committer started.
    pub total_versions: u64,
    pub block_size: usize,
    pub latency_ms: u128,
    pub partition_ms: u128,
    pub execution_ms: u128,
    pub commit_ms: u128,
    pub partition_time: u128,
    pub execution_time: u128,
    pub commit_time: u128,
    /// The time of the stage that took longest, in nanoseconds.
    pub slowest_time: u128,
}

/// The number of nanoseconds in a millisecond.
pub const NANOS_PER_MILLI: u128 = 1_000_000;

/// The larger of two times.
pub open spec fn larger(a: u128, b: u128) -> u128 {
    if a < b {
        b
    } else {
        a
    }
}

/// The report of a block of `block_size` transactions.
pub open spec fn report_of(
    start_version: Version,
    version: Version,
    latency: u128,
    partition_time: u128,
    execution_time: u128,
    commit_time: u128,
    block_size: usize,
) -> BlockReport {
    BlockReport {
        version,
        total_versions: (version - start_version) as u64,
        block_size,
        latency_ms: latency / NANOS_PER_MILLI,
        partition_ms: partition_time / NANOS_PER_MILLI,
        execution_ms: execution_time / NANOS_PER_MILLI,
        commit_ms: commit_time / NANOS_PER_MILLI,
        partition_time,
        execution_time,
        commit_time,
        slowest_time: larger(larger(partition_time, execution_time), commit_time),
    }
}

/// Puts together the report of a committed block.
pub fn report_block(
    start_version: Version,
    version: Version,
    latency: u128,
    partition_time: u128,
    execution_time: u128,
    commit_time: u128,
    block_size: usize,
) -> (report: BlockReport)
    requires
        start_version <= version,
    ensures
        report == report_of(
            start_version,
            version,
            latency,
            partition_time,
            execution_time,
            commit_time,
            block_size,
        ),
{
    let mut slowest_time = partition_time;
    if slowest_time < execution_time {
        slowest_time = execution_time;
    }
    if slowest_time < commit_time {
        slowest_time = commit_time;
    }
    BlockReport {
        version,
        total_versions: version - start_version,
        block_size,
        latency_ms: latency / NANOS_PER_MILLI,
        partition_ms: partition_time / NANOS_PER_MILLI,
        execution_ms: execution_time / NANOS_PER_MILLI,
        commit_ms: commit_time / NANOS_PER_MILLI,
        partition_time,
        execution_time,
        commit_time,
        slowest_time,
    }
}

/// How far a committer is.
#[derive(Clone, Copy, Debug, PartialEq, Eq)]
pub enum CommitStage {
    /// It waits for a block.
    Receiving,
    /// It asks which block was committed last.
    LookingUpParent(CommitBlockMessage),
    /// It has the block committed, but not made known.
    PreCommitting(CommitBlockMessage),
    /// It has the block made known.
    CommittingLedger(CommitBlockMessage),
    /// It does nothing.
    Stopped,
}

/// What a committer hears.
#[derive(Clone, Copy, Debug, PartialEq, Eq)]
pub enum CommitEvent {
    /// There is a block to commit.
    BlockReceived(CommitBlockMessage),
    /// There will be no more blocks.
    ChannelClosed,
    /// The block that was committed last.
    ParentKnown(HashValue),
    /// The block is committed, but not made known.
    PreCommitted,
    /// The block is made known. Times are in nanoseconds: since the block was
    /// started, and since it was received.
    LedgerCommitted { latency: u128, commit_time: u128 },
}

/// What a committer wants done.
#[derive(Debug, PartialEq, Eq)]
pub enum CommitAction {
    /// Wait for the next block.
    Receive,
    /// Count the transactions of a block, and look up which block was committed last.
    LookUpParent { num_txns: u64 },
    /// Commit a block on top of its parent without making it known.
    PreCommit { block_id: HashValue, parent_block_id: HashValue },
    /// Make a block known.
    CommitLedger(LedgerInfoWithSignatures),
    /// Report on a committed block, then wait for the next.
    Report(BlockReport),
    /// Stop.
    Stop,
}

/// Commits blocks one after the other.
pub struct TransactionCommitter {
    start_version: Version,
    version: Version,
    stage: CommitStage,
}

impl TransactionCommitter {
    /// The version after the blocks that it took in.
    pub closed spec fn version(self) -> Version {
        self.version
    }

    /// The version at which it was started.
    pub closed spec fn start_version(self) -> Version {
        self.start_version
    }

    /// How far it is.
    pub closed spec fn stage(self) -> CommitStage {
        self.stage
    }

    #[verifier::type_invariant]
    spec fn versions_grow(self) -> bool {
        self.start_version <= self.version
    }

    /// A committer that commits the blocks behind `version`.
    pub fn new(version: Version) -> (committer: Self)
        ensures
            committer.version() == version,
            committer.start_version() == version,
            committer.stage() is Stopped,
    {
        TransactionCommitter { start_version: version, version, stage: CommitStage::Stopped }
    }

    /// Starts it where it is.
    pub fn run(&mut self) -> (action: CommitAction)
        requires
            old(self).stage() is Stopped,
        ensures
            final(self).version() == old(self).version(),
            final(self).start_version() == old(self).version(),
            final(self).stage() is Receiving,
            action is Receive,
    {
        self.start_version = self.version;
        self.stage = CommitStage::Receiving;
        CommitAction::Receive
    }

    /// Whether `event` is one that it waits for.
    pub open spec fn awaits(self, event: CommitEvent) -> bool {
        match event {
            CommitEvent::BlockReceived(block) => self.stage() is Receiving && self.version()
                + block.num_txns <= u64::MAX,
            CommitEvent::ChannelClosed => self.stage() is Receiving,
            CommitEvent::ParentKnown(_) => self.stage() is LookingUpParent,
            CommitEvent::PreCommitted => self.stage() is PreCommitting,
            CommitEvent::LedgerCommitted { .. } => self.stage() is CommittingLedger,
        }
    }

    /// The stage after `event`.
    pub open spec fn stage_after(self, event: CommitEvent) -> CommitStage {
        match (self.stage(), event) {
            (CommitStage::Receiving, CommitEvent::BlockReceived(block)) => {
                CommitStage::LookingUpParent(block)
            },
            (CommitStage::LookingUpParent(block), CommitEvent::ParentKnown(_)) => {
                CommitStage::PreCommitting(block)
            },
            (CommitStage::PreCommitting(block), CommitEvent::PreCommitted) => {
                CommitStage::CommittingLedger(block)
            },
            (CommitStage::CommittingLedger(_), CommitEvent::LedgerCommitted { .. }) => {
                CommitStage::Receiving
            },
            _ => CommitStage::Stopped,
        }
    }

    /// The version after `event`: a block that comes in adds its transactions.
    pub open spec fn version_after(self, event: CommitEvent) -> int {
        match event {
            CommitEvent::BlockReceived(block) => self.version() + block.num_txns,
            _ => self.version() as int,
        }
    }

    /// Whether `action` is what it wants done after `event`.
    pub open spec fn wants(self, event: CommitEvent, action: CommitAction) -> bool {
        match (self.stage(), event) {
            (CommitStage::Receiving, CommitEvent::BlockReceived(block)) => action
                == CommitAction::LookUpParent { num_txns: block.num_txns as u64 },
            (CommitStage::LookingUpParent(block), CommitEvent::ParentKnown(parent)) => action
                == CommitAction::PreCommit { block_id: block.block_id, parent_block_id: parent },
            (CommitStage::PreCommitting(block), CommitEvent::PreCommitted) => {
                &&& action matches CommitAction::CommitLedger(li)
                &&& commits(li, block.block_id, block.root_hash, self.version())
            },
            (
                CommitStage::CommittingLedger(block),
                CommitEvent::LedgerCommitted { latency, commit_time },
            ) => action == CommitAction::Report(
                report_of(
                    self.start_version(),
                    self.version(),
                    latency,
                    block.partition_time,
                    block.execution_time,
                    commit_time,
                    block.num_txns,
                ),
            ),
            _ => action is Stop,
        }
    }

    /// Whether `event` leads from this committer to `after`, with `action` to be
    /// done.
    pub open spec fn leads_to(
        self,
        event: CommitEvent,
        after: TransactionCommitter,
        action: CommitAction,
    ) -> bool {
        &&& self.awaits(event)
        &&& after.stage() == self.stage_after(event)
        &&& after.version() == self.version_after(event)
        &&& after.start_version() == self.start_version()
        &&& self.wants(event, action)
    }

    /// Takes in an event, and says what is to be done.
    pub fn step(&mut self, event: CommitEvent) -> (action: CommitAction)
        requires
            old(self).awaits(event),
        ensures
            old(self).leads_to(event, *final(self), action),
    {
        proof {
            use_type_invariant(&*self);
        }
        match (self.stage, event) {
            (CommitStage::Receiving, CommitEvent::BlockReceived(block)) => {
                let num_txns = block.num_txns as u64;
                self.version = self.version + num_txns;
                self.stage = CommitStage::LookingUpParent(block);
                CommitAction::LookUpParent { num_txns }
            },
            (CommitStage::LookingUpParent(block), CommitEvent::ParentKnown(parent_block_id)) => {
                self.stage = CommitStage::PreCommitting(block);
                CommitAction::PreCommit { block_id: block.block_id, parent_block_id }
            },
            (CommitStage::PreCommitting(block), CommitEvent::PreCommitted) => {
                let li = gen_li_with_sigs(block.block_id, block.root_hash, self.version);
                self.stage = CommitStage::CommittingLedger(block);
                CommitAction::CommitLedger(li)
            },
            (
                CommitStage::CommittingLedger(block),
                CommitEvent::LedgerCommitted { latency, commit_time },
            ) => {
                self.stage = CommitStage::Receiving;
                let report = report_block(
                    self.start_version,
                    self.version,
                    latency,
                    block.partition_time,
                    block.execution_time,
                    commit_time,
                    block.num_txns,
                );
                CommitAction::Report(report)
            },
            _ => {
                self.stage = CommitStage::Stopped;
                CommitAction::Stop
            },
        }
    }

    /// The version after the blocks that it took in.
    pub fn get_version(&self) -> (version: Version)
        ensures
            version == self.version(),
    {
        self.version
    }

    /// Whether a block of `num_txns` transactions can be taken in: it waits for one,
    /// and the version stays in range.
    pub fn can_take(&self, num_txns: usize) -> (can: bool)
        ensures
            can == (self.stage() is Receiving && self.version() + num_txns <= u64::MAX),
    {
        match self.stage {
            CommitStage::Receiving => num_txns as u64 <= u64::MAX - self.version,
            _ => false,
        }
    }
}

/// A committer at work: what it heard, where that led, and what it wanted done.
pub struct CommitTrace {
    pub states: Seq<TransactionCommitter>,
    pub events: Seq<CommitEvent>,
    pub actions: Seq<CommitAction>,
}

impl CommitTrace {
    /// Whether each event led from one state to the next.
    pub open spec fn valid(self) -> bool {
        &&& self.states.len() == self.events.len() + 1
        &&& self.actions.len() == self.events.len()
        &&& forall|i: int|
            0 <= i < self.events.len() ==> #[trigger] self.leads_on(i)
    }

    /// Whether the event at place `i` led from the state there to the next.
    pub open spec fn leads_on(self, i: int) -> bool {
        self.states[i].leads_to(self.events[i], self.states[i + 1], self.actions[i])
    }

    /// The number of transactions of the blocks among the first `n` events.
    pub open spec fn txns_received(self, n: nat) -> nat
        decreases n,
    {
        if n == 0 {
            0
        } else {
            self.txns_received((n - 1) as nat) + match self.events[n - 1] {
                CommitEvent::BlockReceived(block) => block.num_txns as nat,
                _ => 0,
            }
        }
    }
}

/// The version is the one at the start plus the transactions of all blocks that came
/// in since, and the committer remembers where it started.
pub proof fn version_counts_all_received_transactions(trace: CommitTrace, n: nat)
    requires
        trace.valid(),
        n <= trace.events.len(),
    ensures
        trace.states[n as int].version() == trace.states[0].version() + trace.txns_received(n),
        trace.states[n as int].start_version() == trace.states[0].start_version(),
    decreases n,
{
    if n > 0 {
        version_counts_all_received_transactions(trace, (n - 1) as nat);
        assert(trace.leads_on(n - 1));
    }
}

/// A block that comes in is committed on top of the block that was committed last,
/// then made known with the version that includes it, then reported, with nothing in
/// between.
pub proof fn each_received_block_is_committed(trace: CommitTrace, i: int)
    requires
        trace.valid(),
        0 <= i,
        i + 3 < trace.events.len(),
        trace.events[i] is BlockReceived,
    ensures
        ({
            let block = trace.events[i]->BlockReceived_0;
            let version = (trace.states[i].version() + block.num_txns) as u64;
            &&& trace.events[i + 1] matches CommitEvent::ParentKnown(parent)
            &&& trace.actions[i + 1] == CommitAction::PreCommit {
                block_id: block.block_id,
                parent_block_id: parent,
            }
            &&& trace.actions[i + 2] matches CommitAction::CommitLedger(li)
            &&& commits(li, block.block_id, block.root_hash, version)
            &&& trace.actions[i + 3] matches CommitAction::Report(report)
            &&& report.version == version
            &&& report.block_size == block.num_txns
            &&& trace.states[i + 4].stage() is Receiving
        }),
{
    assert(trace.leads_on(i));
    assert(trace.leads_on(i + 1));
    assert(trace.leads_on(i + 2));
    assert(trace.leads_on(i + 3));
}

/// A block is made known only right after it was committed.
pub proof fn nothing_is_made_known_before_it_is_committed(trace: CommitTrace, i: int)
    requires
        trace.valid(),
        trace.states[0].stage() is Receiving,
        0 <= i < trace.events.len(),
        trace.actions[i] is CommitLedger,
    ensures
        i >= 2,
        trace.actions[i - 1] matches CommitAction::PreCommit { block_id, .. } && block_id
            == trace.actions[i]->CommitLedger_0.ledger_info.commit_info.id,
        trace.events[i - 2] matches CommitEvent::BlockReceived(block) && block.block_id
            == trace.actions[i]->CommitLedger_0.ledger_info.commit_info.id,
{
    assert(trace.leads_on(i));
    if i >= 1 {
        assert(trace.leads_on(i - 1));
    }
    if i >= 2 {
        assert(trace.leads_on(i - 2));
    }
}

} // verus!
