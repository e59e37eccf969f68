//! What is sent to the executor shards for a block.

use crate::remote_executor_client::{
    command_type, numbered, random_below, RemoteExecutorClient, BATCH_SIZE,
};
use crate::shard_outputs::{sum, sum_of_first};
use vstd::prelude::*;
use vstd::slice::slice_subrange;

verus! {

/// How the transactions of a partition hang together with those of others. The parts
/// are passed on as they are.
#[derive(Debug, PartialEq, Eq)]
pub struct PartitionDependencies<G, L, K, F> {
    /// The place of each transaction in the block.
    pub global_idxs: G,
    /// The place in the partition, by the place in the block.
    pub local_idx_by_global: L,
    /// For each transaction that is depended on, the keys that are waited for.
    pub key_sets_by_dep: K,
    /// For each transaction, the shards that wait for it.
    pub follower_shard_sets: F,
}

/// The part of a block that one shard executes.
#[derive(Debug, PartialEq, Eq)]
pub struct PartitionV3<T, G, L, K, F> {
    pub txns: Vec<T>,
    pub dependencies: PartitionDependencies<G, L, K, F>,
}

/// What one shard has to do for a block.
#[derive(Debug, PartialEq, Eq)]
pub struct ShardTask<'a, T, D, C> {
    pub shard_id: usize,
    pub txns: &'a [T],
    pub dependencies: &'a D,
    pub onchain_config: &'a C,
    /// When the execution of the block started.
    pub duration_since_epoch: u64,
}

/// What a message to a shard holds.
#[derive(Debug, PartialEq, Eq)]
pub enum CommandPayload<'a, T, D, C> {
    /// What the shard has to know of its partition before it starts.
    MetaData { num_txns: usize, dependencies: &'a D, onchain_config: &'a C },
    /// The transactions of the partition from `batch_start_index` on.
    Cmds { cmds: &'a [T], num_txns_total: usize, batch_start_index: usize },
}

/// A message to a shard.
#[derive(Debug, PartialEq, Eq)]
pub struct OutboundCommand<'a, T, D, C> {
    pub payload: CommandPayload<'a, T, D, C>,
    /// When the execution of the block started.
    pub duration_since_epoch: u64,
    /// The number of transactions in the message.
    pub num_txns: u64,
    /// The place of the message among those for the shard.
    pub message_index: u64,
    pub message_type: String,
    /// Which of the senders for the shard takes the message.
    pub sender: usize,
    /// How long the message can wait: the lower the number, the sooner it goes.
    pub priority: u64,
}

/// What is sent and what is expected back for a block.
#[derive(Debug, PartialEq, Eq)]
pub struct RemoteBlockPlan<'a, T, D, C> {
    /// For each partition, the messages to its shard.
    pub commands: Vec<Vec<OutboundCommand<'a, T, D, C>>>,
    /// For each shard, the number of outputs that it sends back.
    pub expected_outputs: Vec<u64>,
}

/// The number of batches that `num_txns` transactions make.
pub open spec fn num_batches(num_txns: nat) -> nat {
    (num_txns + BATCH_SIZE as nat - 1) as nat / BATCH_SIZE as nat
}

/// Where the batch `batch` starts.
pub open spec fn batch_start(batch: nat) -> nat {
    batch * BATCH_SIZE as nat
}

/// Where the batch `batch` of `num_txns` transactions ends.
pub open spec fn batch_end(num_txns: nat, batch: nat) -> nat {
    if batch_start(batch + 1) <= num_txns {
        batch_start(batch + 1)
    } else {
        num_txns
    }
}

/// A `ShardTask` with its transactions as a sequence.
pub struct ShardTaskView<T, D, C> {
    pub shard_id: nat,
    pub txns: Seq<T>,
    pub dependencies: D,
    pub onchain_config: C,
    pub duration_since_epoch: u64,
}

impl<'a, T, D, C> View for ShardTask<'a, T, D, C> {
    type V = ShardTaskView<T, D, C>;

    open spec fn view(&self) -> ShardTaskView<T, D, C> {
        ShardTaskView {
            shard_id: self.shard_id as nat,
            txns: self.txns@,
            dependencies: *self.dependencies,
            onchain_config: *self.onchain_config,
            duration_since_epoch: self.duration_since_epoch,
        }
    }
}

impl<T, D, C> ShardTaskView<T, D, C> {
    /// The number of transactions of the partition.
    pub open spec fn num_txns(self) -> nat {
        self.txns.len()
    }

    /// The transactions of the batch `batch`.
    pub open spec fn batch(self, batch: nat) -> Seq<T> {
        self.txns.subrange(
            batch_start(batch) as int,
            batch_end(self.num_txns(), batch) as int,
        )
    }
}

impl<'a, T, D, C> OutboundCommand<'a, T, D, C> {
    /// The transactions in the message.
    pub open spec fn cmds(self) -> Seq<T> {
        match self.payload {
            CommandPayload::MetaData { .. } => Seq::empty(),
            CommandPayload::Cmds { cmds, .. } => cmds@,
        }
    }

    /// Whether this is the message that opens `task`: it tells all that the shard
    /// has to know of the partition but the transactions themselves.
    pub open spec fn opens(self, task: ShardTaskView<T, D, C>) -> bool {
        &&& self.payload matches CommandPayload::MetaData {
            num_txns,
            dependencies,
            onchain_config,
        } && num_txns == task.num_txns() && *dependencies == task.dependencies && *onchain_config
            == task.onchain_config
        &&& self.duration_since_epoch == task.duration_since_epoch
        &&& self.num_txns == 0
        &&& self.message_index == 0
        &&& self.message_type@ == command_type(task.shard_id)
        &&& self.sender == 0
        &&& self.priority == 0
    }

    /// Whether this is the message with the batch `batch` of `task`, whoever sends it.
    pub open spec fn carries(self, task: ShardTaskView<T, D, C>, batch: nat) -> bool {
        &&& self.payload matches CommandPayload::Cmds {
            cmds,
            num_txns_total,
            batch_start_index,
        } && cmds@ == task.batch(batch) && num_txns_total == task.num_txns() && batch_start_index
            == batch_start(batch)
        &&& self.duration_since_epoch == task.duration_since_epoch
        &&& self.num_txns == task.batch(batch).len()
        &&& self.message_index == batch + 1
        &&& self.message_type@ == command_type(task.shard_id)
        &&& self.priority == batch
    }
}

/// Whether `commands` are the messages for `task` to a shard that has `num_senders`
/// senders.
pub open spec fn is_shard_plan<'a, T, D, C>(
    commands: Seq<OutboundCommand<'a, T, D, C>>,
    task: ShardTaskView<T, D, C>,
    num_senders: nat,
) -> bool {
    &&& commands.len() == 1 + num_batches(task.num_txns())
    &&& commands[0].opens(task)
    &&& forall|i: int|
        1 <= i < commands.len() ==> {
            &&& (#[trigger] commands[i]).carries(task, (i - 1) as nat)
            &&& commands[i].sender < num_senders
        }
}

/// The message that opens `task`.
pub fn metadata_command<'a, T, D, C>(task: &ShardTask<'a, T, D, C>) -> (command: OutboundCommand<
    'a,
    T,
    D,
    C,
>)
    ensures
        command.opens(task@),
{
    OutboundCommand {
        payload: CommandPayload::MetaData {
            num_txns: task.txns.len(),
            dependencies: task.dependencies,
            onchain_config: task.onchain_config,
        },
        duration_since_epoch: task.duration_since_epoch,
        num_txns: 0,
        message_index: 0,
        message_type: numbered("execute_command_", task.shard_id),
        sender: 0,
        priority: 0,
    }
}

/// The message with the batch `batch` of `task`, sent by `sender`.
pub fn batch_command<'a, T, D, C>(
    task: &ShardTask<'a, T, D, C>,
    batch: usize,
    sender: usize,
) -> (command: OutboundCommand<'a, T, D, C>)
    requires
        batch < num_batches(task@.num_txns()),
    ensures
        command.carries(task@, batch as nat),
        command.sender == sender,
{
    let num_txns = task.txns.len();
    let batch_start_index = batch * BATCH_SIZE;
    let batch_end_index = if num_txns - batch_start_index > BATCH_SIZE {
        batch_start_index + BATCH_SIZE
    } else {
        num_txns
    };
    let cmds = slice_subrange(task.txns, batch_start_index, batch_end_index);
    OutboundCommand {
        payload: CommandPayload::Cmds { cmds, num_txns_total: num_txns, batch_start_index },
        duration_since_epoch: task.duration_since_epoch,
        num_txns: cmds.len() as u64,
        message_index: batch as u64 + 1,
        message_type: numbered("execute_command_", task.shard_id),
        sender,
        priority: batch as u64,
    }
}

/// The messages for `task` to a shard that has `num_senders` senders, each batch with a
/// sender picked at random.
pub fn plan_shard<'a, T, D, C>(
    task: &ShardTask<'a, T, D, C>,
    num_senders: usize,
) -> (commands: Vec<OutboundCommand<'a, T, D, C>>)
    requires
        num_senders > 0,
    ensures
        is_shard_plan(commands@, task@, num_senders as nat),
{
    let mut commands: Vec<OutboundCommand<'a, T, D, C>> = Vec::new();
    commands.push(metadata_command(task));
    let num_txns = task.txns.len();
    let batches = if num_txns % BATCH_SIZE == 0 {
        num_txns / BATCH_SIZE
    } else {
        num_txns / BATCH_SIZE + 1
    };
    assert(batches == num_batches(num_txns as nat));
    for batch in 0..batches
        invariant
            num_senders > 0,
            batches == num_batches(task@.num_txns()),
            commands@.len() == 1 + batch,
            commands@[0].opens(task@),
            forall|i: int|
                1 <= i < commands@.len() ==> {
                    &&& (#[trigger] commands@[i]).carries(task@, (i - 1) as nat)
                    &&& commands@[i].sender < num_senders
                },
    {
        let sender = random_below(num_senders);
        commands.push(batch_command(task, batch, sender));
    }
    commands
}

/// The number of outputs that is expected of each of `num_shards` shards: one for
/// each transaction of its partition, if it has one.
pub open spec fn outputs_expected<T, G, L, K, F>(
    partitions: Seq<PartitionV3<T, G, L, K, F>>,
    num_shards: nat,
) -> Seq<u64> {
    Seq::new(
        num_shards,
        |i: int|
            if i < partitions.len() {
                partitions[i].txns@.len() as u64
            } else {
                0
            },
    )
}

/// What the shard `shard_id` has to do with `partition`.
pub open spec fn task_of<T, G, L, K, F, C>(
    shard_id: nat,
    partition: PartitionV3<T, G, L, K, F>,
    onchain_config: C,
    duration_since_epoch: u64,
) -> ShardTaskView<T, PartitionDependencies<G, L, K, F>, C> {
    ShardTaskView {
        shard_id,
        txns: partition.txns@,
        dependencies: partition.dependencies,
        onchain_config,
        duration_since_epoch,
    }
}

impl RemoteExecutorClient {
    /// What is sent to the shards, and expected back from them, for a block with
    /// the given partitions whose execution started at `duration_since_epoch`. A
    /// shard without a partition gets nothing, and no output is expected of it.
    pub fn execute_block_remote<'a, T, G, L, K, F, C>(
        &self,
        partitions: &'a Vec<PartitionV3<T, G, L, K, F>>,
        onchain_config: &'a C,
        duration_since_epoch: u64,
    ) -> (plan: RemoteBlockPlan<'a, T, PartitionDependencies<G, L, K, F>, C>)
        requires
            partitions@.len() <= self.shards().len(),
        ensures
            plan.commands@.len() == partitions@.len(),
            forall|i: int|
                0 <= i < partitions@.len() ==> is_shard_plan(
                    #[trigger] plan.commands@[i]@,
                    task_of(i as nat, partitions@[i], *onchain_config, duration_since_epoch),
                    self.shards()[i].num_command_senders as nat,
                ),
            plan.expected_outputs@ == outputs_expected(partitions@, self.shards().len()),
    {
        let mut commands: Vec<
            Vec<OutboundCommand<'a, T, PartitionDependencies<G, L, K, F>, C>>,
        > = Vec::new();
        let mut expected_outputs: Vec<u64> = Vec::new();
        let num_shards = self.num_shards();
        for shard_id in 0..num_shards
            invariant
                num_shards == self.shards().len(),
                partitions@.len() <= num_shards,
                commands@.len() == if shard_id <= partitions@.len() {
                    shard_id as int
                } else {
                    partitions@.len() as int
                },
                forall|i: int|
                    0 <= i < commands@.len() ==> is_shard_plan(
                        #[trigger] commands@[i]@,
                        task_of(i as nat, partitions@[i], *onchain_config, duration_since_epoch),
                        self.shards()[i].num_command_senders as nat,
                    ),
                expected_outputs@ == outputs_expected(partitions@, shard_id as nat),
        {
            let num_txns = if shard_id < partitions.len() {
                let partition = &partitions[shard_id];
                let num_senders = self.shard(shard_id).num_command_senders;
                let task = ShardTask {
                    shard_id,
                    txns: partition.txns.as_slice(),
                    dependencies: &partition.dependencies,
                    onchain_config,
                    duration_since_epoch,
                };
                let shard_commands = plan_shard(&task, num_senders);
                assert(task@ == task_of(
                    shard_id as nat,
                    partitions@[shard_id as int],
                    *onchain_config,
                    duration_since_epoch,
                ));
                commands.push(shard_commands);
                partition.txns.len()
            } else {
                0
            };
            expected_outputs.push(num_txns as u64);
            assert(expected_outputs@ =~= outputs_expected(partitions@, (shard_id + 1) as nat));
        }
        RemoteBlockPlan { commands, expected_outputs }
    }
}

/// The numbers of transactions of the first `n` messages, summed up.
pub open spec fn txns_sent<'a, T, D, C>(
    commands: Seq<OutboundCommand<'a, T, D, C>>,
    n: nat,
) -> nat
    decreases n,
{
    if n == 0 {
        0
    } else {
        txns_sent(commands, (n - 1) as nat) + commands[n - 1].num_txns as nat
    }
}

/// The transactions in the first `n` messages, one after the other.
pub open spec fn cmds_sent<'a, T, D, C>(
    commands: Seq<OutboundCommand<'a, T, D, C>>,
    n: nat,
) -> Seq<T>
    decreases n,
{
    if n == 0 {
        Seq::empty()
    } else {
        cmds_sent(commands, (n - 1) as nat) + commands[n - 1].cmds()
    }
}

/// The batches of a partition hold each of its transactions once: the one at place
/// `t` is in the batch `t / BATCH_SIZE` and in no other.
pub proof fn each_transaction_is_in_one_batch(num_txns: nat, t: nat)
    requires
        t < num_txns,
    ensures
        t / (BATCH_SIZE as nat) < num_batches(num_txns),
        forall|batch: nat|
            batch < num_batches(num_txns) ==> ((#[trigger] batch_start(batch) <= t < batch_end(
                num_txns,
                batch,
            )) <==> batch == t / BATCH_SIZE as nat),
{
}

/// No batch is empty, none is over the batch size, and only the last one is under
/// it.
pub proof fn batches_are_full_but_the_last(num_txns: nat, batch: nat)
    requires
        batch < num_batches(num_txns),
    ensures
        0 < batch_end(num_txns, batch) - batch_start(batch) <= BATCH_SIZE,
        batch + 1 < num_batches(num_txns) ==> batch_end(num_txns, batch) - batch_start(batch)
            == BATCH_SIZE,
{
}

/// The messages to a shard hold the transactions of its partition one after the other:
/// none is lost, and none comes twice.
pub proof fn messages_hold_the_partition<'a, T, D, C>(
    commands: Seq<OutboundCommand<'a, T, D, C>>,
    task: ShardTaskView<T, D, C>,
    num_senders: nat,
)
    requires
        is_shard_plan(commands, task, num_senders),
    ensures
        cmds_sent(commands, commands.len()) == task.txns,
{
    lemma_cmds_sent(commands, task, num_senders, num_batches(task.num_txns()));
    assert(task.txns.take(task.num_txns() as int) =~= task.txns);
}

proof fn lemma_cmds_sent<'a, T, D, C>(
    commands: Seq<OutboundCommand<'a, T, D, C>>,
    task: ShardTaskView<T, D, C>,
    num_senders: nat,
    n: nat,
)
    requires
        is_shard_plan(commands, task, num_senders),
        n <= num_batches(task.num_txns()),
    ensures
        cmds_sent(commands, n + 1) == task.txns.take(
            if n < num_batches(task.num_txns()) {
                batch_start(n) as int
            } else {
                task.num_txns() as int
            },
        ),
    decreases n,
{
    reveal_with_fuel(cmds_sent, 2);
    if n > 0 {
        lemma_cmds_sent(commands, task, num_senders, (n - 1) as nat);
        assert(commands[n as int].carries(task, (n - 1) as nat));
        assert(cmds_sent(commands, n + 1) =~= task.txns.take(
            if n < num_batches(task.num_txns()) {
                batch_start(n) as int
            } else {
                task.num_txns() as int
            },
        ));
    } else {
        assert(commands[0].opens(task));
        assert(cmds_sent(commands, 1) =~= task.txns.take(0));
    }
}

/// The messages to a shard announce as many transactions in all as the partition
/// has, which is the number of outputs that is expected back.
pub proof fn announced_transactions_add_up<'a, T, D, C>(
    commands: Seq<OutboundCommand<'a, T, D, C>>,
    task: ShardTaskView<T, D, C>,
    num_senders: nat,
)
    requires
        is_shard_plan(commands, task, num_senders),
    ensures
        txns_sent(commands, commands.len()) == task.num_txns(),
{
    lemma_txns_sent(commands, task, num_senders, num_batches(task.num_txns()));
}

proof fn lemma_txns_sent<'a, T, D, C>(
    commands: Seq<OutboundCommand<'a, T, D, C>>,
    task: ShardTaskView<T, D, C>,
    num_senders: nat,
    n: nat,
)
    requires
        is_shard_plan(commands, task, num_senders),
        n <= num_batches(task.num_txns()),
    ensures
        txns_sent(commands, n + 1) == if n < num_batches(task.num_txns()) {
            batch_start(n)
        } else {
            task.num_txns()
        },
    decreases n,
{
    reveal_with_fuel(txns_sent, 2);
    if n > 0 {
        lemma_txns_sent(commands, task, num_senders, (n - 1) as nat);
        assert(commands[n as int].carries(task, (n - 1) as nat));
    } else {
        assert(commands[0].opens(task));
    }
}

/// A shard that answers each batch with as many outputs as the batch has
/// transactions is done with the last batch, and with none before.
pub proof fn shard_is_done_with_its_last_batch<'a, T, D, C>(
    commands: Seq<OutboundCommand<'a, T, D, C>>,
    task: ShardTaskView<T, D, C>,
    num_senders: nat,
    sizes: Seq<u64>,
    n: nat,
)
    requires
        is_shard_plan(commands, task, num_senders),
        sizes.len() == num_batches(task.num_txns()),
        forall|i: int|
            0 <= i < sizes.len() ==> #[trigger] sizes[i] == commands[i + 1].num_txns,
        1 <= n <= sizes.len(),
    ensures
        sum_of_first(sizes, n) == task.num_txns() <==> n == sizes.len(),
{
    assert(commands[0].opens(task));
    lemma_sum_of_sizes(commands, sizes, n);
    lemma_txns_sent(commands, task, num_senders, n);
}

proof fn lemma_sum_of_sizes<'a, T, D, C>(
    commands: Seq<OutboundCommand<'a, T, D, C>>,
    sizes: Seq<u64>,
    n: nat,
)
    requires
        commands.len() == sizes.len() + 1,
        commands[0].num_txns == 0,
        forall|i: int|
            0 <= i < sizes.len() ==> #[trigger] sizes[i] == commands[i + 1].num_txns,
        n <= sizes.len(),
    ensures
        sum_of_first(sizes, n) == txns_sent(commands, n + 1),
    decreases n,
{
    reveal_with_fuel(txns_sent, 2);
    if n > 0 {
        lemma_sum_of_sizes(commands, sizes, (n - 1) as nat);
        assert(sizes[n - 1] == commands[n as int].num_txns);
    }
}

/// The number of transactions in the first `n` of `partitions`.
pub open spec fn txns_in<T, G, L, K, F>(
    partitions: Seq<PartitionV3<T, G, L, K, F>>,
    n: nat,
) -> nat
    decreases n,
{
    if n == 0 {
        0
    } else {
        txns_in(partitions, (n - 1) as nat) + partitions[n - 1].txns@.len()
    }
}

/// As many outputs are expected of all shards together as the block has transactions.
pub proof fn one_output_is_expected_for_each_transaction<T, G, L, K, F>(
    partitions: Seq<PartitionV3<T, G, L, K, F>>,
    num_shards: nat,
)
    requires
        partitions.len() <= num_shards,
        forall|i: int|
            0 <= i < partitions.len() ==> (#[trigger] partitions[i]).txns@.len() <= u64::MAX,
    ensures
        sum(outputs_expected(partitions, num_shards)) == txns_in(partitions, partitions.len()),
{
    lemma_outputs_expected_of_first(partitions, num_shards, num_shards);
}

proof fn lemma_outputs_expected_of_first<T, G, L, K, F>(
    partitions: Seq<PartitionV3<T, G, L, K, F>>,
    num_shards: nat,
    n: nat,
)
    requires
        n <= num_shards,
        forall|i: int|
            0 <= i < partitions.len() ==> (#[trigger] partitions[i]).txns@.len() <= u64::MAX,
    ensures
        sum_of_first(outputs_expected(partitions, num_shards), n) == txns_in(
            partitions,
            if n <= partitions.len() {
                n
            } else {
                partitions.len()
            },
        ),
    decreases n,
{
    if n > 0 {
        lemma_outputs_expected_of_first(partitions, num_shards, (n - 1) as nat);
    }
}

} // verus!
