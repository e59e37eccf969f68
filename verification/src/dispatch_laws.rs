//! What the messages to the shards say, and who sends them.

use crate::block_dispatch::{
    is_shard_plan, outputs_expected, task_of, OutboundCommand, PartitionDependencies, PartitionV3,
    ShardTask, ShardTaskView,
};
use crate::remote_addresses::{is_localhost, remote_or_none, set_once, AddressBook, SocketAddress};
use crate::remote_executor_client::{
    command_type, result_type, senders_per_shard, RemoteExecutorClient,
};
use crate::text::decimal;
use vstd::prelude::*;

verus! {

/// A shard gets one message that opens its partition, and as many with transactions as it
/// takes to send them 200 at a time: no fewer and no more.
pub proof fn as_many_messages_as_it_takes<'a, T, D, C>(
    commands: Seq<OutboundCommand<'a, T, D, C>>,
    task: ShardTaskView<T, D, C>,
    num_senders: nat,
)
    requires
        is_shard_plan(commands, task, num_senders),
    ensures
        commands.len() >= 1,
        task.txns.len() <= 200 * (commands.len() - 1),
        commands.len() > 1 ==> 200 * (commands.len() - 2) < task.txns.len(),
{
}

/// The first message to a shard, and only the first, opens the partition: it tells the
/// number of its transactions, how they hang together with others, and the configuration,
/// and carries no transaction.
pub proof fn first_message_tells_all_but_the_transactions<'a, T, D, C>(
    commands: Seq<OutboundCommand<'a, T, D, C>>,
    task: ShardTaskView<T, D, C>,
    num_senders: nat,
    i: int,
)
    requires
        is_shard_plan(commands, task, num_senders),
        0 <= i < commands.len(),
    ensures
        commands[i].payload is MetaData <==> i == 0,
        commands[0].payload->MetaData_num_txns == task.txns.len(),
        *commands[0].payload->dependencies == task.dependencies,
        *commands[0].payload->onchain_config == task.onchain_config,
        commands[0].num_txns == 0,
        commands[0].sender == 0,
{
    assert(commands[0].opens(task));
    if i > 0 {
        assert(commands[i].carries(task, (i - 1) as nat));
    }
}

/// Whichever message carries the transaction at place `t` of a partition, it is the
/// message with the transactions from the last multiple of 200 on, at the right offset;
/// and what a message announces is what it carries.
pub proof fn each_transaction_is_at_its_offset<'a, T, D, C>(
    commands: Seq<OutboundCommand<'a, T, D, C>>,
    task: ShardTaskView<T, D, C>,
    num_senders: nat,
    i: int,
    offset: int,
)
    requires
        is_shard_plan(commands, task, num_senders),
        1 <= i < commands.len(),
    ensures
        commands[i].payload is Cmds,
        commands[i].payload->batch_start_index == 200 * (i - 1),
        commands[i].num_txns == commands[i].payload->cmds@.len(),
        1 <= commands[i].payload->cmds@.len() <= 200,
        i < commands.len() - 1 ==> commands[i].payload->cmds@.len() == 200,
        i == commands.len() - 1 ==> 200 * (i - 1) + commands[i].payload->cmds@.len()
            == task.txns.len(),
        0 <= offset < commands[i].payload->cmds@.len() ==> 200 * (i - 1) + offset
            < task.txns.len() && commands[i].payload->cmds@[offset] == task.txns[200 * (i - 1)
            + offset],
{
    assert(commands[i].carries(task, (i - 1) as nat));
}

/// The total that any message to a shard tells is the number of transactions of the
/// partition: all messages tell the same, the opening one too, and it is what the batches
/// add up to.
pub proof fn all_messages_tell_the_same_total<'a, T, D, C>(
    commands: Seq<OutboundCommand<'a, T, D, C>>,
    task: ShardTaskView<T, D, C>,
    num_senders: nat,
    i: int,
    j: int,
)
    requires
        is_shard_plan(commands, task, num_senders),
        1 <= i < commands.len(),
        1 <= j < commands.len(),
    ensures
        commands[i].payload->num_txns_total == task.txns.len(),
        commands[i].payload->num_txns_total == commands[j].payload->num_txns_total,
        commands[i].payload->num_txns_total == commands[0].payload->MetaData_num_txns,
        commands[i].payload->num_txns_total == commands[commands.len()
            - 1].payload->batch_start_index + commands[commands.len() - 1].num_txns,
{
    assert(commands[0].opens(task));
    assert(commands[i].carries(task, (i - 1) as nat));
    assert(commands[j].carries(task, (j - 1) as nat));
    assert(commands[commands.len() - 1].carries(task, (commands.len() - 2) as nat));
}

/// Every message to a shard is addressed to it, numbered in order, sent by one of its
/// senders, and tells when the block was started; batches wait in their order.
pub proof fn messages_are_addressed_and_numbered<'a, T, D, C>(
    commands: Seq<OutboundCommand<'a, T, D, C>>,
    task: ShardTaskView<T, D, C>,
    num_senders: nat,
    i: int,
)
    requires
        is_shard_plan(commands, task, num_senders),
        0 <= i < commands.len(),
        num_senders > 0,
    ensures
        commands[i].message_type@ == "execute_command_"@ + decimal(task.shard_id),
        commands[i].message_index == i,
        commands[i].sender < num_senders,
        commands[i].duration_since_epoch == task.duration_since_epoch,
        commands[i].priority == if i == 0 {
            0
        } else {
            i - 1
        },
{
    assert(commands[0].opens(task));
    if i > 0 {
        assert(commands[i].carries(task, (i - 1) as nat));
    }
}

/// A task says all that it holds.
pub proof fn task_says_what_it_holds<'a, T, D, C>(task: ShardTask<'a, T, D, C>)
    ensures
        task@.shard_id == task.shard_id,
        task@.txns == task.txns@,
        task@.dependencies == *task.dependencies,
        task@.onchain_config == *task.onchain_config,
        task@.duration_since_epoch == task.duration_since_epoch,
{
}

/// What a shard has to do is all that its partition holds, with what is the same for all
/// shards.
pub proof fn task_is_the_whole_partition<T, G, L, K, F, C>(
    shard_id: nat,
    partition: PartitionV3<T, G, L, K, F>,
    onchain_config: C,
    duration_since_epoch: u64,
)
    ensures
        ({
            let task = task_of(shard_id, partition, onchain_config, duration_since_epoch);
            &&& task.shard_id == shard_id
            &&& task.txns == partition.txns@
            &&& task.dependencies.global_idxs == partition.dependencies.global_idxs
            &&& task.dependencies.local_idx_by_global == partition.dependencies.local_idx_by_global
            &&& task.dependencies.key_sets_by_dep == partition.dependencies.key_sets_by_dep
            &&& task.dependencies.follower_shard_sets == partition.dependencies.follower_shard_sets
            &&& task.onchain_config == onchain_config
            &&& task.duration_since_epoch == duration_since_epoch
        }),
{
}

/// As many outputs are expected of a shard as the total that the messages to it tell, and
/// none of a shard without a partition.
pub proof fn shard_answers_for_its_whole_partition<'a, T, G, L, K, F, C>(
    commands: Seq<OutboundCommand<'a, T, PartitionDependencies<G, L, K, F>, C>>,
    partitions: Seq<PartitionV3<T, G, L, K, F>>,
    num_shards: nat,
    shard_id: nat,
    onchain_config: C,
    duration_since_epoch: u64,
    num_senders: nat,
)
    requires
        partitions.len() <= num_shards,
        shard_id < num_shards,
        shard_id < partitions.len() ==> is_shard_plan(
            commands,
            task_of(shard_id, partitions[shard_id as int], onchain_config, duration_since_epoch),
            num_senders,
        ),
    ensures
        outputs_expected(partitions, num_shards).len() == num_shards,
        shard_id < partitions.len() && partitions[shard_id as int].txns@.len() <= u64::MAX
            ==> outputs_expected(partitions, num_shards)[shard_id as int]
            == commands[0].payload->MetaData_num_txns,
        shard_id >= partitions.len() ==> outputs_expected(partitions, num_shards)[shard_id as int]
            == 0,
{
    if shard_id < partitions.len() {
        assert(commands[0].opens(
            task_of(shard_id, partitions[shard_id as int], onchain_config, duration_since_epoch),
        ));
    }
}

/// The senders of all shards take up no more than half of the threads, and one more for
/// each shard would; but each shard has at least one.
pub proof fn senders_share_half_of_the_threads(num_threads: nat, num_shards: nat)
    requires
        num_shards > 0,
    ensures
        senders_per_shard(num_threads, num_shards) >= 1,
        num_threads < 2 * num_shards * (senders_per_shard(num_threads, num_shards) + 1),
        senders_per_shard(num_threads, num_shards) > 1 ==> 2 * num_shards * senders_per_shard(
            num_threads,
            num_shards,
        ) <= num_threads,
{
    let d = (2 * num_shards) as int;
    let share = num_threads as int / d;
    vstd::arithmetic::div_mod::lemma_fundamental_div_mod(num_threads as int, d);
    vstd::arithmetic::div_mod::lemma_mod_bound(num_threads as int, d);
    assert(d * (share + 1) == d * share + d) by (nonlinear_arith);
    if share < 1 {
        assert(d * (1 + 1) >= d * (share + 1)) by (nonlinear_arith)
            requires
                share < 1,
                d > 0,
        ;
    }
}

/// A client has a shard at each address, in their order, with its own channels and the
/// same number of senders as every other.
pub proof fn client_has_a_shard_at_each_address(
    client: RemoteExecutorClient,
    addresses: Seq<SocketAddress>,
    num_threads: usize,
    i: int,
    j: int,
)
    requires
        client.serves(addresses, Some(num_threads)),
        0 <= i < addresses.len(),
        0 <= j < addresses.len(),
    ensures
        client.shards().len() == addresses.len(),
        client.shards()[i].address == addresses[i],
        client.shards()[i].command_type@ == "execute_command_"@ + decimal(i as nat),
        client.shards()[i].result_type@ == "execute_result_"@ + decimal(i as nat),
        client.shards()[i].num_command_senders == client.shards()[j].num_command_senders,
        client.shards()[i].num_command_senders >= 1,
        num_threads < 2 * addresses.len() * (client.shards()[i].num_command_senders + 1),
        client.shards()[i].num_command_senders > 1 ==> 2 * addresses.len()
            * client.shards()[i].num_command_senders <= num_threads,
{
    assert(client.is_client_of(addresses, num_threads as nat));
    assert(client.shards()[i].address == addresses[i]);
    assert(client.shards()[j].address == addresses[j]);
    senders_share_half_of_the_threads(num_threads as nat, addresses.len());
}

/// Without a number of threads, a client is one that some number of threads gives.
pub proof fn client_without_a_number_of_threads_has_some(
    client: RemoteExecutorClient,
    addresses: Seq<SocketAddress>,
)
    requires
        client.serves(addresses, None),
    ensures
        exists|threads: usize| #[trigger] client.serves(addresses, Some(threads)),
{
    let threads = choose|threads: usize| #[trigger]
        client.is_client_of(addresses, threads as nat);
    assert(client.serves(addresses, Some(threads)));
}

/// Messages with commands and with results go by different types, told apart by the
/// number of the shard.
pub proof fn message_types_end_in_the_number_of_the_shard(shard_id: nat)
    ensures
        command_type(shard_id) == "execute_command_"@ + decimal(shard_id),
        result_type(shard_id) == "execute_result_"@ + decimal(shard_id),
{
}

/// A slot that is empty takes what it is set to, and one that is not stays as it is.
pub proof fn only_an_empty_slot_is_set<T>(earlier: T, value: T)
    ensures
        set_once(None, value) == Some(value),
        set_once(Some(earlier), value) == Some(earlier),
{
}

/// The addresses that are answered with are those of the first setting, all of them in
/// their order, and none before.
pub proof fn addresses_are_those_of_the_first_setting(
    before: AddressBook,
    after: AddressBook,
    addresses: Seq<SocketAddress>,
)
    requires
        after.remote() == set_once(before.remote(), addresses),
    ensures
        before.remote() is None ==> remote_or_none(before).len() == 0,
        before.remote() is None ==> remote_or_none(after) == addresses,
        before.remote() is Some ==> remote_or_none(after) == before.remote()->0,
{
}

/// The local host is 127.0.0.1, at the port in question.
pub proof fn local_host_is_the_loopback_address(address: SocketAddress, port: u16)
    ensures
        is_localhost(address, port) ==> {
            &&& address is V4
            &&& address->ip@.len() == 4
            &&& address->ip@[0] == 127
            &&& address->ip@[1] == 0
            &&& address->ip@[2] == 0
            &&& address->ip@[3] == 1
            &&& address->V4_port == port
        },
{
}

} // verus!
