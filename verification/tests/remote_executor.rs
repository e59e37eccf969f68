use aptos_execution::block_dispatch::{
    batch_command, metadata_command, plan_shard, CommandPayload, OutboundCommand,
    PartitionDependencies, PartitionV3, ShardTask,
};
use aptos_execution::output::{
    DeltaU128, TransactionAuxiliaryData, TransactionOutput, WriteSet,
};
use aptos_execution::remote_addresses::{
    get_coordinator_address, get_remote_addresses, set_coordinator_address, set_remote_addresses,
    AddressBook, SocketAddress,
};
use aptos_execution::remote_executor_client::RemoteExecutorClient;
use aptos_execution::shard_outputs::{
    are_outputs_complete, total_expected_outputs, OutputAggregator, ShardProgress, TransactionIdxAndOutput,
};
use aptos_execution::status::{ExecutionStatus, TransactionStatus};

fn address(last: u8) -> SocketAddress {
    SocketAddress::V4 { ip: [10, 0, 0, last], port: 9000 }
}

fn addresses(n: u8) -> Vec<SocketAddress> {
    (0..n).map(address).collect()
}

#[test]
fn addresses_can_be_set_once() {
    let mut book = AddressBook::new();
    assert_eq!(get_remote_addresses(&book), vec![]);
    set_remote_addresses(&mut book, addresses(2));
    set_remote_addresses(&mut book, addresses(3));
    assert_eq!(get_remote_addresses(&book), addresses(2));
}

#[test]
fn coordinator_listens_on_the_local_host_by_default() {
    let mut book = AddressBook::new();
    assert_eq!(
        get_coordinator_address(&book),
        SocketAddress::V4 { ip: [127, 0, 0, 1], port: 52200 }
    );
    set_coordinator_address(&mut book, address(1));
    set_coordinator_address(&mut book, address(2));
    assert_eq!(get_coordinator_address(&book), address(1));
}

#[test]
fn threads_are_shared_out_among_the_shards() {
    let senders = |shards: u8, threads: usize| -> Vec<usize> {
        let client = RemoteExecutorClient::with_threads(addresses(shards), threads);
        (0..client.num_shards()).map(|i| client.shard(i).num_command_senders).collect()
    };
    assert_eq!(senders(2, 16), vec![4, 4]);
    assert_eq!(senders(3, 16), vec![2, 2, 2]);
    assert_eq!(senders(4, 3), vec![1, 1, 1, 1]);
    assert_eq!(senders(1, 0), vec![1]);
    assert_eq!(senders(0, 8), Vec::<usize>::new());
}

#[test]
fn channels_are_named_by_shard() {
    let client = RemoteExecutorClient::new(addresses(12), Some(48));
    assert!(client.is_remote_executor_client());
    assert_eq!(client.num_shards(), 12);
    assert_eq!(client.shard(0).command_type, "execute_command_0");
    assert_eq!(client.shard(11).command_type, "execute_command_11");
    assert_eq!(client.shard(11).result_type, "execute_result_11");
    assert_eq!(client.shard(11).address, address(11));
    assert_eq!(client.shard(11).num_command_senders, 2);
}

#[test]
fn processors_are_the_default_number_of_threads() {
    let client = RemoteExecutorClient::new(addresses(1), None);
    let cpus = num_cpus::get();
    assert_eq!(client.shard(0).num_command_senders, if cpus / 2 >= 1 { cpus / 2 } else { 1 });
}

#[test]
fn executor_is_coordinated_over_the_network() {
    let executor = RemoteExecutorClient::create_remote_sharded_block_executor(
        address(200),
        addresses(2),
        Some(4),
    );
    assert_eq!(executor.network_controller.service, "remote-executor-coordinator");
    assert_eq!(executor.network_controller.listen_address, address(200));
    assert_eq!(executor.network_controller.timeout_ms, 5000);
    assert_eq!(executor.client, RemoteExecutorClient::new(addresses(2), Some(4)));
}

type Command<'a> = OutboundCommand<'a, u32, &'static str, u8>;

fn numbers(n: u32) -> Vec<u32> {
    (0..n).collect()
}

fn task(shard_id: usize, txns: &[u32]) -> ShardTask<'_, u32, &'static str, u8> {
    ShardTask {
        shard_id,
        txns,
        dependencies: &"dependencies",
        onchain_config: &9,
        duration_since_epoch: 1234,
    }
}

#[test]
fn partition_is_opened_by_its_metadata() {
    let txns = numbers(450);
    assert_eq!(
        metadata_command(&task(3, &txns)),
        OutboundCommand {
            payload: CommandPayload::MetaData {
                num_txns: 450,
                dependencies: &"dependencies",
                onchain_config: &9,
            },
            duration_since_epoch: 1234,
            num_txns: 0,
            message_index: 0,
            message_type: "execute_command_3".to_string(),
            sender: 0,
            priority: 0,
        }
    );
}

#[test]
fn batch_is_announced_with_its_place() {
    let txns = numbers(450);
    assert_eq!(
        batch_command(&task(3, &txns), 2, 7),
        OutboundCommand {
            payload: CommandPayload::Cmds {
                cmds: &txns[400..450],
                num_txns_total: 450,
                batch_start_index: 400,
            },
            duration_since_epoch: 1234,
            num_txns: 50,
            message_index: 3,
            message_type: "execute_command_3".to_string(),
            sender: 7,
            priority: 2,
        }
    );
}

fn batches(commands: &[Command<'_>]) -> Vec<(usize, usize)> {
    commands
        .iter()
        .filter_map(|command| match command.payload {
            CommandPayload::MetaData { .. } => None,
            CommandPayload::Cmds { cmds, batch_start_index, .. } => {
                Some((batch_start_index, cmds.len()))
            }
        })
        .collect()
}

#[test]
fn partition_is_cut_into_batches() {
    let cut = |n: u32| batches(&plan_shard(&task(0, &numbers(n)), 1));
    assert_eq!(cut(0), vec![]);
    assert_eq!(cut(1), vec![(0, 1)]);
    assert_eq!(cut(200), vec![(0, 200)]);
    assert_eq!(cut(201), vec![(0, 200), (200, 1)]);
    assert_eq!(cut(600), vec![(0, 200), (200, 200), (400, 200)]);
}

#[test]
fn messages_hold_all_transactions_in_order() {
    let txns = numbers(777);
    let commands = plan_shard(&task(0, &txns), 2);
    let mut sent = Vec::new();
    for command in &commands {
        if let CommandPayload::Cmds { cmds, .. } = command.payload {
            assert_eq!(command.num_txns as usize, cmds.len());
            sent.extend_from_slice(cmds);
        }
    }
    assert_eq!(sent, txns);
}

#[test]
fn senders_are_picked_at_random_among_all() {
    let txns = numbers(200 * 400);
    let commands = plan_shard(&task(0, &txns), 3);
    assert_eq!(commands[0].sender, 0);
    for sender in 0..3 {
        assert!(commands[1..].iter().any(|command| command.sender == sender));
    }
    assert!(commands.iter().all(|command| command.sender < 3));
}

#[test]
fn outputs_are_expected_of_each_shard_with_a_partition() {
    let client = RemoteExecutorClient::with_threads(addresses(3), 6);
    let partition = |txns: Vec<char>, global_idxs: Vec<u32>| PartitionV3 {
        txns,
        dependencies: PartitionDependencies {
            global_idxs,
            local_idx_by_global: "local",
            key_sets_by_dep: "keys",
            follower_shard_sets: "followers",
        },
    };
    let partitions = vec![
        partition(vec!['a'; 5], vec![0, 1, 2, 3, 4]),
        partition(vec!['b'; 250], (5..255).collect()),
    ];
    let plan = client.execute_block_remote(&partitions, &"config", 55);
    assert_eq!(plan.expected_outputs, vec![5, 250, 0]);
    assert_eq!(plan.commands.len(), 2);
    assert_eq!(plan.commands[0].len(), 2);
    assert_eq!(plan.commands[1].len(), 3);
    assert_eq!(
        plan.commands[1][0].payload,
        CommandPayload::MetaData {
            num_txns: 250,
            dependencies: &partitions[1].dependencies,
            onchain_config: &"config",
        }
    );
    assert_eq!(plan.commands[1][2].num_txns, 50);
    assert_eq!(plan.commands[1][2].message_type, "execute_command_1");
    assert!(plan.commands.iter().flatten().all(|command| command.duration_since_epoch == 55));
    assert_eq!(total_expected_outputs(&plan.expected_outputs), 255);
}

#[test]
fn shard_is_done_with_just_what_is_expected() {
    let mut progress = ShardProgress::new(250);
    assert!(!progress.on_message(200));
    assert!(!progress.on_message(0));
    assert!(progress.on_message(50));
    assert!(!progress.on_message(1));

    let mut progress = ShardProgress::new(0);
    assert!(progress.on_message(0));
}

fn output(gas_used: u64, delta: Option<(u128, bool)>) -> TransactionOutput {
    let mut output = TransactionOutput::new(
        WriteSet { writes: vec![] },
        vec![],
        gas_used,
        TransactionStatus::Keep(ExecutionStatus::Success),
        TransactionAuxiliaryData { detail: None },
    );
    output.total_supply_delta = delta.map(|(delta, is_positive)| DeltaU128 { delta, is_positive });
    output
}

fn item(txn_idx: u32, delta: Option<(u128, bool)>) -> TransactionIdxAndOutput {
    TransactionIdxAndOutput { txn_idx, txn_output: output(txn_idx as u64, delta) }
}

fn block() -> Vec<TransactionIdxAndOutput> {
    vec![
        item(0, Some((10, false))),
        item(1, None),
        item(2, Some((3, true))),
        item(3, Some((0, true))),
    ]
}

fn supplies(outputs: &[TransactionOutput]) -> Vec<(u64, Option<u128>)> {
    outputs.iter().map(|output| (output.gas_used, output.total_supply)).collect()
}

#[test]
fn total_supply_is_filled_in_in_order_of_the_block() {
    let client = RemoteExecutorClient::with_threads(addresses(2), 1);
    let mut items = block();
    let last = items.pop().unwrap();
    let third = items.pop().unwrap();
    let messages = vec![vec![third], vec![last], items];
    let results = client.get_streamed_output_from_shards(&vec![2, 2], messages, 100);
    assert_eq!(
        supplies(&results),
        vec![(0, Some(90)), (1, None), (2, Some(93)), (3, Some(93))]
    );
}

#[test]
fn order_of_arrival_does_not_change_the_results() {
    let client = RemoteExecutorClient::with_threads(addresses(2), 1);
    let in_order = client.get_streamed_output_from_shards(&vec![4], vec![block()], 50);
    let mut reversed = block();
    reversed.reverse();
    let one_by_one: Vec<Vec<TransactionIdxAndOutput>> =
        reversed.into_iter().map(|item| vec![item]).collect();
    let reversed = client.get_streamed_output_from_shards(&vec![1, 3], one_by_one, 50);
    assert_eq!(in_order, reversed);
}

#[test]
fn outputs_wait_for_those_before_them() {
    let mut aggregator = OutputAggregator::new(2, 7);
    aggregator.store(item(1, Some((1, true))));
    aggregator.aggregate();
    assert!(!aggregator.is_complete());
    aggregator.store(item(0, Some((2, true))));
    aggregator.aggregate();
    assert!(aggregator.is_complete());
    assert_eq!(supplies(&aggregator.into_results()), vec![(0, Some(9)), (1, Some(10))]);
}

#[test]
fn results_are_gathered_by_shard() {
    let client = RemoteExecutorClient::with_threads(addresses(3), 1);
    let gathered = client.get_output_from_shards(vec![(2, vec!["c"]), (0, vec!["a", "b"])]);
    assert_eq!(gathered, vec![vec!["a", "b"], vec![], vec!["c"]]);
    let gathered = client.get_output_from_shards(vec![(1, vec![1]), (1, vec![2])]);
    assert_eq!(gathered, vec![vec![], vec![2], vec![]]);
}

#[test]
fn delta_is_applied_up_or_down() {
    assert_eq!(DeltaU128 { delta: 5, is_positive: true }.apply_to(7), 12);
    assert_eq!(DeltaU128 { delta: 5, is_positive: false }.apply_to(7), 2);
    assert_eq!(DeltaU128 { delta: u128::MAX, is_positive: true }.apply_to(0), u128::MAX);
}

#[test]
fn outputs_that_are_no_block_are_found() {
    let messages = || vec![block()];
    assert!(are_outputs_complete(&vec![2, 2], &messages(), 10));
    assert!(!are_outputs_complete(&vec![2, 2], &messages(), 9));
    assert!(are_outputs_complete(&vec![2, 2], &messages(), u128::MAX));
    assert!(!are_outputs_complete(&vec![2, 1], &messages(), 10));
    assert!(!are_outputs_complete(&vec![2, 3], &messages(), 10));
    assert!(!are_outputs_complete(&vec![], &vec![], 10));
    assert!(!are_outputs_complete(&vec![u64::MAX, 1], &messages(), 10));
    assert!(!are_outputs_complete(&vec![2], &vec![vec![item(1, None)], vec![item(1, None)]], 10));
    assert!(!are_outputs_complete(&vec![1], &vec![vec![item(0, Some((1, true)))]], u128::MAX));
    assert!(are_outputs_complete(&vec![1], &vec![vec![item(0, None)], vec![]], u128::MAX));
}
