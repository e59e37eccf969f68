use aptos_execution::chunk_output::{
    discard_anomalies, AnalyzedTransaction, BlockExecution, BlockOutput, ChunkOutput,
    DiscardAnomaly, EpochState, EpochStateError, ExecutableTransactions, ExecutorError,
    RawChunkOutputParser, ShardedExecutor, StateCache, StateViewId, ValidatorConsensusInfo,
    ValidatorVerifier,
};
use aptos_execution::hash::{AccountAddress, HashValue};
use aptos_execution::output::{
    ContractEvent, TransactionAuxiliaryData, TransactionOutput, WriteSet,
};
use aptos_execution::parsed_output::{ParsedTransactionOutput, TransactionsWithParsedOutput};
use aptos_execution::remote_addresses::{set_remote_addresses, AddressBook, SocketAddress};
use aptos_execution::status::{ExecutionStatus, StatusCode, TransactionStatus};
use aptos_execution::transaction::{BlockEndInfo, SignatureVerifiedTransaction, Transaction};

fn txn(byte: u8) -> Transaction {
    Transaction::ValidatorTransaction(vec![byte])
}

fn output(status: TransactionStatus) -> TransactionOutput {
    TransactionOutput::new(
        WriteSet { writes: vec![] },
        vec![],
        0,
        status,
        TransactionAuxiliaryData { detail: None },
    )
}

fn keep() -> TransactionOutput {
    output(TransactionStatus::Keep(ExecutionStatus::Success))
}

fn discard() -> TransactionOutput {
    output(TransactionStatus::Discard(StatusCode::from_number(5).unwrap()))
}

fn retry() -> TransactionOutput {
    output(TransactionStatus::Retry)
}

fn reconfig() -> TransactionOutput {
    let mut output = keep();
    output.events = vec![ContractEvent::V2 { is_new_epoch_event: true, bytes: vec![1] }];
    output
}

fn validators() -> ValidatorVerifier {
    ValidatorVerifier {
        validator_infos: vec![ValidatorConsensusInfo {
            address: AccountAddress { bytes: [7; 32] },
            public_key: [8; 48],
            voting_power: 9,
        }],
    }
}

fn cache(with_set: bool, epoch: Option<u64>) -> StateCache {
    StateCache {
        validator_set: if with_set { Some(validators()) } else { None },
        configuration_epoch: epoch,
    }
}

fn block_id() -> HashValue {
    HashValue { bytes: [3; 32] }
}

const END_INFO: BlockEndInfo = BlockEndInfo {
    block_gas_limit_reached: true,
    block_output_limit_reached: false,
    block_effective_block_gas_units: 10,
    block_approx_output_size: 20,
};

fn parse(
    outputs: Vec<TransactionOutput>,
    block_end_info: Option<BlockEndInfo>,
    append: Option<HashValue>,
    state_cache: StateCache,
) -> ChunkOutput {
    let transactions = (0..outputs.len()).map(|i| txn(i as u8)).collect();
    RawChunkOutputParser { transactions, transaction_outputs: outputs, state_cache, block_end_info }
        .parse(append)
        .unwrap()
}

fn transactions(list: &TransactionsWithParsedOutput) -> Vec<&Transaction> {
    (0..list.len()).map(|i| list.transaction(i)).collect()
}

#[test]
fn chunk_is_sorted_by_status() {
    let chunk =
        parse(vec![keep(), discard(), keep(), discard(), keep()], None, None, cache(false, None));
    assert_eq!(transactions(&chunk.to_commit), vec![&txn(0), &txn(2), &txn(4)]);
    assert_eq!(transactions(&chunk.to_discard), vec![&txn(1), &txn(3)]);
    assert!(chunk.to_retry.is_empty());
    assert_eq!(chunk.statuses_for_input_txns.len(), 5);
    assert_eq!(chunk.statuses_for_input_txns[1], discard().status);
    assert_eq!(chunk.statuses_for_input_txns[4], keep().status);
    assert_eq!(chunk.next_epoch_state, None);
    assert_eq!(chunk.block_end_info, None);
}

#[test]
fn all_behind_the_first_retry_is_tried_again() {
    let chunk = parse(vec![keep(), retry(), keep(), discard()], None, None, cache(false, None));
    assert_eq!(transactions(&chunk.to_commit), vec![&txn(0)]);
    assert_eq!(transactions(&chunk.to_retry), vec![&txn(1), &txn(2), &txn(3)]);
    assert!(chunk.to_discard.is_empty());
    assert_eq!(
        chunk.statuses_for_input_txns,
        vec![
            keep().status,
            TransactionStatus::Retry,
            TransactionStatus::Retry,
            TransactionStatus::Retry
        ]
    );
    assert_eq!(chunk.to_retry.parsed_output(1).get_output(), &keep());
}

#[test]
fn all_behind_the_end_of_an_epoch_is_tried_again() {
    let chunk =
        parse(vec![keep(), reconfig(), keep(), reconfig()], None, None, cache(true, Some(5)));
    assert_eq!(transactions(&chunk.to_commit), vec![&txn(0), &txn(1)]);
    assert_eq!(transactions(&chunk.to_retry), vec![&txn(2), &txn(3)]);
    assert_eq!(chunk.next_epoch_state, Some(EpochState { epoch: 5, verifier: validators() }));
}

#[test]
fn retry_before_the_end_of_an_epoch_comes_first() {
    let chunk =
        parse(vec![keep(), retry(), reconfig(), keep()], None, None, cache(true, Some(5)));
    assert_eq!(transactions(&chunk.to_commit), vec![&txn(0)]);
    assert_eq!(transactions(&chunk.to_retry), vec![&txn(1), &txn(2), &txn(3)]);
    assert!(chunk.to_discard.is_empty());
    assert_eq!(chunk.next_epoch_state, None);
    assert_eq!(
        chunk.statuses_for_input_txns,
        vec![
            keep().status,
            TransactionStatus::Retry,
            TransactionStatus::Retry,
            TransactionStatus::Retry
        ]
    );
}

#[test]
fn end_of_an_epoch_before_a_retry_comes_first() {
    let chunk =
        parse(vec![keep(), reconfig(), keep(), retry()], None, None, cache(true, Some(5)));
    assert_eq!(transactions(&chunk.to_commit), vec![&txn(0), &txn(1)]);
    assert_eq!(transactions(&chunk.to_retry), vec![&txn(2), &txn(3)]);
    assert!(chunk.next_epoch_state.is_some());
}

#[test]
fn end_of_an_epoch_that_is_tried_again_ends_none() {
    let mut ends = reconfig();
    ends.status = TransactionStatus::Retry;
    let chunk = parse(vec![keep(), ends, keep()], None, Some(block_id()), cache(true, Some(5)));
    assert_eq!(
        transactions(&chunk.to_commit),
        vec![&txn(0), &Transaction::StateCheckpoint(block_id())]
    );
    assert_eq!(transactions(&chunk.to_retry), vec![&txn(1), &txn(2)]);
    assert!(chunk.to_discard.is_empty());
}

fn parsed(outputs: Vec<TransactionOutput>) -> (Vec<Transaction>, Vec<ParsedTransactionOutput>) {
    let transactions = (0..outputs.len()).map(|i| txn(i as u8)).collect();
    (transactions, outputs.into_iter().map(ParsedTransactionOutput::parse).collect())
}

#[test]
fn second_search_for_retries_finds_nothing() {
    let (mut txns, mut outputs) = parsed(vec![keep(), discard(), retry(), reconfig(), keep()]);
    let to_retry = RawChunkOutputParser::extract_retries(&mut txns, &mut outputs);
    assert_eq!(to_retry.len(), 3);
    assert_eq!(txns, vec![txn(0), txn(1)]);
    assert!(RawChunkOutputParser::extract_retries(&mut txns, &mut outputs).is_empty());
    assert_eq!(txns, vec![txn(0), txn(1)]);
}

#[test]
fn second_search_for_discards_finds_nothing() {
    let (mut txns, mut outputs) = parsed(vec![discard(), keep(), discard(), keep()]);
    let to_discard = RawChunkOutputParser::extract_discards(&mut txns, &mut outputs);
    assert_eq!(transactions(&to_discard), vec![&txn(0), &txn(2)]);
    assert_eq!(txns, vec![txn(1), txn(3)]);
    assert!(RawChunkOutputParser::extract_discards(&mut txns, &mut outputs).is_empty());
    assert_eq!(txns, vec![txn(1), txn(3)]);
    assert_eq!(outputs.len(), 2);
}

#[test]
fn closing_a_block_leaves_the_rest_as_it_is() {
    let outputs = || vec![keep(), discard(), keep(), retry()];
    let open = parse(outputs(), None, None, cache(false, None));
    let closed = parse(outputs(), None, Some(block_id()), cache(false, None));
    assert_eq!(open.statuses_for_input_txns, closed.statuses_for_input_txns);
    assert_eq!(open.to_discard, closed.to_discard);
    assert_eq!(open.to_retry, closed.to_retry);
    assert_eq!(open.next_epoch_state, closed.next_epoch_state);
    assert_eq!(closed.to_commit.len(), open.to_commit.len() + 1);
}

#[test]
fn block_is_closed_with_a_state_checkpoint() {
    let chunk = parse(vec![keep()], None, Some(block_id()), cache(false, None));
    assert_eq!(
        transactions(&chunk.to_commit),
        vec![&txn(0), &Transaction::StateCheckpoint(block_id())]
    );
    assert_eq!(chunk.to_commit.parsed_output(1).get_output(), &TransactionOutput::empty_success());
    assert_eq!(chunk.statuses_for_input_txns.len(), 1);
}

#[test]
fn block_is_closed_with_an_epilogue_where_its_end_is_known() {
    let chunk = parse(vec![], Some(END_INFO), Some(block_id()), cache(false, None));
    assert_eq!(
        transactions(&chunk.to_commit),
        vec![&Transaction::BlockEpilogue { block_id: block_id(), block_end_info: END_INFO }]
    );
    assert_eq!(chunk.block_end_info, Some(END_INFO));
}

#[test]
fn block_that_ends_an_epoch_is_not_closed() {
    let chunk =
        parse(vec![keep(), reconfig()], Some(END_INFO), Some(block_id()), cache(true, Some(2)));
    assert_eq!(transactions(&chunk.to_commit), vec![&txn(0), &txn(1)]);
}

#[test]
fn discarded_end_of_an_epoch_ends_none() {
    let mut ends = reconfig();
    ends.status = discard().status;
    let chunk = parse(vec![keep(), ends, keep()], None, Some(block_id()), cache(true, Some(2)));
    assert_eq!(
        transactions(&chunk.to_commit),
        vec![&txn(0), &Transaction::StateCheckpoint(block_id())]
    );
    assert_eq!(transactions(&chunk.to_retry), vec![&txn(2)]);
    assert_eq!(chunk.next_epoch_state, None);
    assert_eq!(
        discard_anomalies(&chunk.to_discard),
        vec![DiscardAnomaly::UnexpectedOutput { index: 0 }]
    );
}

#[test]
fn next_epoch_is_left_out_where_the_state_has_none() {
    let chunk = parse(vec![reconfig()], None, None, cache(false, Some(2)));
    assert_eq!(chunk.next_epoch_state, None);
    let chunk = parse(vec![reconfig()], None, None, cache(true, None));
    assert_eq!(chunk.next_epoch_state, None);
}

#[test]
fn epoch_state_errors_name_what_is_missing() {
    assert_eq!(
        RawChunkOutputParser::get_epoch_state(&cache(false, None)),
        Err(EpochStateError::ValidatorSetNotTouched)
    );
    assert_eq!(
        RawChunkOutputParser::get_epoch_state(&cache(true, None)),
        Err(EpochStateError::ConfigurationNotTouched)
    );
    assert_eq!(
        RawChunkOutputParser::get_epoch_state(&cache(true, Some(4))),
        Ok(EpochState { epoch: 4, verifier: validators() })
    );
    assert_eq!(
        EpochStateError::ValidatorSetNotTouched.message(),
        "ValidatorSet not touched on epoch change"
    );
    assert_eq!(
        EpochStateError::ConfigurationNotTouched.message(),
        "Configuration resource not touched on epoch change"
    );
}

#[test]
fn clean_discards_have_no_anomalies() {
    let mut list = TransactionsWithParsedOutput::new_empty();
    list.push(txn(1), ParsedTransactionOutput::parse(discard()));
    assert_eq!(discard_anomalies(&list), vec![]);
    let mut writes = keep();
    writes.write_set = WriteSet { writes: vec![(vec![1], vec![2])] };
    list.push(txn(2), ParsedTransactionOutput::parse(writes));
    assert_eq!(
        discard_anomalies(&list),
        vec![
            DiscardAnomaly::UnexpectedStatus { index: 1 },
            DiscardAnomaly::UnexpectedOutput { index: 1 }
        ]
    );
}

#[test]
fn executed_block_is_parsed_with_its_end() {
    let txns = vec![
        SignatureVerifiedTransaction::Valid(txn(0)),
        SignatureVerifiedTransaction::Invalid(txn(1)),
    ];
    let executed =
        Ok(BlockOutput { transaction_outputs: vec![keep(), discard()], block_end_info: Some(END_INFO) });
    let chunk = ChunkOutput::by_transaction_execution(
        ExecutableTransactions::Unsharded(txns),
        executed,
        cache(false, None),
        Some(block_id()),
    )
    .unwrap();
    assert_eq!(
        transactions(&chunk.to_commit),
        vec![
            &txn(0),
            &Transaction::BlockEpilogue { block_id: block_id(), block_end_info: END_INFO }
        ]
    );
    assert_eq!(transactions(&chunk.to_discard), vec![&txn(1)]);
}

#[test]
fn sharded_block_has_no_end_info() {
    let txns = vec![AnalyzedTransaction { transaction: SignatureVerifiedTransaction::Valid(txn(0)) }];
    let executed =
        Ok(BlockOutput { transaction_outputs: vec![keep()], block_end_info: Some(END_INFO) });
    let chunk = ChunkOutput::by_transaction_execution(
        ExecutableTransactions::Sharded(txns),
        executed,
        cache(false, None),
        Some(block_id()),
    )
    .unwrap();
    assert_eq!(chunk.block_end_info, None);
    assert_eq!(
        transactions(&chunk.to_commit),
        vec![&txn(0), &Transaction::StateCheckpoint(block_id())]
    );
}

#[test]
fn failed_execution_is_passed_on() {
    let failure = || ExecutorError { message: "no".to_string() };
    assert_eq!(
        ChunkOutput::by_transaction_execution(
            ExecutableTransactions::Unsharded(vec![]),
            Err(failure()),
            cache(false, None),
            None,
        ),
        Err(failure())
    );
    assert_eq!(
        ChunkOutput::by_transaction_execution(
            ExecutableTransactions::Sharded(vec![]),
            Err(failure()),
            cache(false, None),
            None,
        ),
        Err(failure())
    );
}

#[test]
fn known_outputs_are_counted_and_parsed() {
    let processed = ChunkOutput::by_transaction_output(
        vec![(txn(0), keep()), (txn(1), discard())],
        &[],
        Ok(cache(false, None)),
        false,
    );
    let chunk = processed.chunk.unwrap();
    assert_eq!(transactions(&chunk.to_commit), vec![&txn(0)]);
    assert_eq!(transactions(&chunk.to_discard), vec![&txn(1)]);
    assert!(!processed.counter_actions.is_empty());
}

#[test]
fn state_that_cannot_be_fetched_is_an_error_after_the_counters() {
    let failure = || ExecutorError { message: "no state".to_string() };
    let processed =
        ChunkOutput::by_transaction_output(vec![(txn(0), keep())], &[], Err(failure()), false);
    assert_eq!(processed.chunk, Err(failure()));
    assert_eq!(processed.counter_actions.len(), 1);
}

#[test]
fn remote_executor_is_chosen_where_there_are_addresses() {
    let mut book = AddressBook::new();
    assert_eq!(ChunkOutput::execute_block_sharded(&book), ShardedExecutor::Local);
    set_remote_addresses(&mut book, vec![SocketAddress::V4 { ip: [10, 0, 0, 1], port: 1 }]);
    assert_eq!(ChunkOutput::execute_block_sharded(&book), ShardedExecutor::Remote);

    let mut book = AddressBook::new();
    set_remote_addresses(&mut book, vec![]);
    assert_eq!(ChunkOutput::execute_block_sharded(&book), ShardedExecutor::Local);
}

#[test]
fn vm_is_skipped_only_to_test_consensus_beyond_genesis() {
    let txns = [
        SignatureVerifiedTransaction::Valid(txn(0)),
        SignatureVerifiedTransaction::Valid(txn(1)),
    ];
    let block = StateViewId::BlockExecution { block_id: block_id() };
    assert_eq!(ChunkOutput::execute_block(false, block, &txns), BlockExecution::RunVm);
    assert_eq!(
        ChunkOutput::execute_block(true, StateViewId::Miscellaneous, &txns),
        BlockExecution::RunVm
    );
    assert_eq!(
        ChunkOutput::execute_block(true, block, &txns),
        BlockExecution::Skip(BlockOutput {
            transaction_outputs: vec![
                TransactionOutput::empty_success(),
                TransactionOutput::empty_success()
            ],
            block_end_info: None,
        })
    );
}
