//! Sorting the outputs of a chunk of transactions: what is committed, what is
//! discarded and what is tried again.

use crate::chunk_counters::{
    action_views, can_be_detailed, chunk_actions, outputs_of, transactions_of,
    update_counters_for_processed_chunk, CounterAction,
};
use crate::chunk_laws::retries_start_where_they_have_to;
use crate::hash::{AccountAddress, HashValue};
use crate::output::TransactionOutput;
use crate::parsed_output::{
    ends_epoch, raw_outputs, ParsedTransactionOutput, TransactionAndOutput,
    TransactionsWithParsedOutput,
};
use crate::remote_addresses::{get_remote_addresses, remote_or_none, AddressBook};
use crate::sequence::{
    first_where, is_first_where, lemma_first_where_is, paired, take_reversed,
};
use crate::status::TransactionStatus;
use crate::transaction::{BlockEndInfo, SignatureVerifiedTransaction, Transaction};
use vstd::prelude::*;

verus! {

/// A validator as the verifier of an epoch knows it.
#[derive(Clone, Copy, Debug, PartialEq, Eq)]
pub struct ValidatorConsensusInfo {
    pub address: AccountAddress,
    pub public_key: [u8; 48],
    pub voting_power: u64,
}

/// The validators whose votes count in an epoch.
#[derive(Debug, PartialEq, Eq)]
pub struct ValidatorVerifier {
    pub validator_infos: Vec<ValidatorConsensusInfo>,
}

/// An epoch and its validators.
#[derive(Debug, PartialEq, Eq)]
pub struct EpochState {
    pub epoch: u64,
    pub verifier: ValidatorVerifier,
}

/// What the state that a chunk touched holds of the on-chain configuration.
#[derive(Debug, PartialEq, Eq)]
pub struct StateCache {
    /// The validators of the on-chain validator set, if it was touched.
    pub validator_set: Option<ValidatorVerifier>,
    /// The epoch of the on-chain configuration resource, if it was touched.
    pub configuration_epoch: Option<u64>,
}

/// Why a chunk could not be executed.
#[derive(Debug, PartialEq, Eq)]
pub struct ExecutorError {
    pub message: String,
}

/// Why there is no new epoch.
#[derive(Clone, Copy, Debug, PartialEq, Eq)]
pub enum EpochStateError {
    /// The validator set was not touched on epoch change.
    ValidatorSetNotTouched,
    /// The configuration resource was not touched on epoch change.
    ConfigurationNotTouched,
}

impl EpochStateError {
    /// The error in words.
    pub fn message(&self) -> (message: &'static str)
        ensures
            message@ == match self {
                EpochStateError::ValidatorSetNotTouched => {
                    "ValidatorSet not touched on epoch change"@
                },
                EpochStateError::ConfigurationNotTouched => {
                    "Configuration resource not touched on epoch change"@
                },
            },
    {
        match self {
            EpochStateError::ValidatorSetNotTouched => "ValidatorSet not touched on epoch change",
            EpochStateError::ConfigurationNotTouched => {
                "Configuration resource not touched on epoch change"
            },
        }
    }
}

/// Whether `state` is the epoch state that `cache` holds.
pub open spec fn is_epoch_state_of(state: EpochState, cache: StateCache) -> bool {
    &&& cache.configuration_epoch == Some(state.epoch)
    &&& cache.validator_set matches Some(verifier) && state.verifier.validator_infos@
        == verifier.validator_infos@
}

/// The place from which on the transactions of a chunk are tried again: right
/// behind the first one that ends an epoch, or at the first one that the VM wants
/// tried again, whichever comes first.
pub open spec fn retry_start(outputs: Seq<TransactionOutput>) -> int {
    let retry = match first_where(outputs, |o: TransactionOutput| o.status is Retry) {
        Some(i) => i,
        None => outputs.len() as int,
    };
    match first_where(outputs, |o: TransactionOutput| o.reconfig()) {
        Some(i) if i + 1 <= retry => i + 1,
        _ => retry,
    }
}

/// The transactions of `pairs` that stay out of the ledger.
pub open spec fn discarded(pairs: Seq<TransactionAndOutput>) -> Seq<TransactionAndOutput> {
    pairs.filter(|p: TransactionAndOutput| p.1.status.discarded())
}

/// The transactions of `pairs` that go to the ledger.
pub open spec fn kept(pairs: Seq<TransactionAndOutput>) -> Seq<TransactionAndOutput> {
    pairs.filter(|p: TransactionAndOutput| !p.1.status.discarded())
}

/// The transaction that closes the block of `committed`, if one does: none closes
/// a block that ends its epoch, nor one that is not asked for.
pub open spec fn block_epilogue(
    committed: Seq<TransactionAndOutput>,
    block_end_info: Option<BlockEndInfo>,
    append_state_checkpoint_to_block: Option<HashValue>,
) -> Option<Transaction> {
    match append_state_checkpoint_to_block {
        Some(block_id) if !ends_epoch(committed) => Some(
            match block_end_info {
                Some(block_end_info) => Transaction::BlockEpilogue { block_id, block_end_info },
                None => Transaction::StateCheckpoint(block_id),
            },
        ),
        _ => None,
    }
}

/// Whether `closed` is `committed` followed by the transaction `epilogue`, if any,
/// with the output of a transaction that has no effect.
pub open spec fn is_closed_with(
    closed: Seq<TransactionAndOutput>,
    committed: Seq<TransactionAndOutput>,
    epilogue: Option<Transaction>,
) -> bool {
    match epilogue {
        Some(txn) => {
            &&& closed.len() == committed.len() + 1
            &&& closed.drop_last() == committed
            &&& closed.last().0 == txn
            &&& closed.last().1.is_empty_success()
        },
        None => closed == committed,
    }
}

/// Something that is wrong with a discarded transaction.
#[derive(Clone, Copy, Debug, PartialEq, Eq, Structural)]
pub enum DiscardAnomaly {
    /// The status of the transaction is none with which one is discarded.
    UnexpectedStatus { index: usize },
    /// The VM put out writes or events for the transaction.
    UnexpectedOutput { index: usize },
}

/// What is wrong with the discarded transaction at place `index`.
pub open spec fn anomalies_of(pair: TransactionAndOutput, index: usize) -> Seq<DiscardAnomaly> {
    let status = if pair.1.status is Discard {
        Seq::empty()
    } else {
        seq![DiscardAnomaly::UnexpectedStatus { index }]
    };
    let output = if pair.1.write_set.writes@.len() == 0 && pair.1.events@.len() == 0 {
        Seq::empty()
    } else {
        seq![DiscardAnomaly::UnexpectedOutput { index }]
    };
    status + output
}

/// What is wrong with the discarded transactions `pairs`, in their order.
pub open spec fn all_anomalies(pairs: Seq<TransactionAndOutput>) -> Seq<DiscardAnomaly>
    decreases pairs.len(),
{
    if pairs.len() == 0 {
        Seq::empty()
    } else {
        all_anomalies(pairs.drop_last()) + anomalies_of(
            pairs.last(),
            (pairs.len() - 1) as usize,
        )
    }
}

/// The outputs of a chunk as they come from the VM.
#[derive(Debug, PartialEq, Eq)]
pub struct RawChunkOutputParser {
    /// Input transactions.
    pub transactions: Vec<Transaction>,
    /// Raw VM output.
    pub transaction_outputs: Vec<TransactionOutput>,
    /// The state that was touched during the execution.
    pub state_cache: StateCache,
    /// How the block ended, as far as the VM says so.
    pub block_end_info: Option<BlockEndInfo>,
}

/// A chunk of transactions, sorted by what becomes of them.
#[derive(Debug, PartialEq, Eq)]
pub struct ChunkOutput {
    /// The statuses of the input transactions, in the order of the input. The
    /// transaction that closes the block is no input.
    pub statuses_for_input_txns: Vec<TransactionStatus>,
    /// The transactions to be committed, the one that closes the block among them.
    pub to_commit: TransactionsWithParsedOutput,
    /// The transactions to be discarded.
    pub to_discard: TransactionsWithParsedOutput,
    /// The transactions to be tried again.
    pub to_retry: TransactionsWithParsedOutput,
    /// The state that was touched during the execution.
    pub state_cache: StateCache,
    /// How the block ended, as far as the VM says so.
    pub block_end_info: Option<BlockEndInfo>,
    /// The next epoch, if the chunk ends one.
    pub next_epoch_state: Option<EpochState>,
}

impl ChunkOutput {
    /// Whether the chunk is what becomes of `transactions` with `outputs`.
    pub open spec fn is_parse_of(
        self,
        transactions: Seq<Transaction>,
        outputs: Seq<TransactionOutput>,
        state_cache: StateCache,
        block_end_info: Option<BlockEndInfo>,
        append_state_checkpoint_to_block: Option<HashValue>,
    ) -> bool {
        let start = retry_start(outputs);
        let done = paired(transactions, outputs).take(start);
        &&& self.statuses_for_input_txns@ == Seq::new(
            outputs.len(),
            |i: int|
                if i < start {
                    outputs[i].status
                } else {
                    TransactionStatus::Retry
                },
        )
        &&& self.to_retry@ == paired(transactions, outputs).skip(start)
        &&& self.to_discard@ == discarded(done)
        &&& is_closed_with(
            self.to_commit@,
            kept(done),
            block_epilogue(kept(done), block_end_info, append_state_checkpoint_to_block),
        )
        &&& self.state_cache == state_cache
        &&& self.block_end_info == block_end_info
        &&& match self.next_epoch_state {
            Some(state) => ends_epoch(self.to_commit@) && is_epoch_state_of(state, state_cache),
            None => {
                ||| !ends_epoch(self.to_commit@)
                ||| state_cache.validator_set is None
                ||| state_cache.configuration_epoch is None
            },
        }
    }
}

/// The place of the first output that ends an epoch.
fn first_reconfig(outputs: &Vec<ParsedTransactionOutput>) -> (place: Option<usize>)
    ensures
        match place {
            Some(i) => first_where(
                raw_outputs(outputs@),
                |o: TransactionOutput| o.reconfig(),
            ) == Some(i as int) && i < outputs@.len(),
            None => first_where(
                raw_outputs(outputs@),
                |o: TransactionOutput| o.reconfig(),
            ) is None,
        },
{
    let ghost raw = raw_outputs(outputs@);
    let ghost pred = |o: TransactionOutput| o.reconfig();
    for i in 0..outputs.len()
        invariant
            raw == raw_outputs(outputs@),
            pred == (|o: TransactionOutput| o.reconfig()),
            forall|j: int| 0 <= j < i ==> !pred(#[trigger] raw[j]),
    {
        if outputs[i].is_reconfig() {
            proof {
                assert(raw[i as int] == outputs@[i as int].output());
                lemma_first_where_is(raw, pred, i as int);
            }
            return Some(i);
        }
        assert(raw[i as int] == outputs@[i as int].output());
    }
    assert forall|j: int| !is_first_where(raw, pred, j) by {
        if 0 <= j < raw.len() {
            assert(!pred(raw[j]));
        }
    }
    None
}

/// The place of the first output that the VM wants tried again.
fn first_retry(outputs: &Vec<ParsedTransactionOutput>) -> (place: Option<usize>)
    ensures
        match place {
            Some(i) => first_where(
                raw_outputs(outputs@),
                |o: TransactionOutput| o.status is Retry,
            ) == Some(i as int) && i < outputs@.len(),
            None => first_where(
                raw_outputs(outputs@),
                |o: TransactionOutput| o.status is Retry,
            ) is None,
        },
{
    let ghost raw = raw_outputs(outputs@);
    let ghost pred = |o: TransactionOutput| o.status is Retry;
    for i in 0..outputs.len()
        invariant
            raw == raw_outputs(outputs@),
            pred == (|o: TransactionOutput| o.status is Retry),
            forall|j: int| 0 <= j < i ==> !pred(#[trigger] raw[j]),
    {
        assert(raw[i as int] == outputs@[i as int].output());
        if outputs[i].status().is_retry() {
            proof {
                lemma_first_where_is(raw, pred, i as int);
            }
            return Some(i);
        }
    }
    assert forall|j: int| !is_first_where(raw, pred, j) by {
        if 0 <= j < raw.len() {
            assert(!pred(raw[j]));
        }
    }
    None
}

impl RawChunkOutputParser {
    /// Takes the transactions that are to be tried again off the end of the chunk.
    pub fn extract_retries(
        transactions: &mut Vec<Transaction>,
        transaction_outputs: &mut Vec<ParsedTransactionOutput>,
    ) -> (to_retry: TransactionsWithParsedOutput)
        requires
            old(transactions)@.len() == old(transaction_outputs)@.len(),
        ensures
            ({
                let outputs = raw_outputs(old(transaction_outputs)@);
                let start = retry_start(outputs);
                &&& 0 <= start <= outputs.len()
                &&& final(transactions)@ == old(transactions)@.take(start)
                &&& final(transaction_outputs)@ == old(transaction_outputs)@.take(start)
                &&& to_retry@ == paired(old(transactions)@, outputs).skip(start)
            }),
            forall|i: int|
                0 <= i < final(transaction_outputs)@.len() ==> !((
                #[trigger] final(transaction_outputs)@[i]).output().status is Retry),
    {
        let ghost txns = transactions@;
        let ghost outputs = transaction_outputs@;
        let len = transactions.len();
        let new_epoch_marker = first_reconfig(transaction_outputs);
        let block_gas_limit_marker = first_retry(transaction_outputs);
        let retry = match block_gas_limit_marker {
            Some(place) => place,
            None => len,
        };
        let start = match new_epoch_marker {
            Some(place) if place < retry => place + 1,
            _ => retry,
        };
        let retried_transactions = transactions.split_off(start);
        let retried_outputs = transaction_outputs.split_off(start);
        assert(transactions@ =~= txns.take(start as int));
        assert(transaction_outputs@ =~= outputs.take(start as int));
        proof {
            retries_start_where_they_have_to(raw_outputs(outputs));
            assert forall|i: int| 0 <= i < transaction_outputs@.len() implies !((
            #[trigger] transaction_outputs@[i]).output().status is Retry) by {
                assert(raw_outputs(outputs)[i] == transaction_outputs@[i].output());
            }
        }
        assert(paired(retried_transactions@, raw_outputs(retried_outputs@)) =~= paired(
            txns,
            raw_outputs(outputs),
        ).skip(start as int));
        TransactionsWithParsedOutput::new(retried_transactions, retried_outputs)
    }

    /// Takes the transactions that are to be discarded out of the chunk, and closes
    /// the gaps.
    pub fn extract_discards(
        transactions: &mut Vec<Transaction>,
        transaction_outputs: &mut Vec<ParsedTransactionOutput>,
    ) -> (to_discard: TransactionsWithParsedOutput)
        requires
            old(transactions)@.len() == old(transaction_outputs)@.len(),
        ensures
            ({
                let pairs = paired(old(transactions)@, raw_outputs(old(transaction_outputs)@));
                &&& final(transactions)@.len() == final(transaction_outputs)@.len()
                &&& paired(final(transactions)@, raw_outputs(final(transaction_outputs)@)) == kept(
                    pairs,
                )
                &&& to_discard@ == discarded(pairs)
            }),
    {
        let ghost txns = transactions@;
        let ghost outputs = transaction_outputs@;
        let ghost pairs = paired(txns, raw_outputs(outputs));
        let mut to_discard = TransactionsWithParsedOutput::new_empty();
        let mut pending_transactions = take_reversed(transactions);
        let mut pending_outputs = take_reversed(transaction_outputs);
        let ghost mut done: int = 0;
        assert(pairs.take(0) =~= Seq::<TransactionAndOutput>::empty());
        assert(kept(pairs.take(0)) =~= Seq::<TransactionAndOutput>::empty());
        assert(discarded(pairs.take(0)) =~= Seq::<TransactionAndOutput>::empty());
        while pending_transactions.len() > 0
            invariant
                txns.len() == outputs.len(),
                pairs == paired(txns, raw_outputs(outputs)),
                0 <= done <= txns.len(),
                pending_transactions@ == txns.skip(done).reverse(),
                pending_outputs@ == outputs.skip(done).reverse(),
                transactions@.len() == transaction_outputs@.len(),
                paired(transactions@, raw_outputs(transaction_outputs@)) == kept(pairs.take(done)),
                to_discard@ == discarded(pairs.take(done)),
            decreases pending_transactions@.len(),
        {
            let ghost before = paired(transactions@, raw_outputs(transaction_outputs@));
            let transaction = pending_transactions.pop().unwrap();
            let output = pending_outputs.pop().unwrap();
            proof {
                assert(transaction == txns[done]);
                assert(output == outputs[done]);
                assert(pending_transactions@ =~= txns.skip(done + 1).reverse());
                assert(pending_outputs@ =~= outputs.skip(done + 1).reverse());
                let upto = pairs.take(done + 1);
                assert(upto.drop_last() =~= pairs.take(done));
                assert(upto.last() == (transaction, output.output()));
                reveal_with_fuel(Seq::filter, 2);
            }
            if output.status().is_discarded() {
                to_discard.push(transaction, output);
            } else {
                let ghost pair = (transaction, output.output());
                transactions.push(transaction);
                transaction_outputs.push(output);
                assert(paired(transactions@, raw_outputs(transaction_outputs@)) =~= before.push(
                    pair,
                ));
            }
            proof {
                done = done + 1;
            }
        }
        assert(pairs.take(done) =~= pairs);
        to_discard
    }

    /// Adds the transaction that closes the block, unless the block ends its epoch
    /// or none is asked for.
    pub fn maybe_add_block_epilogue(
        to_commit: TransactionsWithParsedOutput,
        block_end_info: Option<&BlockEndInfo>,
        append_state_checkpoint_to_block: Option<HashValue>,
    ) -> (closed: TransactionsWithParsedOutput)
        ensures
            is_closed_with(
                closed@,
                to_commit@,
                block_epilogue(
                    to_commit@,
                    match block_end_info {
                        Some(info) => Some(*info),
                        None => None,
                    },
                    append_state_checkpoint_to_block,
                ),
            ),
    {
        let mut closed = to_commit;
        if !closed.ends_epoch() {
            if let Some(block_id) = append_state_checkpoint_to_block {
                let state_checkpoint_txn = match block_end_info {
                    Some(block_end_info) => Transaction::BlockEpilogue {
                        block_id,
                        block_end_info: *block_end_info,
                    },
                    None => Transaction::StateCheckpoint(block_id),
                };
                let output = ParsedTransactionOutput::parse(TransactionOutput::empty_success());
                closed.push(state_checkpoint_txn, output);
                assert(closed@.drop_last() =~= to_commit@);
            }
        }
        closed
    }

    /// The epoch that starts after the chunk, as the touched state has it.
    pub fn get_epoch_state(state_cache: &StateCache) -> (state: Result<EpochState, EpochStateError>)
        ensures
            match state {
                Ok(state) => is_epoch_state_of(state, *state_cache),
                Err(EpochStateError::ValidatorSetNotTouched) => state_cache.validator_set is None,
                Err(EpochStateError::ConfigurationNotTouched) => {
                    &&& state_cache.validator_set is Some
                    &&& state_cache.configuration_epoch is None
                },
            },
    {
        match &state_cache.validator_set {
            None => Err(EpochStateError::ValidatorSetNotTouched),
            Some(verifier) => match state_cache.configuration_epoch {
                None => Err(EpochStateError::ConfigurationNotTouched),
                Some(epoch) => {
                    let validator_infos = verifier.validator_infos.clone();
                    assert(validator_infos@ =~= verifier.validator_infos@);
                    Ok(EpochState { epoch, verifier: ValidatorVerifier { validator_infos } })
                },
            },
        }
    }

    /// Sorts the chunk, and closes its block where that is asked for.
    pub fn parse(self, append_state_checkpoint_to_block: Option<HashValue>) -> (chunk: Result<
        ChunkOutput,
        ExecutorError,
    >)
        requires
            self.transactions@.len() == self.transaction_outputs@.len(),
        ensures
            chunk matches Ok(chunk) && chunk.is_parse_of(
                self.transactions@,
                self.transaction_outputs@,
                self.state_cache,
                self.block_end_info,
                append_state_checkpoint_to_block,
            ),
    {
        let RawChunkOutputParser { transactions, transaction_outputs, state_cache, block_end_info } =
            self;
        let ghost txns = transactions@;
        let ghost outputs = transaction_outputs@;
        let mut transactions = transactions;

        // Parse all outputs.
        let mut parsed_outputs: Vec<ParsedTransactionOutput> = Vec::new();
        for output in it: transaction_outputs
            invariant
                outputs == it.seq(),
                raw_outputs(parsed_outputs@) == outputs.take(it.index()),
        {
            let ghost before = parsed_outputs@;
            parsed_outputs.push(ParsedTransactionOutput::parse(output));
            assert(raw_outputs(parsed_outputs@) =~= raw_outputs(before).push(output));
            assert(outputs.take(it.index() + 1) =~= outputs.take(it.index()).push(output));
        }
        assert(outputs.take(outputs.len() as int) =~= outputs);

        // Isolate retries.
        let to_retry = Self::extract_retries(&mut transactions, &mut parsed_outputs);
        let ghost start = retry_start(outputs);

        // Collect all statuses.
        let mut statuses_for_input_txns: Vec<TransactionStatus> = Vec::new();
        for i in 0..parsed_outputs.len()
            invariant
                statuses_for_input_txns@.len() == i,
                forall|j: int|
                    0 <= j < i ==> #[trigger] statuses_for_input_txns@[j]
                        == parsed_outputs@[j].output().status,
        {
            statuses_for_input_txns.push(parsed_outputs[i].status().clone());
        }
        let num_retries = to_retry.len();
        for i in 0..num_retries
            invariant
                0 <= start,
                statuses_for_input_txns@.len() == start + i,
                parsed_outputs@.len() == start,
                forall|j: int|
                    0 <= j < start ==> #[trigger] statuses_for_input_txns@[j]
                        == parsed_outputs@[j].output().status,
                forall|j: int|
                    start <= j < start + i ==> #[trigger] statuses_for_input_txns@[j] is Retry,
        {
            // The VM may have put out something else.
            statuses_for_input_txns.push(TransactionStatus::Retry);
        }

        // Isolate discards.
        let ghost parsed_before_discards = parsed_outputs@;
        let to_discard = Self::extract_discards(&mut transactions, &mut parsed_outputs);

        proof {
            let done = paired(txns, outputs).take(start);
            assert(raw_outputs(parsed_before_discards) =~= outputs.take(start));
            assert(paired(txns.take(start), outputs.take(start)) =~= done);
        }

        // The rest is to be committed.
        let to_commit = TransactionsWithParsedOutput::new(transactions, parsed_outputs);
        let to_commit = Self::maybe_add_block_epilogue(
            to_commit,
            block_end_info.as_ref(),
            append_state_checkpoint_to_block,
        );
        let next_epoch_state = if to_commit.ends_epoch() {
            match Self::get_epoch_state(&state_cache) {
                Ok(state) => Some(state),
                Err(_) => None,
            }
        } else {
            None
        };
        assert(forall|j: int|
            0 <= j < start ==> #[trigger] parsed_before_discards[j].output().status
                == outputs[j].status);
        assert(statuses_for_input_txns@ =~= Seq::new(
            outputs.len(),
            |i: int|
                if i < start {
                    outputs[i].status
                } else {
                    TransactionStatus::Retry
                },
        ));
        Ok(
            ChunkOutput {
                statuses_for_input_txns,
                to_commit,
                to_discard,
                to_retry,
                state_cache,
                block_end_info,
                next_epoch_state,
            },
        )
    }
}

/// What is wrong with the discarded transactions, in their order.
pub fn discard_anomalies(to_discard: &TransactionsWithParsedOutput) -> (anomalies: Vec<
    DiscardAnomaly,
>)
    ensures
        anomalies@ == all_anomalies(to_discard@),
{
    let mut anomalies: Vec<DiscardAnomaly> = Vec::new();
    let ghost pairs = to_discard@;
    let len = to_discard.len();
    for index in 0..len
        invariant
            len == pairs.len(),
            pairs == to_discard@,
            anomalies@ == all_anomalies(pairs.take(index as int)),
    {
        let output = to_discard.parsed_output(index).get_output();
        let ghost before = anomalies@;
        match output.status {
            TransactionStatus::Discard(_) => {},
            _ => anomalies.push(DiscardAnomaly::UnexpectedStatus { index }),
        }
        if !output.write_set.is_empty() || !output.events.is_empty() {
            anomalies.push(DiscardAnomaly::UnexpectedOutput { index });
        }
        proof {
            let upto = pairs.take(index + 1);
            assert(upto.drop_last() =~= pairs.take(index as int));
            assert(upto.last() == pairs[index as int]);
            assert(anomalies@ =~= before + anomalies_of(upto.last(), index));
        }
    }
    assert(pairs.take(pairs.len() as int) =~= pairs);
    anomalies
}

/// A transaction of a partitioned block.
#[derive(Debug, PartialEq, Eq)]
pub struct AnalyzedTransaction {
    pub transaction: SignatureVerifiedTransaction,
}

/// The transactions of a block, as they are given to the executor.
#[derive(Debug, PartialEq, Eq)]
pub enum ExecutableTransactions {
    Unsharded(Vec<SignatureVerifiedTransaction>),
    /// The transactions of a partitioned block, in the order of the block.
    Sharded(Vec<AnalyzedTransaction>),
}

impl ExecutableTransactions {
    /// The transactions themselves, in the order of the block.
    pub open spec fn inner(self) -> Seq<Transaction> {
        match self {
            ExecutableTransactions::Unsharded(txns) => inner_transactions(txns@),
            ExecutableTransactions::Sharded(txns) => inner_analyzed_transactions(txns@),
        }
    }
}

/// The transactions themselves.
pub open spec fn inner_transactions(txns: Seq<SignatureVerifiedTransaction>) -> Seq<Transaction> {
    txns.map_values(|t: SignatureVerifiedTransaction| t.inner())
}

/// The transactions themselves.
pub open spec fn inner_analyzed_transactions(txns: Seq<AnalyzedTransaction>) -> Seq<Transaction> {
    txns.map_values(|t: AnalyzedTransaction| t.transaction.inner())
}

/// What the VM puts out for a block.
#[derive(Debug, PartialEq, Eq)]
pub struct BlockOutput {
    pub transaction_outputs: Vec<TransactionOutput>,
    pub block_end_info: Option<BlockEndInfo>,
}

/// What a state view is a view for.
#[derive(Clone, Copy, Debug, PartialEq, Eq)]
pub enum StateViewId {
    BlockExecution { block_id: HashValue },
    ChunkExecution { first_version: u64 },
    TransactionValidation { base_version: u64 },
    /// For a genesis block, outside of tests.
    Miscellaneous,
}

/// How a block is executed.
#[derive(Debug, PartialEq, Eq)]
pub enum BlockExecution {
    /// The VM executes it.
    RunVm,
    /// It is not executed: this is what stands for its output.
    Skip(BlockOutput),
}

/// Which executor runs a partitioned block.
#[derive(Clone, Copy, Debug, PartialEq, Eq, Structural)]
pub enum ShardedExecutor {
    /// The one whose shards are other machines.
    Remote,
    /// The one whose shards are threads.
    Local,
}

/// What becomes of a chunk whose outputs were given.
#[derive(Debug, PartialEq, Eq)]
pub struct ProcessedOutputs {
    /// What is to be done to the counters.
    pub counter_actions: Vec<CounterAction>,
    pub chunk: Result<ChunkOutput, ExecutorError>,
}

impl ChunkOutput {
    /// Which executor runs a partitioned block: the remote one where there are
    /// addresses of remote shards.
    pub fn execute_block_sharded(addresses: &AddressBook) -> (executor: ShardedExecutor)
        ensures
            executor is Remote <==> remote_or_none(*addresses).len() > 0,
    {
        let remote = get_remote_addresses(addresses);
        if !remote.is_empty() {
            ShardedExecutor::Remote
        } else {
            ShardedExecutor::Local
        }
    }

    /// Whether the block is executed by the VM: always, but for a run that tests
    /// consensus alone, in which only a genesis block is, and every transaction of
    /// another block succeeds without any effect.
    pub fn execute_block(
        consensus_only_perf_test: bool,
        state_view_id: StateViewId,
        transactions: &[SignatureVerifiedTransaction],
    ) -> (execution: BlockExecution)
        ensures
            match execution {
                BlockExecution::RunVm => !consensus_only_perf_test || state_view_id is Miscellaneous,
                BlockExecution::Skip(output) => {
                    &&& consensus_only_perf_test && !(state_view_id is Miscellaneous)
                    &&& output.block_end_info is None
                    &&& output.transaction_outputs@.len() == transactions@.len()
                    &&& forall|i: int|
                        0 <= i < transactions@.len() ==> (
                        #[trigger] output.transaction_outputs@[i]).is_empty_success()
                },
            },
    {
        if !consensus_only_perf_test {
            return BlockExecution::RunVm;
        }
        match state_view_id {
            StateViewId::Miscellaneous => BlockExecution::RunVm,
            _ => {
                let mut transaction_outputs: Vec<TransactionOutput> = Vec::new();
                for i in 0..transactions.len()
                    invariant
                        transaction_outputs@.len() == i,
                        forall|j: int|
                            0 <= j < i ==> (
                            #[trigger] transaction_outputs@[j]).is_empty_success(),
                {
                    transaction_outputs.push(TransactionOutput::empty_success());
                }
                BlockExecution::Skip(BlockOutput { transaction_outputs, block_end_info: None })
            },
        }
    }

    /// The chunk of a block that was executed, with what its execution gave.
    pub fn by_transaction_execution(
        transactions: ExecutableTransactions,
        executed: Result<BlockOutput, ExecutorError>,
        state_cache: StateCache,
        append_state_checkpoint_to_block: Option<HashValue>,
    ) -> (chunk: Result<Self, ExecutorError>)
        requires
            executed matches Ok(output) ==> output.transaction_outputs@.len()
                == transactions.inner().len(),
        ensures
            match executed {
                Ok(output) => chunk matches Ok(chunk) && chunk.is_parse_of(
                    transactions.inner(),
                    output.transaction_outputs@,
                    state_cache,
                    if transactions is Unsharded {
                        output.block_end_info
                    } else {
                        None
                    },
                    append_state_checkpoint_to_block,
                ),
                Err(error) => chunk == Err::<Self, ExecutorError>(error),
            },
    {
        match transactions {
            ExecutableTransactions::Unsharded(txns) => Self::by_transaction_execution_unsharded(
                txns,
                executed,
                state_cache,
                append_state_checkpoint_to_block,
            ),
            ExecutableTransactions::Sharded(txns) => {
                let executed = match executed {
                    Ok(output) => Ok(output.transaction_outputs),
                    Err(error) => Err(error),
                };
                Self::by_transaction_execution_sharded(
                    txns,
                    executed,
                    state_cache,
                    append_state_checkpoint_to_block,
                )
            },
        }
    }

    /// The chunk of a block that was executed in one piece.
    pub fn by_transaction_execution_unsharded(
        transactions: Vec<SignatureVerifiedTransaction>,
        executed: Result<BlockOutput, ExecutorError>,
        state_cache: StateCache,
        append_state_checkpoint_to_block: Option<HashValue>,
    ) -> (chunk: Result<Self, ExecutorError>)
        requires
            executed matches Ok(output) ==> output.transaction_outputs@.len()
                == transactions@.len(),
        ensures
            match executed {
                Ok(output) => chunk matches Ok(chunk) && chunk.is_parse_of(
                    inner_transactions(transactions@),
                    output.transaction_outputs@,
                    state_cache,
                    output.block_end_info,
                    append_state_checkpoint_to_block,
                ),
                Err(error) => chunk == Err::<Self, ExecutorError>(error),
            },
    {
        let block_output = match executed {
            Ok(output) => output,
            Err(error) => return Err(error),
        };
        let ghost all = transactions@;
        let mut inner: Vec<Transaction> = Vec::new();
        for txn in it: transactions
            invariant
                all == it.seq(),
                inner@ == inner_transactions(all).take(it.index()),
        {
            inner.push(txn.into_inner());
            assert(inner@ =~= inner_transactions(all).take(it.index() + 1));
        }
        assert(inner@ =~= inner_transactions(all));
        RawChunkOutputParser {
            transactions: inner,
            transaction_outputs: block_output.transaction_outputs,
            state_cache,
            block_end_info: block_output.block_end_info,
        }.parse(append_state_checkpoint_to_block)
    }

    /// The chunk of a block that was executed in shards.
    pub fn by_transaction_execution_sharded(
        transactions: Vec<AnalyzedTransaction>,
        executed: Result<Vec<TransactionOutput>, ExecutorError>,
        state_cache: StateCache,
        append_state_checkpoint_to_block: Option<HashValue>,
    ) -> (chunk: Result<Self, ExecutorError>)
        requires
            executed matches Ok(outputs) ==> outputs@.len() == transactions@.len(),
        ensures
            match executed {
                Ok(outputs) => chunk matches Ok(chunk) && chunk.is_parse_of(
                    inner_analyzed_transactions(transactions@),
                    outputs@,
                    state_cache,
                    None,
                    append_state_checkpoint_to_block,
                ),
                Err(error) => chunk == Err::<Self, ExecutorError>(error),
            },
    {
        let transaction_outputs = match executed {
            Ok(outputs) => outputs,
            Err(error) => return Err(error),
        };
        let ghost all = transactions@;
        let mut inner: Vec<Transaction> = Vec::new();
        for txn in it: transactions
            invariant
                all == it.seq(),
                inner@ == inner_analyzed_transactions(all).take(it.index()),
        {
            inner.push(txn.transaction.into_inner());
            assert(inner@ =~= inner_analyzed_transactions(all).take(it.index() + 1));
        }
        assert(inner@ =~= inner_analyzed_transactions(all));
        RawChunkOutputParser {
            transactions: inner,
            transaction_outputs,
            state_cache,
            block_end_info: None,
        }.parse(append_state_checkpoint_to_block)
    }

    /// The chunk of transactions whose outputs are known. `primed` is the touched
    /// state, once all that the outputs write was fetched. For detailed counters,
    /// `output_sizes` tells the size of each output in its wire format.
    pub fn by_transaction_output(
        transactions_and_outputs: Vec<(Transaction, TransactionOutput)>,
        output_sizes: &[Option<u64>],
        primed: Result<StateCache, ExecutorError>,
        detailed_counters: bool,
    ) -> (processed: ProcessedOutputs)
        requires
            detailed_counters ==> can_be_detailed(
                transactions_and_outputs@.map_values(|p: TransactionAndOutput| Some(p.0)),
                transactions_and_outputs@.len(),
                output_sizes@.len(),
            ),
        ensures
            action_views(processed.counter_actions@) == chunk_actions(
                transactions_and_outputs@.map_values(|p: TransactionAndOutput| Some(p.0)),
                transactions_and_outputs@.map_values(|p: TransactionAndOutput| p.1),
                output_sizes@,
                "output"@,
                detailed_counters,
            ),
            match primed {
                Ok(state_cache) => processed.chunk matches Ok(chunk) && chunk.is_parse_of(
                    transactions_and_outputs@.map_values(|p: TransactionAndOutput| p.0),
                    transactions_and_outputs@.map_values(|p: TransactionAndOutput| p.1),
                    state_cache,
                    None,
                    None,
                ),
                Err(error) => processed.chunk == Err::<Self, ExecutorError>(error),
            },
    {
        let ghost pairs = transactions_and_outputs@;
        let ghost all_transactions = pairs.map_values(|p: TransactionAndOutput| p.0);
        let ghost all_outputs = pairs.map_values(|p: TransactionAndOutput| p.1);
        let mut transactions: Vec<Transaction> = Vec::new();
        let mut transaction_outputs: Vec<TransactionOutput> = Vec::new();
        for pair in it: transactions_and_outputs
            invariant
                pairs == it.seq(),
                all_transactions == pairs.map_values(|p: TransactionAndOutput| p.0),
                all_outputs == pairs.map_values(|p: TransactionAndOutput| p.1),
                transactions@ == all_transactions.take(it.index()),
                transaction_outputs@ == all_outputs.take(it.index()),
        {
            transactions.push(pair.0);
            transaction_outputs.push(pair.1);
            assert(transactions@ =~= all_transactions.take(it.index() + 1));
            assert(transaction_outputs@ =~= all_outputs.take(it.index() + 1));
        }
        assert(transactions@ =~= all_transactions);
        assert(transaction_outputs@ =~= all_outputs);
        proof {
            assert(transactions_of(transactions@) =~= pairs.map_values(
                |p: TransactionAndOutput| Some(p.0),
            ));
            assert(outputs_of(transaction_outputs@) =~= all_outputs);
        }
        let counter_actions = update_counters_for_processed_chunk(
            transactions.as_slice(),
            transaction_outputs.as_slice(),
            output_sizes,
            "output",
            detailed_counters,
        );
        let chunk = match primed {
            Ok(state_cache) => RawChunkOutputParser {
                transactions,
                transaction_outputs,
                state_cache,
                block_end_info: None,
            }.parse(None),
            Err(error) => Err(error),
        };
        ProcessedOutputs { counter_actions, chunk }
    }
}

} // verus!
