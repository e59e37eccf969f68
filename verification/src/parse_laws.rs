//! What becomes of each transaction of a chunk, told by the chunk itself.

use crate::chunk_laws::retries_start_where_they_have_to;
use crate::chunk_output::{
    all_anomalies, anomalies_of, discarded, inner_analyzed_transactions, inner_transactions,
    is_epoch_state_of, kept, retry_start, AnalyzedTransaction, ChunkOutput, DiscardAnomaly,
    EpochState, ExecutableTransactions, StateCache,
};
use crate::hash::HashValue;
use crate::output::{ContractEvent, TransactionOutput};
use crate::parsed_output::{ends_epoch, TransactionAndOutput};
use crate::sequence::paired;
use crate::status::{ExecutionStatus, TransactionStatus};
use crate::transaction::{BlockEndInfo, SignatureVerifiedTransaction, Transaction};
use vstd::prelude::*;

verus! {

/// Whether an event of `output` is marked as the start of a new epoch.
pub open spec fn starts_new_epoch(output: TransactionOutput) -> bool {
    exists|e: int|
        0 <= e < output.events@.len() && match #[trigger] output.events@[e] {
            ContractEvent::V1 { is_new_epoch_event, .. } => is_new_epoch_event,
            ContractEvent::V2 { is_new_epoch_event, .. } => is_new_epoch_event,
        }
}

/// How many of the first `n` outputs have a status that keeps the transaction.
pub open spec fn num_keeps(outputs: Seq<TransactionOutput>, n: nat) -> nat
    decreases n,
{
    if n == 0 {
        0
    } else if outputs[n - 1].status is Keep {
        num_keeps(outputs, (n - 1) as nat) + 1
    } else {
        num_keeps(outputs, (n - 1) as nat)
    }
}

/// An output ends an epoch just where one of its events is marked so.
pub proof fn marked_event_ends_the_epoch(output: TransactionOutput)
    ensures
        output.reconfig() == starts_new_epoch(output),
{
    if output.reconfig() {
        let e = choose|e: int|
            0 <= e < output.events@.len() && (#[trigger] output.events@[e]).starts_epoch();
        assert(match output.events@[e] {
            ContractEvent::V1 { is_new_epoch_event, .. } => is_new_epoch_event,
            ContractEvent::V2 { is_new_epoch_event, .. } => is_new_epoch_event,
        });
    }
    if starts_new_epoch(output) {
        let e = choose|e: int|
            0 <= e < output.events@.len() && match #[trigger] output.events@[e] {
                ContractEvent::V1 { is_new_epoch_event, .. } => is_new_epoch_event,
                ContractEvent::V2 { is_new_epoch_event, .. } => is_new_epoch_event,
            };
        assert(output.events@[e].starts_epoch());
    }
}

/// What is tried again is the rest of the chunk, in its order: all behind the first
/// transaction that starts a new epoch, and all from the first one on that the VM wants
/// tried again, and nothing more. Only those have their status overwritten.
pub proof fn rest_of_the_chunk_is_tried_again(
    chunk: ChunkOutput,
    transactions: Seq<Transaction>,
    outputs: Seq<TransactionOutput>,
    state_cache: StateCache,
    block_end_info: Option<BlockEndInfo>,
    append: Option<HashValue>,
)
    requires
        transactions.len() == outputs.len(),
        chunk.is_parse_of(transactions, outputs, state_cache, block_end_info, append),
    ensures
        chunk.to_retry@.len() <= outputs.len(),
        chunk.statuses_for_input_txns@.len() == outputs.len(),
        ({
            let cut = outputs.len() - chunk.to_retry@.len();
            &&& forall|k: int|
                0 <= k < chunk.to_retry@.len() ==> #[trigger] chunk.to_retry@[k] == (
                    transactions[cut + k],
                    outputs[cut + k],
                )
            &&& forall|i: int| 0 <= i < cut ==> !((#[trigger] outputs[i]).status is Retry)
            &&& forall|i: int| 0 <= i < cut - 1 ==> !starts_new_epoch(#[trigger] outputs[i])
            &&& cut < outputs.len() ==> outputs[cut].status is Retry || (cut > 0
                && starts_new_epoch(outputs[cut - 1]))
            &&& forall|i: int|
                0 <= i < cut ==> #[trigger] chunk.statuses_for_input_txns@[i] == outputs[i].status
            &&& forall|i: int|
                cut <= i < outputs.len() ==> #[trigger] chunk.statuses_for_input_txns@[i]
                    == TransactionStatus::Retry
        }),
{
    retries_start_where_they_have_to(outputs);
    assert forall|i: int| 0 <= i < outputs.len() implies (#[trigger] outputs[i]).reconfig()
        == starts_new_epoch(outputs[i]) by {
        marked_event_ends_the_epoch(outputs[i]);
    }
    let cut = outputs.len() - chunk.to_retry@.len();
    assert(cut == retry_start(outputs));
    if cut > 0 {
        assert(outputs[cut - 1].reconfig() == starts_new_epoch(outputs[cut - 1]));
    }
}

/// How many of the first transactions are kept and discarded.
proof fn lemma_counts(pairs: Seq<TransactionAndOutput>, outputs: Seq<TransactionOutput>, n: nat)
    requires
        n <= pairs.len(),
        pairs.len() == outputs.len(),
        forall|i: int| 0 <= i < pairs.len() ==> (#[trigger] pairs[i]).1 == outputs[i],
    ensures
        kept(pairs.take(n as int)).len() == num_keeps(outputs, n),
        discarded(pairs.take(n as int)).len() == n - num_keeps(outputs, n),
        num_keeps(outputs, n) <= n,
    decreases n,
{
    reveal(Seq::filter);
    if n > 0 {
        let m = (n - 1) as nat;
        lemma_counts(pairs, outputs, m);
        assert(pairs.take(n as int).drop_last() =~= pairs.take(m as int));
        assert(pairs.take(n as int).last() == pairs[m as int]);
        assert(pairs[m as int].1 == outputs[m as int]);
    } else {
        assert(pairs.take(0) =~= Seq::<TransactionAndOutput>::empty());
    }
}

/// Where one of the first transactions ends up among the kept or the discarded ones.
proof fn lemma_place(
    pairs: Seq<TransactionAndOutput>,
    outputs: Seq<TransactionOutput>,
    n: nat,
    i: nat,
)
    requires
        i < n <= pairs.len(),
        pairs.len() == outputs.len(),
        forall|i: int| 0 <= i < pairs.len() ==> (#[trigger] pairs[i]).1 == outputs[i],
    ensures
        ({
            let k = num_keeps(outputs, i);
            if outputs[i as int].status is Keep {
                k < kept(pairs.take(n as int)).len() && kept(pairs.take(n as int))[k as int]
                    == pairs[i as int]
            } else {
                0 <= i - k < discarded(pairs.take(n as int)).len() && discarded(
                    pairs.take(n as int),
                )[i - k] == pairs[i as int]
            }
        }),
    decreases n,
{
    let m = (n - 1) as nat;
    let before = pairs.take(m as int);
    let upto = pairs.take(n as int);
    assert(upto.drop_last() =~= before);
    assert(upto.last() == pairs[m as int]);
    assert(pairs[m as int].1 == outputs[m as int]);
    lemma_counts(pairs, outputs, m);
    assert(kept(upto) == if upto.last().1.status.discarded() {
        kept(before)
    } else {
        kept(before).push(upto.last())
    }) by {
        reveal(Seq::filter);
    }
    assert(discarded(upto) == if upto.last().1.status.discarded() {
        discarded(before).push(upto.last())
    } else {
        discarded(before)
    }) by {
        reveal(Seq::filter);
    }
    if i < m {
        lemma_place(pairs, outputs, m, i);
    }
}

/// Before the rest that is tried again, each transaction goes by its own status alone:
/// one that is kept is committed and one that is discarded is discarded, each with its
/// own output, in the order of the chunk.
pub proof fn each_transaction_goes_by_its_status(
    chunk: ChunkOutput,
    transactions: Seq<Transaction>,
    outputs: Seq<TransactionOutput>,
    state_cache: StateCache,
    block_end_info: Option<BlockEndInfo>,
    append: Option<HashValue>,
)
    requires
        transactions.len() == outputs.len(),
        chunk.is_parse_of(transactions, outputs, state_cache, block_end_info, append),
    ensures
        chunk.to_retry@.len() <= outputs.len(),
        ({
            let cut = (outputs.len() - chunk.to_retry@.len()) as nat;
            &&& chunk.to_commit@.len() >= num_keeps(outputs, cut)
            &&& chunk.to_discard@.len() == cut - num_keeps(outputs, cut)
            &&& forall|i: int|
                0 <= i < cut && (#[trigger] outputs[i]).status is Keep ==> num_keeps(
                    outputs,
                    i as nat,
                ) < num_keeps(outputs, cut) && chunk.to_commit@[num_keeps(
                    outputs,
                    i as nat,
                ) as int] == (transactions[i], outputs[i])
            &&& forall|i: int|
                0 <= i < cut && (#[trigger] outputs[i]).status is Discard ==> 0 <= i - num_keeps(
                    outputs,
                    i as nat,
                ) < chunk.to_discard@.len() && chunk.to_discard@[i - num_keeps(outputs, i as nat)]
                    == (transactions[i], outputs[i])
        }),
{
    let pairs = paired(transactions, outputs);
    retries_start_where_they_have_to(outputs);
    let cut = (outputs.len() - chunk.to_retry@.len()) as nat;
    assert(cut == retry_start(outputs));
    lemma_counts(pairs, outputs, cut);
    let committed = kept(pairs.take(cut as int));
    assert forall|i: int| 0 <= i < cut && (#[trigger] outputs[i]).status is Keep implies num_keeps(
        outputs,
        i as nat,
    ) < num_keeps(outputs, cut) && committed[num_keeps(outputs, i as nat) as int] == (
        transactions[i],
        outputs[i],
    ) by {
        lemma_place(pairs, outputs, cut, i as nat);
    }
    assert forall|i: int| 0 <= i < cut && (#[trigger] outputs[i]).status is Discard implies 0 <= i
        - num_keeps(outputs, i as nat) < chunk.to_discard@.len() && chunk.to_discard@[i
        - num_keeps(outputs, i as nat)] == (transactions[i], outputs[i]) by {
        lemma_place(pairs, outputs, cut, i as nat);
    }
    assert forall|k: int| 0 <= k < committed.len() implies #[trigger] chunk.to_commit@[k]
        == committed[k] by {
        if chunk.to_commit@.len() > committed.len() {
            assert(chunk.to_commit@.drop_last()[k] == committed[k]);
        }
    }
}

/// A block that is to be closed is closed, whatever its end looks like, unless the last
/// input transaction that is committed starts a new epoch: with an epilogue that tells
/// how the block ended where that is known, and with a state checkpoint where it is not.
/// A block that is not to be closed is not.
pub proof fn block_is_closed_unless_its_epoch_ends(
    chunk: ChunkOutput,
    transactions: Seq<Transaction>,
    outputs: Seq<TransactionOutput>,
    state_cache: StateCache,
    block_end_info: Option<BlockEndInfo>,
    append: Option<HashValue>,
)
    requires
        transactions.len() == outputs.len(),
        chunk.is_parse_of(transactions, outputs, state_cache, block_end_info, append),
    ensures
        chunk.to_retry@.len() <= outputs.len(),
        ({
            let cut = (outputs.len() - chunk.to_retry@.len()) as nat;
            let n = num_keeps(outputs, cut);
            let ended = n > 0 && starts_new_epoch(chunk.to_commit@[n - 1].1);
            match append {
                Some(block_id) if !ended => {
                    &&& chunk.to_commit@.len() == n + 1
                    &&& match block_end_info {
                        Some(info) => chunk.to_commit@[n as int].0 == Transaction::BlockEpilogue {
                            block_id,
                            block_end_info: info,
                        },
                        None => chunk.to_commit@[n as int].0 == Transaction::StateCheckpoint(
                            block_id,
                        ),
                    }
                    &&& chunk.to_commit@[n as int].1.write_set.writes@.len() == 0
                    &&& chunk.to_commit@[n as int].1.events@.len() == 0
                    &&& chunk.to_commit@[n as int].1.gas_used == 0
                    &&& chunk.to_commit@[n as int].1.status == TransactionStatus::Keep(
                        ExecutionStatus::Success,
                    )
                    &&& chunk.to_commit@[n as int].1.auxiliary_data.detail is None
                    &&& chunk.to_commit@[n as int].1.total_supply_delta is None
                    &&& chunk.to_commit@[n as int].1.total_supply is None
                },
                _ => chunk.to_commit@.len() == n,
            }
        }),
{
    let pairs = paired(transactions, outputs);
    retries_start_where_they_have_to(outputs);
    let cut = (outputs.len() - chunk.to_retry@.len()) as nat;
    assert(cut == retry_start(outputs));
    lemma_counts(pairs, outputs, cut);
    let committed = kept(pairs.take(cut as int));
    let n = num_keeps(outputs, cut);
    if n > 0 {
        assert(chunk.to_commit@[n - 1] == committed[n - 1]) by {
            if chunk.to_commit@.len() > committed.len() {
                assert(chunk.to_commit@.drop_last()[n - 1] == committed[n - 1]);
            }
        }
        marked_event_ends_the_epoch(committed[n - 1].1);
        assert(committed.last() == committed[n - 1]);
    }
    assert(ends_epoch(committed) == (n > 0 && starts_new_epoch(chunk.to_commit@[n - 1].1)));
}

/// There is a next epoch just where the last transaction that is committed starts one
/// and the touched state holds both its number and its validators, and it is the one that
/// the touched state holds. How the block ended and the touched state are passed on.
pub proof fn next_epoch_is_the_one_in_the_state(
    chunk: ChunkOutput,
    transactions: Seq<Transaction>,
    outputs: Seq<TransactionOutput>,
    state_cache: StateCache,
    block_end_info: Option<BlockEndInfo>,
    append: Option<HashValue>,
)
    requires
        transactions.len() == outputs.len(),
        chunk.is_parse_of(transactions, outputs, state_cache, block_end_info, append),
    ensures
        chunk.block_end_info == block_end_info,
        chunk.state_cache == state_cache,
        chunk.next_epoch_state is Some <==> {
            &&& chunk.to_commit@.len() > 0
            &&& starts_new_epoch(chunk.to_commit@[chunk.to_commit@.len() - 1].1)
            &&& state_cache.validator_set is Some
            &&& state_cache.configuration_epoch is Some
        },
        chunk.next_epoch_state is Some ==> {
            &&& chunk.next_epoch_state->0.epoch == state_cache.configuration_epoch->0
            &&& chunk.next_epoch_state->0.verifier.validator_infos@
                == state_cache.validator_set->0.validator_infos@
        },
{
    if chunk.to_commit@.len() > 0 {
        marked_event_ends_the_epoch(chunk.to_commit@[chunk.to_commit@.len() - 1].1);
        assert(chunk.to_commit@.last() == chunk.to_commit@[chunk.to_commit@.len() - 1]);
    }
}

/// An epoch state is the one of the touched state just where number and validators are.
pub proof fn epoch_state_has_the_number_and_validators_of_the_state(
    state: EpochState,
    state_cache: StateCache,
)
    ensures
        is_epoch_state_of(state, state_cache) <==> {
            &&& state_cache.configuration_epoch is Some
            &&& state_cache.validator_set is Some
            &&& state.epoch == state_cache.configuration_epoch->0
            &&& state.verifier.validator_infos@ == state_cache.validator_set->0.validator_infos@
        },
{
}

/// Each transaction of a block is handed on in its place, whether or not its signature is
/// valid.
pub proof fn signatures_do_not_matter_to_what_is_handed_on(
    transactions: ExecutableTransactions,
    i: int,
)
    requires
        0 <= i < transactions.inner().len(),
    ensures
        match transactions {
            ExecutableTransactions::Unsharded(txns) => {
                &&& transactions.inner().len() == txns@.len()
                &&& match txns@[i] {
                    SignatureVerifiedTransaction::Valid(txn) => transactions.inner()[i] == txn,
                    SignatureVerifiedTransaction::Invalid(txn) => transactions.inner()[i] == txn,
                }
            },
            ExecutableTransactions::Sharded(txns) => {
                &&& transactions.inner().len() == txns@.len()
                &&& match txns@[i].transaction {
                    SignatureVerifiedTransaction::Valid(txn) => transactions.inner()[i] == txn,
                    SignatureVerifiedTransaction::Invalid(txn) => transactions.inner()[i] == txn,
                }
            },
        },
{
}

/// No transaction of a block is left out when it is handed on.
pub proof fn all_transactions_are_handed_on(
    unsharded: Seq<SignatureVerifiedTransaction>,
    sharded: Seq<AnalyzedTransaction>,
)
    ensures
        inner_transactions(unsharded).len() == unsharded.len(),
        inner_analyzed_transactions(sharded).len() == sharded.len(),
        forall|i: int|
            0 <= i < unsharded.len() ==> match unsharded[i] {
                SignatureVerifiedTransaction::Valid(txn) => {
                    #[trigger] inner_transactions(unsharded)[i] == txn
                },
                SignatureVerifiedTransaction::Invalid(txn) => {
                    inner_transactions(unsharded)[i] == txn
                },
            },
        forall|i: int|
            0 <= i < sharded.len() ==> match sharded[i].transaction {
                SignatureVerifiedTransaction::Valid(txn) => {
                    #[trigger] inner_analyzed_transactions(sharded)[i] == txn
                },
                SignatureVerifiedTransaction::Invalid(txn) => {
                    inner_analyzed_transactions(sharded)[i] == txn
                },
            },
{
}

/// An output without an effect is free, succeeds, writes nothing and emits nothing.
pub proof fn empty_success_has_no_effect(output: TransactionOutput)
    ensures
        output.is_empty_success() <==> {
            &&& output.write_set.writes@.len() == 0
            &&& output.events@.len() == 0
            &&& output.gas_used == 0
            &&& output.status == TransactionStatus::Keep(ExecutionStatus::Success)
            &&& output.auxiliary_data.detail is None
            &&& output.total_supply_delta is None
            &&& output.total_supply is None
        },
{
}

/// The place that an anomaly is at.
pub open spec fn place_of(anomaly: DiscardAnomaly) -> usize {
    match anomaly {
        DiscardAnomaly::UnexpectedStatus { index } => index,
        DiscardAnomaly::UnexpectedOutput { index } => index,
    }
}

/// Of each discarded transaction it is told, once, that its status is not to discard it,
/// and, once, that it has writes or events, just where that is so; in the order of the
/// transactions.
pub proof fn anomalies_are_told_just_where_they_are(pairs: Seq<TransactionAndOutput>)
    requires
        pairs.len() <= usize::MAX,
    ensures
        all_anomalies(pairs).no_duplicates(),
        forall|index: usize| #[trigger]
            all_anomalies(pairs).contains(DiscardAnomaly::UnexpectedStatus { index }) <==> index
                < pairs.len() && !(pairs[index as int].1.status is Discard),
        forall|index: usize| #[trigger]
            all_anomalies(pairs).contains(DiscardAnomaly::UnexpectedOutput { index }) <==> index
                < pairs.len() && (pairs[index as int].1.write_set.writes@.len() > 0
                || pairs[index as int].1.events@.len() > 0),
        forall|a: int, b: int|
            0 <= a < b < all_anomalies(pairs).len() ==> place_of(#[trigger] all_anomalies(pairs)[a])
                <= place_of(#[trigger] all_anomalies(pairs)[b]),
    decreases pairs.len(),
{
    if pairs.len() > 0 {
        let before = pairs.drop_last();
        let m = (pairs.len() - 1) as usize;
        anomalies_are_told_just_where_they_are(before);
        let early = all_anomalies(before);
        let late = anomalies_of(pairs.last(), m);
        let all = all_anomalies(pairs);
        assert(all == early + late);
        let status = DiscardAnomaly::UnexpectedStatus { index: m };
        let output = DiscardAnomaly::UnexpectedOutput { index: m };
        assert(pairs.last() == pairs[m as int]);
        assert forall|k: int| 0 <= k < late.len() implies place_of(#[trigger] late[k]) == m by {}
        assert forall|k: int| 0 <= k < early.len() implies place_of(#[trigger] early[k]) < m by {
            match early[k] {
                DiscardAnomaly::UnexpectedStatus { index } => {
                    assert(early.contains(DiscardAnomaly::UnexpectedStatus { index }));
                },
                DiscardAnomaly::UnexpectedOutput { index } => {
                    assert(early.contains(DiscardAnomaly::UnexpectedOutput { index }));
                },
            }
        }
        assert forall|x: DiscardAnomaly| #[trigger] all.contains(x) <==> early.contains(x)
            || late.contains(x) by {
            if early.contains(x) {
                let k = choose|k: int| 0 <= k < early.len() && early[k] == x;
                assert(all[k] == x);
            }
            if late.contains(x) {
                let k = choose|k: int| 0 <= k < late.len() && late[k] == x;
                assert(all[early.len() + k] == x);
            }
            if all.contains(x) {
                let k = choose|k: int| 0 <= k < all.len() && all[k] == x;
                if k < early.len() {
                    assert(early[k] == x);
                } else {
                    assert(late[k - early.len()] == x);
                }
            }
        }
        assert(late.contains(status) <==> !(pairs[m as int].1.status is Discard)) by {
            if !(pairs[m as int].1.status is Discard) {
                assert(late[0] == status);
            }
        }
        assert(late.contains(output) <==> (pairs[m as int].1.write_set.writes@.len() > 0
            || pairs[m as int].1.events@.len() > 0)) by {
            if pairs[m as int].1.write_set.writes@.len() > 0
                || pairs[m as int].1.events@.len() > 0 {
                assert(late[late.len() - 1] == output);
            }
        }
        assert(late.no_duplicates());
        assert forall|index: usize| #[trigger]
            all.contains(DiscardAnomaly::UnexpectedStatus { index }) <==> index < pairs.len()
                && !(pairs[index as int].1.status is Discard) by {
            let x = DiscardAnomaly::UnexpectedStatus { index };
            assert(early.contains(x) <==> index < before.len() && !(
            before[index as int].1.status is Discard));
            if late.contains(x) {
                let k = choose|k: int| 0 <= k < late.len() && late[k] == x;
                assert(place_of(late[k]) == m);
            }
        }
        assert forall|index: usize| #[trigger]
            all.contains(DiscardAnomaly::UnexpectedOutput { index }) <==> index < pairs.len() && (
            pairs[index as int].1.write_set.writes@.len() > 0
                || pairs[index as int].1.events@.len() > 0) by {
            let x = DiscardAnomaly::UnexpectedOutput { index };
            assert(early.contains(x) <==> index < before.len() && (
            before[index as int].1.write_set.writes@.len() > 0
                || before[index as int].1.events@.len() > 0));
            if late.contains(x) {
                let k = choose|k: int| 0 <= k < late.len() && late[k] == x;
                assert(place_of(late[k]) == m);
            }
        }
        assert forall|a: int, b: int| 0 <= a < b < all.len() implies place_of(#[trigger] all[a])
            <= place_of(#[trigger] all[b]) by {
            if b < early.len() {
                assert(all[a] == early[a] && all[b] == early[b]);
            } else {
                assert(all[b] == late[b - early.len()]);
                if a < early.len() {
                    assert(all[a] == early[a]);
                } else {
                    assert(all[a] == late[a - early.len()]);
                }
            }
        }
        assert forall|a: int, b: int|
            0 <= a < all.len() && 0 <= b < all.len() && a != b implies all[a] != all[b] by {
            if a < early.len() {
                assert(all[a] == early[a]);
            } else {
                assert(all[a] == late[a - early.len()]);
            }
            if b < early.len() {
                assert(all[b] == early[b]);
            } else {
                assert(all[b] == late[b - early.len()]);
            }
        }
    } else {
        assert(all_anomalies(pairs) =~= Seq::<DiscardAnomaly>::empty());
    }
}

} // verus!
