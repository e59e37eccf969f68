//! What holds of every sorted chunk.

use crate::chunk_output::{
    block_epilogue, discarded, is_closed_with, kept, retry_start, ChunkOutput, StateCache,
};
use crate::hash::HashValue;
use crate::output::TransactionOutput;
use crate::parsed_output::{ends_epoch, TransactionAndOutput};
use crate::sequence::{first_where, is_first_where, lemma_first_where_exists, paired};
use crate::status::TransactionStatus;
use crate::transaction::{BlockEndInfo, Transaction};
use vstd::prelude::*;

verus! {

/// The transactions of a chunk that are not tried again.
pub open spec fn done_part(
    transactions: Seq<Transaction>,
    outputs: Seq<TransactionOutput>,
) -> Seq<TransactionAndOutput> {
    paired(transactions, outputs).take(retry_start(outputs))
}

/// How many of `statuses` keep their transaction.
pub open spec fn num_kept(statuses: Seq<TransactionStatus>) -> nat {
    statuses.filter(|s: TransactionStatus| !s.discarded()).len()
}

/// The retried part starts within the chunk.
proof fn lemma_retry_start_in_range(outputs: Seq<TransactionOutput>)
    ensures
        0 <= retry_start(outputs) <= outputs.len(),
{
    let reconfig = |o: TransactionOutput| o.reconfig();
    let retry = |o: TransactionOutput| o.status is Retry;
    if first_where(outputs, reconfig) is Some {
        assert(is_first_where(outputs, reconfig, first_where(outputs, reconfig).unwrap()));
    }
    if first_where(outputs, retry) is Some {
        assert(is_first_where(outputs, retry, first_where(outputs, retry).unwrap()));
    }
}

/// The retried part starts as early as it has to: before it the VM wants nothing
/// tried again, and only the last transaction may end an epoch; and no earlier: it
/// starts with a transaction that the VM wants tried again, or behind one that ends
/// an epoch.
pub proof fn retries_start_where_they_have_to(outputs: Seq<TransactionOutput>)
    ensures
        0 <= retry_start(outputs) <= outputs.len(),
        retry_start(outputs) < outputs.len() ==> outputs[retry_start(outputs)].status is Retry || (
        retry_start(outputs) > 0 && outputs[retry_start(outputs) - 1].reconfig()),
        forall|i: int|
            0 <= i < retry_start(outputs) ==> !((#[trigger] outputs[i]).status is Retry),
        forall|i: int| 0 <= i < retry_start(outputs) - 1 ==> !(#[trigger] outputs[i]).reconfig(),
{
    let reconfig = |o: TransactionOutput| o.reconfig();
    let retry = |o: TransactionOutput| o.status is Retry;
    lemma_retry_start_in_range(outputs);
    if first_where(outputs, reconfig) is Some {
        assert(is_first_where(outputs, reconfig, first_where(outputs, reconfig).unwrap()));
    }
    if first_where(outputs, retry) is Some {
        assert(is_first_where(outputs, retry, first_where(outputs, retry).unwrap()));
    }
    assert forall|i: int| 0 <= i < retry_start(outputs) implies !((
    #[trigger] outputs[i]).status is Retry) by {
        if retry(outputs[i]) {
            lemma_first_where_exists(outputs, retry, i);
        }
    }
    assert forall|i: int| 0 <= i < retry_start(outputs) - 1 implies !(
    #[trigger] outputs[i]).reconfig() by {
        if reconfig(outputs[i]) {
            lemma_first_where_exists(outputs, reconfig, i);
        }
    }
}

/// Keeping and discarding share the transactions out.
proof fn lemma_kept_and_discarded(pairs: Seq<TransactionAndOutput>)
    ensures
        kept(pairs).to_multiset().add(discarded(pairs).to_multiset()) =~= pairs.to_multiset(),
        kept(pairs).len() + discarded(pairs).len() == pairs.len(),
    decreases pairs.len(),
{
    broadcast use vstd::seq_lib::group_to_multiset_ensures;

    reveal(Seq::filter);
    if pairs.len() > 0 {
        lemma_kept_and_discarded(pairs.drop_last());
        assert(pairs =~= pairs.drop_last().push(pairs.last()));
    } else {
        assert(kept(pairs) =~= pairs);
        assert(discarded(pairs) =~= pairs);
        assert(pairs.to_multiset().len() == 0);
    }
}

/// The multiset of a concatenation.
proof fn lemma_multiset_of_split(pairs: Seq<TransactionAndOutput>, n: int)
    requires
        0 <= n <= pairs.len(),
    ensures
        pairs.take(n).to_multiset().add(pairs.skip(n).to_multiset()) =~= pairs.to_multiset(),
{
    vstd::seq_lib::lemma_multiset_commutative(pairs.take(n), pairs.skip(n));
    assert(pairs.take(n) + pairs.skip(n) =~= pairs);
}

/// No transaction is lost and none is made up: those that are committed, but for
/// the one that closes the block, those that are discarded and those that are
/// tried again are together the transactions of the chunk.
pub proof fn every_transaction_has_one_fate(
    chunk: ChunkOutput,
    transactions: Seq<Transaction>,
    outputs: Seq<TransactionOutput>,
    state_cache: StateCache,
    block_end_info: Option<BlockEndInfo>,
    append_state_checkpoint_to_block: Option<HashValue>,
)
    requires
        transactions.len() == outputs.len(),
        chunk.is_parse_of(
            transactions,
            outputs,
            state_cache,
            block_end_info,
            append_state_checkpoint_to_block,
        ),
    ensures
        ({
            let committed = kept(done_part(transactions, outputs));
            &&& is_closed_with(
                chunk.to_commit@,
                committed,
                block_epilogue(committed, block_end_info, append_state_checkpoint_to_block),
            )
            &&& committed.to_multiset().add(chunk.to_discard@.to_multiset()).add(
                chunk.to_retry@.to_multiset(),
            ) == paired(transactions, outputs).to_multiset()
            &&& committed.len() + chunk.to_discard@.len() + chunk.to_retry@.len()
                == transactions.len()
        }),
{
    let pairs = paired(transactions, outputs);
    lemma_retry_start_in_range(outputs);
    lemma_kept_and_discarded(pairs.take(retry_start(outputs)));
    lemma_multiset_of_split(pairs, retry_start(outputs));
}

/// Each transaction of the chunk has a status, those that are tried again the one
/// that says so, and there are as many statuses that keep a transaction as there
/// are transactions of the chunk that are committed.
pub proof fn statuses_agree_with_fates(
    chunk: ChunkOutput,
    transactions: Seq<Transaction>,
    outputs: Seq<TransactionOutput>,
    state_cache: StateCache,
    block_end_info: Option<BlockEndInfo>,
    append_state_checkpoint_to_block: Option<HashValue>,
)
    requires
        transactions.len() == outputs.len(),
        chunk.is_parse_of(
            transactions,
            outputs,
            state_cache,
            block_end_info,
            append_state_checkpoint_to_block,
        ),
    ensures
        ({
            let statuses = chunk.statuses_for_input_txns@;
            let num_retries = chunk.to_retry@.len();
            &&& statuses.len() == transactions.len()
            &&& num_retries <= statuses.len()
            &&& forall|i: int|
                statuses.len() - num_retries <= i < statuses.len()
                    ==> #[trigger] statuses[i] is Retry
            &&& num_kept(statuses) == kept(done_part(transactions, outputs)).len()
        }),
{
    lemma_retry_start_in_range(outputs);
    lemma_num_kept(
        chunk.statuses_for_input_txns@,
        paired(transactions, outputs),
        retry_start(outputs),
        outputs.len() as int,
    );
    assert(chunk.statuses_for_input_txns@.take(outputs.len() as int)
        =~= chunk.statuses_for_input_txns@);
    assert(paired(transactions, outputs).take(retry_start(outputs)) =~= done_part(
        transactions,
        outputs,
    ));
}

/// Up to place `n`, as many statuses keep a transaction as there are transactions
/// before `start` that are kept.
proof fn lemma_num_kept(
    statuses: Seq<TransactionStatus>,
    pairs: Seq<TransactionAndOutput>,
    start: int,
    n: int,
)
    requires
        0 <= start <= pairs.len(),
        0 <= n <= pairs.len(),
        statuses.len() == pairs.len(),
        forall|i: int| 0 <= i < start ==> #[trigger] statuses[i] == pairs[i].1.status,
        forall|i: int| start <= i < pairs.len() ==> #[trigger] statuses[i] is Retry,
    ensures
        num_kept(statuses.take(n)) == kept(
            pairs.take(
                if n <= start {
                    n
                } else {
                    start
                },
            ),
        ).len(),
    decreases n,
{
    reveal(Seq::filter);
    if n > 0 {
        lemma_num_kept(statuses, pairs, start, n - 1);
        assert(statuses.take(n).drop_last() =~= statuses.take(n - 1));
        assert(statuses.take(n).last() == statuses[n - 1]);
        if n <= start {
            assert(pairs.take(n).drop_last() =~= pairs.take(n - 1));
            assert(pairs.take(n).last() == pairs[n - 1]);
        }
    }
}

/// Only transactions whose status keeps them are committed, and only transactions
/// whose status discards them are discarded: none that is to be tried again.
pub proof fn commit_and_discard_go_by_the_status(
    chunk: ChunkOutput,
    transactions: Seq<Transaction>,
    outputs: Seq<TransactionOutput>,
    state_cache: StateCache,
    block_end_info: Option<BlockEndInfo>,
    append_state_checkpoint_to_block: Option<HashValue>,
)
    requires
        transactions.len() == outputs.len(),
        chunk.is_parse_of(
            transactions,
            outputs,
            state_cache,
            block_end_info,
            append_state_checkpoint_to_block,
        ),
    ensures
        forall|i: int|
            0 <= i < chunk.to_commit@.len() ==> (#[trigger] chunk.to_commit@[i]).1.status is Keep,
        forall|i: int|
            0 <= i < chunk.to_discard@.len() ==> (
            #[trigger] chunk.to_discard@[i]).1.status is Discard,
{
    broadcast use vstd::seq_lib::group_filter_ensures;

    let done = done_part(transactions, outputs);
    let committed = kept(done);
    assert forall|i: int| 0 <= i < chunk.to_commit@.len() implies (
    #[trigger] chunk.to_commit@[i]).1.status is Keep by {
        if i < committed.len() {
            assert(chunk.to_commit@[i] == committed[i]) by {
                if chunk.to_commit@.len() > committed.len() {
                    assert(chunk.to_commit@.drop_last()[i] == committed[i]);
                }
            }
        }
    }
    retries_start_where_they_have_to(outputs);
    assert forall|i: int| 0 <= i < chunk.to_discard@.len() implies (
    #[trigger] chunk.to_discard@[i]).1.status is Discard by {
        lemma_discarded_is_among(done, i);
        let k = choose|k: int| 0 <= k < done.len() && done[k] == discarded(done)[i];
        assert(done[k].1 == outputs[k]);
    }
}

/// What is discarded is among the transactions, and is not kept.
proof fn lemma_discarded_is_among(pairs: Seq<TransactionAndOutput>, i: int)
    requires
        0 <= i < discarded(pairs).len(),
    ensures
        discarded(pairs)[i].1.status.discarded(),
        exists|k: int| 0 <= k < pairs.len() && pairs[k] == discarded(pairs)[i],
    decreases pairs.len(),
{
    reveal(Seq::filter);
    if pairs.len() > 0 {
        let earlier = pairs.drop_last();
        if i < discarded(earlier).len() {
            lemma_discarded_is_among(earlier, i);
            let k = choose|k: int| 0 <= k < earlier.len() && earlier[k] == discarded(earlier)[i];
            assert(pairs[k] == discarded(pairs)[i]);
        } else {
            assert(pairs[pairs.len() - 1] == discarded(pairs)[i]);
        }
    }
}

/// A transaction that ends an epoch is the last one that is committed: no other
/// comes after it, nor one that closes the block.
pub proof fn nothing_is_committed_after_the_end_of_an_epoch(
    chunk: ChunkOutput,
    transactions: Seq<Transaction>,
    outputs: Seq<TransactionOutput>,
    state_cache: StateCache,
    block_end_info: Option<BlockEndInfo>,
    append_state_checkpoint_to_block: Option<HashValue>,
)
    requires
        transactions.len() == outputs.len(),
        chunk.is_parse_of(
            transactions,
            outputs,
            state_cache,
            block_end_info,
            append_state_checkpoint_to_block,
        ),
    ensures
        forall|i: int|
            0 <= i < chunk.to_commit@.len() - 1 ==> !(#[trigger] chunk.to_commit@[i]).1.reconfig(),
        ends_epoch(chunk.to_commit@) <==> ends_epoch(kept(done_part(transactions, outputs))),
{
    let pairs = paired(transactions, outputs);
    let start = retry_start(outputs);
    let done = done_part(transactions, outputs);
    let committed = kept(done);
    retries_start_where_they_have_to(outputs);
    assert forall|i: int| 0 <= i < done.len() - 1 implies !(#[trigger] done[i]).1.reconfig() by {
        assert(done[i].1 == outputs[i]);
    }
    lemma_only_last_may_end_epoch(done);
    assert forall|i: int| 0 <= i < chunk.to_commit@.len() - 1 implies !(
    #[trigger] chunk.to_commit@[i]).1.reconfig() by {
        if chunk.to_commit@.len() > committed.len() {
            assert(chunk.to_commit@.drop_last()[i] == committed[i]);
            assert(!ends_epoch(committed));
        }
        assert(chunk.to_commit@[i] == committed[i]);
    }
}

/// If only the last transaction may end an epoch, only the last one that is kept
/// does.
proof fn lemma_only_last_may_end_epoch(pairs: Seq<TransactionAndOutput>)
    requires
        forall|i: int| 0 <= i < pairs.len() - 1 ==> !(#[trigger] pairs[i]).1.reconfig(),
    ensures
        forall|i: int|
            0 <= i < kept(pairs).len() - 1 ==> !(#[trigger] kept(pairs)[i]).1.reconfig(),
{
    reveal(Seq::filter);
    if pairs.len() > 0 {
        let earlier = pairs.drop_last();
        lemma_kept_of_none(earlier);
        assert(kept(pairs) == kept(earlier) || kept(pairs) == kept(earlier).push(pairs.last()));
    }
}

/// If no transaction ends an epoch, none that is kept does.
proof fn lemma_kept_of_none(pairs: Seq<TransactionAndOutput>)
    requires
        forall|i: int| 0 <= i < pairs.len() ==> !(#[trigger] pairs[i]).1.reconfig(),
    ensures
        forall|i: int| 0 <= i < kept(pairs).len() ==> !(#[trigger] kept(pairs)[i]).1.reconfig(),
    decreases pairs.len(),
{
    reveal(Seq::filter);
    if pairs.len() > 0 {
        assert forall|i: int| 0 <= i < pairs.drop_last().len() implies !(
        #[trigger] pairs.drop_last()[i]).1.reconfig() by {
            assert(!pairs[i].1.reconfig());
        }
        lemma_kept_of_none(pairs.drop_last());
        assert(!pairs[pairs.len() - 1].1.reconfig());
        assert(kept(pairs) == kept(pairs.drop_last()) || kept(pairs) == kept(
            pairs.drop_last(),
        ).push(pairs.last()));
    }
}

/// There is a next epoch only after a chunk that ends one.
pub proof fn next_epoch_only_after_the_end_of_an_epoch(
    chunk: ChunkOutput,
    transactions: Seq<Transaction>,
    outputs: Seq<TransactionOutput>,
    state_cache: StateCache,
    block_end_info: Option<BlockEndInfo>,
    append_state_checkpoint_to_block: Option<HashValue>,
)
    requires
        transactions.len() == outputs.len(),
        chunk.is_parse_of(
            transactions,
            outputs,
            state_cache,
            block_end_info,
            append_state_checkpoint_to_block,
        ),
        chunk.next_epoch_state is Some,
    ensures
        ends_epoch(chunk.to_commit@),
        chunk.to_commit@ == kept(done_part(transactions, outputs)),
{
    nothing_is_committed_after_the_end_of_an_epoch(
        chunk,
        transactions,
        outputs,
        state_cache,
        block_end_info,
        append_state_checkpoint_to_block,
    );
}

/// Once the retried part is taken off, nothing more is to be tried again.
pub proof fn retries_are_found_at_once(outputs: Seq<TransactionOutput>)
    ensures
        retry_start(outputs.take(retry_start(outputs))) == retry_start(outputs),
{
    let start = retry_start(outputs);
    let rest = outputs.take(start);
    retries_start_where_they_have_to(outputs);
    retries_start_where_they_have_to(rest);
    let again = retry_start(rest);
    if again < start {
        if rest[again].status is Retry {
            assert(!(outputs[again].status is Retry));
        } else {
            assert(rest[again - 1].reconfig());
            assert(!outputs[again - 1].reconfig());
        }
    }
}

/// Once the discarded transactions are taken out, nothing more is discarded, and what
/// is left stays as it is.
pub proof fn discards_are_found_at_once(pairs: Seq<TransactionAndOutput>)
    ensures
        discarded(kept(pairs)) == Seq::<TransactionAndOutput>::empty(),
        kept(kept(pairs)) == kept(pairs),
    decreases pairs.len(),
{
    reveal(Seq::filter);
    if pairs.len() > 0 {
        let earlier = pairs.drop_last();
        discards_are_found_at_once(earlier);
        if !pairs.last().1.status.discarded() {
            assert(kept(pairs) == kept(earlier).push(pairs.last()));
            assert(kept(pairs).drop_last() =~= kept(earlier));
        }
    }
}

/// Whether a transaction closes the block, and which one, changes nothing else: the
/// same transactions are committed before it, discarded and tried again, with the same
/// statuses, and the same epoch comes next.
pub proof fn closing_a_block_changes_nothing_else(
    one: ChunkOutput,
    other: ChunkOutput,
    transactions: Seq<Transaction>,
    outputs: Seq<TransactionOutput>,
    state_cache: StateCache,
    block_end_info: Option<BlockEndInfo>,
    one_append: Option<HashValue>,
    other_append: Option<HashValue>,
)
    requires
        transactions.len() == outputs.len(),
        one.is_parse_of(transactions, outputs, state_cache, block_end_info, one_append),
        other.is_parse_of(transactions, outputs, state_cache, block_end_info, other_append),
    ensures
        one.statuses_for_input_txns@ == other.statuses_for_input_txns@,
        one.to_discard@ == other.to_discard@,
        one.to_retry@ == other.to_retry@,
        one.state_cache == other.state_cache,
        one.block_end_info == other.block_end_info,
        ({
            let committed = kept(done_part(transactions, outputs));
            &&& committed.is_prefix_of(one.to_commit@)
            &&& committed.is_prefix_of(other.to_commit@)
            &&& one.to_commit@.len() <= committed.len() + 1
            &&& other.to_commit@.len() <= committed.len() + 1
        }),
        match (one.next_epoch_state, other.next_epoch_state) {
            (Some(a), Some(b)) => a.epoch == b.epoch && a.verifier.validator_infos@
                == b.verifier.validator_infos@,
            (None, None) => true,
            _ => false,
        },
{
    nothing_is_committed_after_the_end_of_an_epoch(
        one,
        transactions,
        outputs,
        state_cache,
        block_end_info,
        one_append,
    );
    nothing_is_committed_after_the_end_of_an_epoch(
        other,
        transactions,
        outputs,
        state_cache,
        block_end_info,
        other_append,
    );
    let committed = kept(done_part(transactions, outputs));
    assert(committed =~= one.to_commit@.take(committed.len() as int)) by {
        if one.to_commit@.len() > committed.len() {
            assert(one.to_commit@.drop_last() == committed);
        }
    }
    assert(committed =~= other.to_commit@.take(committed.len() as int)) by {
        if other.to_commit@.len() > committed.len() {
            assert(other.to_commit@.drop_last() == committed);
        }
    }
}

} // verus!
