//! What holds of the counters over several chunks.

use crate::chunk_counters::{
    all_transaction_actions, chunk_actions, count_action, discard_actions, event_actions,
    failure_actions, kind_actions, num_processed, size_actions, status_labels,
    transaction_actions, CounterActionView,
};
use crate::output::TransactionOutput;
use crate::transaction::Transaction;
use vstd::prelude::*;

verus! {

/// The changes of metrics among `actions`, without the warnings.
pub open spec fn metric_updates(actions: Seq<CounterActionView>) -> Seq<CounterActionView> {
    actions.filter(|a: CounterActionView| a is Update)
}

proof fn lemma_updates_of_concatenation(a: Seq<CounterActionView>, b: Seq<CounterActionView>)
    ensures
        metric_updates(a + b) == metric_updates(a) + metric_updates(b),
{
    Seq::filter_distributes_over_add(a, b, |x: CounterActionView| x is Update);
}

proof fn lemma_no_metric_updates(actions: Seq<CounterActionView>)
    requires
        forall|i: int| 0 <= i < actions.len() ==> !((#[trigger] actions[i]) is Update),
    ensures
        metric_updates(actions) == Seq::<CounterActionView>::empty(),
    decreases actions.len(),
{
    reveal(Seq::filter);
    if actions.len() > 0 {
        lemma_no_metric_updates(actions.drop_last());
        assert(!(actions[actions.len() - 1] is Update));
    }
}

/// The place of a transaction in its chunk shows in warnings alone.
proof fn lemma_updates_of_transaction_elsewhere(
    txn: Option<Transaction>,
    output: TransactionOutput,
    size: Option<u64>,
    other_size: Option<u64>,
    index: usize,
    other_index: usize,
    process_type: Seq<char>,
    detailed: bool,
)
    requires
        detailed ==> size == other_size,
    ensures
        metric_updates(transaction_actions(txn, output, size, index, process_type, detailed))
            == metric_updates(
            transaction_actions(txn, output, other_size, other_index, process_type, detailed),
        ),
{
    let labels = status_labels(output.status, detailed);
    let size = size_actions(size, process_type, detailed);
    let one = discard_actions(output, index);
    let other = discard_actions(output, other_index);
    let count = seq![count_action(txn, labels, process_type)];
    let failure = failure_actions(labels, process_type, detailed);
    let kind = kind_actions(txn, labels.state, process_type, detailed);
    let events = event_actions(output.events@, process_type, detailed);
    assert(size == size_actions(other_size, process_type, detailed));
    lemma_no_metric_updates(one);
    lemma_no_metric_updates(other);
    lemma_updates_of_six(size, one, count, failure, kind, events);
    lemma_updates_of_six(size, other, count, failure, kind, events);
}

proof fn lemma_updates_of_six(
    a: Seq<CounterActionView>,
    b: Seq<CounterActionView>,
    c: Seq<CounterActionView>,
    d: Seq<CounterActionView>,
    e: Seq<CounterActionView>,
    f: Seq<CounterActionView>,
)
    ensures
        metric_updates(a + b + c + d + e + f) == metric_updates(a) + metric_updates(b)
            + metric_updates(c) + metric_updates(d) + metric_updates(e) + metric_updates(f),
{
    lemma_updates_of_concatenation(a, b);
    lemma_updates_of_concatenation(a + b, c);
    lemma_updates_of_concatenation(a + b + c, d);
    lemma_updates_of_concatenation(a + b + c + d, e);
    lemma_updates_of_concatenation(a + b + c + d + e, f);
}

/// The warning of a chunk about its lengths is no change of a metric.
proof fn lemma_updates_of_chunk(
    txns: Seq<Option<Transaction>>,
    outputs: Seq<TransactionOutput>,
    sizes: Seq<Option<u64>>,
    process_type: Seq<char>,
    detailed: bool,
)
    ensures
        metric_updates(chunk_actions(txns, outputs, sizes, process_type, detailed))
            == metric_updates(
            all_transaction_actions(
                txns,
                outputs,
                sizes,
                num_processed(txns.len(), outputs.len()),
                process_type,
                detailed,
            ),
        ),
{
    let warning = if txns.len() == outputs.len() {
        Seq::empty()
    } else {
        seq![
            CounterActionView::WarnLengthMismatch {
                transactions: txns.len() as usize,
                outputs: outputs.len() as usize,
            },
        ]
    };
    let actions = all_transaction_actions(
        txns,
        outputs,
        sizes,
        num_processed(txns.len(), outputs.len()),
        process_type,
        detailed,
    );
    lemma_no_metric_updates(warning);
    lemma_updates_of_concatenation(warning, actions);
    assert(metric_updates(warning) + metric_updates(actions) =~= metric_updates(actions));
}

/// The first transactions of two chunks put together count as those of the first.
proof fn lemma_updates_of_first_chunk(
    txns: Seq<Option<Transaction>>,
    outputs: Seq<TransactionOutput>,
    sizes: Seq<Option<u64>>,
    more_txns: Seq<Option<Transaction>>,
    more_outputs: Seq<TransactionOutput>,
    more_sizes: Seq<Option<u64>>,
    n: nat,
    process_type: Seq<char>,
    detailed: bool,
)
    requires
        n <= txns.len(),
        n <= outputs.len(),
        detailed ==> n <= sizes.len(),
    ensures
        metric_updates(
            all_transaction_actions(
                txns + more_txns,
                outputs + more_outputs,
                sizes + more_sizes,
                n,
                process_type,
                detailed,
            ),
        ) == metric_updates(
            all_transaction_actions(txns, outputs, sizes, n, process_type, detailed),
        ),
    decreases n,
{
    if n > 0 {
        let m = (n - 1) as nat;
        lemma_updates_of_first_chunk(
            txns,
            outputs,
            sizes,
            more_txns,
            more_outputs,
            more_sizes,
            m,
            process_type,
            detailed,
        );
        let all_sizes = sizes + more_sizes;
        let one = transaction_actions(
            txns[n - 1],
            outputs[n - 1],
            sizes[n - 1],
            m as usize,
            process_type,
            detailed,
        );
        let both = transaction_actions(
            (txns + more_txns)[n - 1],
            (outputs + more_outputs)[n - 1],
            all_sizes[n - 1],
            m as usize,
            process_type,
            detailed,
        );
        lemma_updates_of_transaction_elsewhere(
            txns[n - 1],
            outputs[n - 1],
            sizes[n - 1],
            all_sizes[n - 1],
            m as usize,
            m as usize,
            process_type,
            detailed,
        );
        lemma_updates_of_concatenation(
            all_transaction_actions(txns, outputs, sizes, m, process_type, detailed),
            one,
        );
        lemma_updates_of_concatenation(
            all_transaction_actions(
                txns + more_txns,
                outputs + more_outputs,
                all_sizes,
                m,
                process_type,
                detailed,
            ),
            both,
        );
    }
}

/// The transactions of two chunks put together count as those of the first and then
/// those of the second.
proof fn lemma_updates_of_both_chunks(
    txns: Seq<Option<Transaction>>,
    outputs: Seq<TransactionOutput>,
    sizes: Seq<Option<u64>>,
    more_txns: Seq<Option<Transaction>>,
    more_outputs: Seq<TransactionOutput>,
    more_sizes: Seq<Option<u64>>,
    n: nat,
    process_type: Seq<char>,
    detailed: bool,
)
    requires
        txns.len() == outputs.len(),
        detailed ==> sizes.len() == outputs.len(),
        n <= more_txns.len(),
        n <= more_outputs.len(),
        detailed ==> n <= more_sizes.len(),
    ensures
        metric_updates(
            all_transaction_actions(
                txns + more_txns,
                outputs + more_outputs,
                sizes + more_sizes,
                txns.len() + n,
                process_type,
                detailed,
            ),
        ) == metric_updates(
            all_transaction_actions(txns, outputs, sizes, txns.len(), process_type, detailed),
        ) + metric_updates(
            all_transaction_actions(
                more_txns,
                more_outputs,
                more_sizes,
                n,
                process_type,
                detailed,
            ),
        ),
    decreases n,
{
    let first = metric_updates(
        all_transaction_actions(txns, outputs, sizes, txns.len(), process_type, detailed),
    );
    if n == 0 {
        lemma_updates_of_first_chunk(
            txns,
            outputs,
            sizes,
            more_txns,
            more_outputs,
            more_sizes,
            txns.len(),
            process_type,
            detailed,
        );
        lemma_no_metric_updates(Seq::empty());
        assert(first + Seq::<CounterActionView>::empty() =~= first);
    } else {
        let m = (n - 1) as nat;
        lemma_updates_of_both_chunks(
            txns,
            outputs,
            sizes,
            more_txns,
            more_outputs,
            more_sizes,
            m,
            process_type,
            detailed,
        );
        let k = txns.len() + m;
        let all_txns = txns + more_txns;
        let all_outputs = outputs + more_outputs;
        let all_sizes = sizes + more_sizes;
        assert(all_txns[k as int] == more_txns[m as int]);
        assert(all_outputs[k as int] == more_outputs[m as int]);
        assert(detailed ==> all_sizes[k as int] == more_sizes[m as int]);
        lemma_updates_of_transaction_elsewhere(
            more_txns[m as int],
            more_outputs[m as int],
            all_sizes[k as int],
            more_sizes[m as int],
            k as usize,
            m as usize,
            process_type,
            detailed,
        );
        let more = all_transaction_actions(
            more_txns,
            more_outputs,
            more_sizes,
            m,
            process_type,
            detailed,
        );
        let one = transaction_actions(
            more_txns[m as int],
            more_outputs[m as int],
            more_sizes[m as int],
            m as usize,
            process_type,
            detailed,
        );
        lemma_updates_of_concatenation(
            all_transaction_actions(all_txns, all_outputs, all_sizes, k, process_type, detailed),
            transaction_actions(
                all_txns[k as int],
                all_outputs[k as int],
                all_sizes[k as int],
                k as usize,
                process_type,
                detailed,
            ),
        );
        lemma_updates_of_concatenation(more, one);
        assert(first + metric_updates(more) + metric_updates(one) =~= first + (metric_updates(more)
            + metric_updates(one)));
    }
}

/// Counters add up: two chunks put together move the metrics just as the first chunk
/// and then the second do.
pub proof fn counters_add_up_over_chunks(
    txns: Seq<Option<Transaction>>,
    outputs: Seq<TransactionOutput>,
    sizes: Seq<Option<u64>>,
    more_txns: Seq<Option<Transaction>>,
    more_outputs: Seq<TransactionOutput>,
    more_sizes: Seq<Option<u64>>,
    process_type: Seq<char>,
    detailed: bool,
)
    requires
        txns.len() == outputs.len(),
        detailed ==> sizes.len() == outputs.len(),
        detailed ==> more_sizes.len() == more_outputs.len(),
    ensures
        metric_updates(
            chunk_actions(
                txns + more_txns,
                outputs + more_outputs,
                sizes + more_sizes,
                process_type,
                detailed,
            ),
        ) == metric_updates(chunk_actions(txns, outputs, sizes, process_type, detailed))
            + metric_updates(
            chunk_actions(more_txns, more_outputs, more_sizes, process_type, detailed),
        ),
{
    lemma_updates_of_chunk(txns, outputs, sizes, process_type, detailed);
    lemma_updates_of_chunk(more_txns, more_outputs, more_sizes, process_type, detailed);
    lemma_updates_of_chunk(
        txns + more_txns,
        outputs + more_outputs,
        sizes + more_sizes,
        process_type,
        detailed,
    );
    lemma_updates_of_both_chunks(
        txns,
        outputs,
        sizes,
        more_txns,
        more_outputs,
        more_sizes,
        num_processed(more_txns.len(), more_outputs.len()),
        process_type,
        detailed,
    );
}

} // verus!
