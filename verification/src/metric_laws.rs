//! What each metric tells of a chunk.

use crate::chunk_counters::{
    action_views, all_authenticator_actions, all_transaction_actions, authenticator_actions,
    can_be_detailed, chunk_actions,
    count_action, discard_actions, event_action, event_actions, failure_actions, kind_actions, num_processed,
    observation, outputs_of, payload_actions, signature_count, signatures_countable, size_actions,
    status_labels, transaction_actions, transactions_of, user_actions, CounterAction, CounterActionView, Metric, MetricChange,
};
use crate::hash::AccountAddress;
use crate::output::{ContractEvent, TransactionOutput, TransactionOutputProvider};
use crate::status::{ExecutionStatus, TransactionStatus};
use crate::text::{decimal, lowercase};
use crate::transaction::{
    AccountAuthenticator, Transaction, TransactionPayload, TransactionProvider, UserTransaction,
};
use vstd::prelude::*;

verus! {

/// Whether `action` changes `metric`.
pub open spec fn is_update_of(action: CounterActionView, metric: Metric) -> bool {
    action matches CounterActionView::Update { metric: m, .. } && m == metric
}

/// The changes of `metric` among `actions`, in their order.
pub open spec fn of_metric(actions: Seq<CounterActionView>, metric: Metric) -> Seq<
    CounterActionView,
> {
    actions.filter(|a: CounterActionView| is_update_of(a, metric))
}

/// The first `n` of some parts, one after the other.
pub open spec fn gathered(n: nat, part: spec_fn(int) -> Seq<CounterActionView>) -> Seq<
    CounterActionView,
>
    decreases n,
{
    if n == 0 {
        Seq::empty()
    } else {
        gathered((n - 1) as nat, part) + part(n - 1)
    }
}

/// The smaller of two lengths.
pub open spec fn shorter(a: nat, b: nat) -> nat {
    if a < b {
        a
    } else {
        b
    }
}

/// A counter that grows by `amount` under `labels`.
pub open spec fn grows(
    metric: Metric,
    labels: Seq<Seq<char>>,
    amount: u64,
) -> CounterActionView {
    CounterActionView::Update { metric, labels, change: MetricChange::Increment(amount) }
}

/// A histogram that takes in `value` under `labels`.
pub open spec fn takes_in(metric: Metric, labels: Seq<Seq<char>>, value: u64) -> CounterActionView {
    CounterActionView::Update { metric, labels, change: MetricChange::Observe(value) }
}

proof fn lemma_keeps_all(actions: Seq<CounterActionView>, metric: Metric)
    requires
        forall|i: int| 0 <= i < actions.len() ==> is_update_of(#[trigger] actions[i], metric),
    ensures
        of_metric(actions, metric) == actions,
    decreases actions.len(),
{
    reveal(Seq::filter);
    if actions.len() > 0 {
        assert forall|i: int| 0 <= i < actions.drop_last().len() implies is_update_of(
            #[trigger] actions.drop_last()[i],
            metric,
        ) by {
            assert(is_update_of(actions[i], metric));
        }
        lemma_keeps_all(actions.drop_last(), metric);
        assert(is_update_of(actions[actions.len() - 1], metric));
        assert(actions.drop_last().push(actions.last()) =~= actions);
    } else {
        assert(of_metric(actions, metric) =~= actions);
    }
}

proof fn lemma_keeps_none(actions: Seq<CounterActionView>, metric: Metric)
    requires
        forall|i: int| 0 <= i < actions.len() ==> !is_update_of(#[trigger] actions[i], metric),
    ensures
        of_metric(actions, metric) == Seq::<CounterActionView>::empty(),
    decreases actions.len(),
{
    reveal(Seq::filter);
    if actions.len() > 0 {
        assert forall|i: int| 0 <= i < actions.drop_last().len() implies !is_update_of(
            #[trigger] actions.drop_last()[i],
            metric,
        ) by {
            assert(!is_update_of(actions[i], metric));
        }
        lemma_keeps_none(actions.drop_last(), metric);
        assert(!is_update_of(actions[actions.len() - 1], metric));
    }
}

/// Of actions that all change one metric, all are changes of it and none of another.
proof fn lemma_one_metric(actions: Seq<CounterActionView>, metric: Metric, other: Metric)
    requires
        forall|i: int| 0 <= i < actions.len() ==> is_update_of(#[trigger] actions[i], metric),
    ensures
        of_metric(actions, other) == if other == metric {
            actions
        } else {
            Seq::empty()
        },
{
    if other == metric {
        lemma_keeps_all(actions, metric);
    } else {
        assert forall|i: int| 0 <= i < actions.len() implies !is_update_of(
            #[trigger] actions[i],
            other,
        ) by {
            assert(is_update_of(actions[i], metric));
        }
        lemma_keeps_none(actions, other);
    }
}

proof fn lemma_both(a: Seq<CounterActionView>, b: Seq<CounterActionView>, metric: Metric)
    ensures
        of_metric(a + b, metric) == of_metric(a, metric) + of_metric(b, metric),
{
    Seq::filter_distributes_over_add(a, b, |x: CounterActionView| is_update_of(x, metric));
}

proof fn lemma_six(
    a: Seq<CounterActionView>,
    b: Seq<CounterActionView>,
    c: Seq<CounterActionView>,
    d: Seq<CounterActionView>,
    e: Seq<CounterActionView>,
    f: Seq<CounterActionView>,
    metric: Metric,
)
    ensures
        of_metric(a + b + c + d + e + f, metric) == of_metric(a, metric) + of_metric(b, metric)
            + of_metric(c, metric) + of_metric(d, metric) + of_metric(e, metric) + of_metric(
            f,
            metric,
        ),
{
    lemma_both(a, b, metric);
    lemma_both(a + b, c, metric);
    lemma_both(a + b + c, d, metric);
    lemma_both(a + b + c + d, e, metric);
    lemma_both(a + b + c + d + e, f, metric);
}

proof fn lemma_gathered_agree(
    n: nat,
    f: spec_fn(int) -> Seq<CounterActionView>,
    g: spec_fn(int) -> Seq<CounterActionView>,
)
    requires
        forall|i: int| 0 <= i < n ==> #[trigger] f(i) == g(i),
    ensures
        gathered(n, f) == gathered(n, g),
    decreases n,
{
    if n > 0 {
        lemma_gathered_agree((n - 1) as nat, f, g);
        assert(f(n - 1) == g(n - 1));
    }
}

/// The changes of a metric for a chunk are those for its transactions.
proof fn lemma_chunk(
    txns: Seq<Option<Transaction>>,
    outputs: Seq<TransactionOutput>,
    sizes: Seq<Option<u64>>,
    process_type: Seq<char>,
    detailed: bool,
    metric: Metric,
)
    ensures
        of_metric(chunk_actions(txns, outputs, sizes, process_type, detailed), metric) == gathered(
            shorter(txns.len(), outputs.len()),
            |i: int|
                of_metric(
                    transaction_actions(
                        txns[i],
                        outputs[i],
                        sizes[i],
                        i as usize,
                        process_type,
                        detailed,
                    ),
                    metric,
                ),
        ),
{
    let n = shorter(txns.len(), outputs.len());
    assert(n == num_processed(txns.len(), outputs.len()));
    let actions = all_transaction_actions(txns, outputs, sizes, n, process_type, detailed);
    let warning = if txns.len() == outputs.len() {
        Seq::empty()
    } else {
        seq![
            CounterActionView::WarnLengthMismatch {
                transactions: txns.len() as usize,
                outputs: outputs.len() as usize,
            },
        ]
    };
    lemma_keeps_none(warning, metric);
    lemma_both(warning, actions, metric);
    assert(of_metric(warning, metric) + of_metric(actions, metric) =~= of_metric(actions, metric));
    lemma_transactions(txns, outputs, sizes, n, process_type, detailed, metric);
}

proof fn lemma_transactions(
    txns: Seq<Option<Transaction>>,
    outputs: Seq<TransactionOutput>,
    sizes: Seq<Option<u64>>,
    n: nat,
    process_type: Seq<char>,
    detailed: bool,
    metric: Metric,
)
    ensures
        of_metric(
            all_transaction_actions(txns, outputs, sizes, n, process_type, detailed),
            metric,
        ) == gathered(
            n,
            |i: int|
                of_metric(
                    transaction_actions(
                        txns[i],
                        outputs[i],
                        sizes[i],
                        i as usize,
                        process_type,
                        detailed,
                    ),
                    metric,
                ),
        ),
    decreases n,
{
    if n > 0 {
        let m = (n - 1) as nat;
        lemma_transactions(txns, outputs, sizes, m, process_type, detailed, metric);
        lemma_both(
            all_transaction_actions(txns, outputs, sizes, m, process_type, detailed),
            transaction_actions(
                txns[n - 1],
                outputs[n - 1],
                sizes[n - 1],
                m as usize,
                process_type,
                detailed,
            ),
            metric,
        );
    } else {
        lemma_keeps_none(Seq::empty(), metric);
    }
}

/// The changes of a metric for one transaction, from the parts of what is done for it.
proof fn lemma_transaction(
    txn: Option<Transaction>,
    output: TransactionOutput,
    size: Option<u64>,
    index: usize,
    process_type: Seq<char>,
    detailed: bool,
    metric: Metric,
)
    ensures
        ({
            let labels = status_labels(output.status, detailed);
            let changes = of_metric(
                transaction_actions(txn, output, size, index, process_type, detailed),
                metric,
            );
            match metric {
                Metric::ProcessedTxnsOutputSize => {
                    changes == size_actions(size, process_type, detailed)
                },
                Metric::ProcessedTxnsCount => changes == seq![
                    count_action(txn, labels, process_type),
                ],
                Metric::ProcessedFailedTxnsReasonCount => changes == failure_actions(
                    labels,
                    process_type,
                    detailed,
                ),
                Metric::ProcessedUserTxnsCoreEvents => changes == event_actions(
                    output.events@,
                    process_type,
                    detailed,
                ),
                _ => changes == of_metric(
                    kind_actions(txn, labels.state, process_type, detailed),
                    metric,
                ),
            }
        }),
{
    let labels = status_labels(output.status, detailed);
    let sizes = size_actions(size, process_type, detailed);
    let discard = discard_actions(output, index);
    let count = seq![count_action(txn, labels, process_type)];
    let failure = failure_actions(labels, process_type, detailed);
    let kind = kind_actions(txn, labels.state, process_type, detailed);
    let events = event_actions(output.events@, process_type, detailed);
    lemma_six(sizes, discard, count, failure, kind, events, metric);
    lemma_one_metric(sizes, Metric::ProcessedTxnsOutputSize, metric);
    lemma_keeps_none(discard, metric);
    lemma_one_metric(count, Metric::ProcessedTxnsCount, metric);
    lemma_one_metric(failure, Metric::ProcessedFailedTxnsReasonCount, metric);
    lemma_one_metric(events, Metric::ProcessedUserTxnsCoreEvents, metric);
    lemma_kind(txn, labels.state, process_type, detailed, metric);
    let e = Seq::<CounterActionView>::empty();
    let changes = of_metric(
        transaction_actions(txn, output, size, index, process_type, detailed),
        metric,
    );
    match metric {
        Metric::ProcessedTxnsOutputSize => {
            assert(changes =~= sizes);
        },
        Metric::ProcessedTxnsCount => {
            assert(changes =~= count);
        },
        Metric::ProcessedFailedTxnsReasonCount => {
            assert(changes =~= failure);
        },
        Metric::ProcessedUserTxnsCoreEvents => {
            assert(changes =~= events);
        },
        _ => {
            assert(changes =~= of_metric(kind, metric));
        },
    }
}

/// The changes for the kind of a transaction, by metric.
proof fn lemma_kind(
    txn: Option<Transaction>,
    state: Seq<char>,
    process_type: Seq<char>,
    detailed: bool,
    metric: Metric,
)
    ensures
        match txn {
            Some(Transaction::UserTransaction(user)) => of_metric(
                kind_actions(txn, state, process_type, detailed),
                metric,
            ) == user_changes(user, state, process_type, detailed, metric),
            _ => of_metric(kind_actions(txn, state, process_type, detailed), metric).len() == 0,
        },
        is_for_any_kind(metric) ==> of_metric(
            kind_actions(txn, state, process_type, detailed),
            metric,
        ).len() == 0,
{
    if let Some(Transaction::UserTransaction(user)) = txn {
        lemma_user(user, state, process_type, detailed, metric);
    } else {
        lemma_keeps_none(Seq::empty(), metric);
    }
}

/// Whether a metric does not depend on the kind of a transaction.
spec fn is_for_any_kind(metric: Metric) -> bool {
    ||| metric == Metric::ProcessedTxnsOutputSize
    ||| metric == Metric::ProcessedTxnsCount
    ||| metric == Metric::ProcessedFailedTxnsReasonCount
    ||| metric == Metric::ProcessedUserTxnsCoreEvents
}

/// The changes of a metric for a user transaction.
spec fn user_changes(
    user: UserTransaction,
    state: Seq<char>,
    process_type: Seq<char>,
    detailed: bool,
    metric: Metric,
) -> Seq<CounterActionView> {
    match metric {
        Metric::ProcessedTxnsAuthenticator => if detailed {
            all_authenticator_actions(user.authenticators@, process_type)
        } else {
            Seq::empty()
        },
        Metric::ProcessedTxnsNumAuthenticators => if detailed {
            seq![
                observation(
                    Metric::ProcessedTxnsNumAuthenticators,
                    seq![process_type],
                    signature_count(user.authenticators@) as u64,
                ),
            ]
        } else {
            Seq::empty()
        },
        _ => of_metric(payload_actions(user.payload, state, process_type, detailed), metric),
    }
}

proof fn lemma_payload_metrics(
    payload: TransactionPayload,
    state: Seq<char>,
    process_type: Seq<char>,
    detailed: bool,
    metric: Metric,
)
    requires
        is_for_any_kind(metric) || metric == Metric::ProcessedTxnsAuthenticator || metric
            == Metric::ProcessedTxnsNumAuthenticators,
    ensures
        of_metric(payload_actions(payload, state, process_type, detailed), metric) == Seq::<
            CounterActionView,
        >::empty(),
{
    lemma_keeps_none(payload_actions(payload, state, process_type, detailed), metric);
}

proof fn lemma_user(
    user: UserTransaction,
    state: Seq<char>,
    process_type: Seq<char>,
    detailed: bool,
    metric: Metric,
)
    ensures
        of_metric(user_actions(user, state, process_type, detailed), metric) == user_changes(
            user,
            state,
            process_type,
            detailed,
            metric,
        ),
        is_for_any_kind(metric) ==> user_changes(
            user,
            state,
            process_type,
            detailed,
            metric,
        ).len() == 0,
{
    let signers = all_authenticator_actions(user.authenticators@, process_type);
    let total = observation(
        Metric::ProcessedTxnsNumAuthenticators,
        seq![process_type],
        signature_count(user.authenticators@) as u64,
    );
    let payload = payload_actions(user.payload, state, process_type, detailed);
    let first = if detailed {
        signers.push(total)
    } else {
        Seq::empty()
    };
    if is_for_any_kind(metric) || metric == Metric::ProcessedTxnsAuthenticator || metric
        == Metric::ProcessedTxnsNumAuthenticators {
        lemma_payload_metrics(user.payload, state, process_type, detailed, metric);
    }
    lemma_signers(user.authenticators@, process_type);
    lemma_first(signers, total, metric);
    lemma_keeps_none(Seq::empty(), metric);
    lemma_both(first, payload, metric);
    assert(user_actions(user, state, process_type, detailed) == first + payload);
    assert(of_metric(first, metric) + of_metric(payload, metric) =~= user_changes(
        user,
        state,
        process_type,
        detailed,
        metric,
    ));
}

proof fn lemma_first(signers: Seq<CounterActionView>, total: CounterActionView, metric: Metric)
    requires
        is_update_of(total, Metric::ProcessedTxnsNumAuthenticators),
        forall|i: int|
            0 <= i < signers.len() ==> is_update_of(
                #[trigger] signers[i],
                Metric::ProcessedTxnsAuthenticator,
            ),
    ensures
        of_metric(signers.push(total), metric) == match metric {
            Metric::ProcessedTxnsAuthenticator => signers,
            Metric::ProcessedTxnsNumAuthenticators => seq![total],
            _ => Seq::empty(),
        },
{
    let last = seq![total];
    lemma_one_metric(signers, Metric::ProcessedTxnsAuthenticator, metric);
    lemma_one_metric(last, Metric::ProcessedTxnsNumAuthenticators, metric);
    lemma_both(signers, last, metric);
    assert(signers.push(total) =~= signers + last);
    let e = Seq::<CounterActionView>::empty();
    assert(signers + e =~= signers);
    assert(e + last =~= last);
    assert(e + e =~= e);
}

proof fn lemma_signers(authenticators: Seq<AccountAuthenticator>, process_type: Seq<char>)
    ensures
        forall|i: int|
            0 <= i < all_authenticator_actions(authenticators, process_type).len() ==> is_update_of(
                #[trigger] all_authenticator_actions(authenticators, process_type)[i],
                Metric::ProcessedTxnsAuthenticator,
            ),
    decreases authenticators.len(),
{
    if authenticators.len() > 0 {
        let earlier = all_authenticator_actions(authenticators.drop_last(), process_type);
        let last = authenticator_actions(authenticators.last(), process_type);
        lemma_signers(authenticators.drop_last(), process_type);
        assert forall|i: int| 0 <= i < (earlier + last).len() implies is_update_of(
            #[trigger] (earlier + last)[i],
            Metric::ProcessedTxnsAuthenticator,
        ) by {
            if i < earlier.len() {
                assert(is_update_of(earlier[i], Metric::ProcessedTxnsAuthenticator));
            } else {
                assert(is_update_of(
                    last[i - earlier.len()],
                    Metric::ProcessedTxnsAuthenticator,
                ));
            }
        }
    }
}

/// The label of what became of a transaction: it goes by the status alone.
pub open spec fn state_text(status: TransactionStatus) -> Seq<char> {
    match status {
        TransactionStatus::Keep(execution) => if execution == ExecutionStatus::Success {
            "keep_success"@
        } else {
            "keep_rejected"@
        },
        TransactionStatus::Retry => "retry"@,
        TransactionStatus::Discard(code) => if code.number() == 3 {
            "discard_sequence_number_too_old"@
        } else if code.number() == 4 {
            "discard_sequence_number_too_new"@
        } else if code.number() == 6 {
            "discard_transaction_expired"@
        } else {
            "discard"@
        },
    }
}

/// The label of the kind of a transaction.
pub open spec fn kind_text(txn: Option<Transaction>) -> Seq<char> {
    if txn is None {
        "unknown"@
    } else {
        match txn->0 {
            Transaction::BlockEpilogue { .. } => "block_epilogue"@,
            Transaction::BlockMetadata(_) => "block_metadata"@,
            Transaction::BlockMetadataExt(_) => "block_metadata_ext"@,
            Transaction::GenesisTransaction(_) => "genesis"@,
            Transaction::StateCheckpoint(_) => "state_checkpoint"@,
            Transaction::UserTransaction(_) => "user_transaction"@,
            Transaction::ValidatorTransaction(_) => "validator_transaction"@,
        }
    }
}

/// The label of the reason why a transaction failed.
pub open spec fn reason_text(status: TransactionStatus) -> Seq<char> {
    match status {
        TransactionStatus::Discard(_) => "error_code"@,
        TransactionStatus::Keep(ExecutionStatus::OutOfGas) => "OutOfGas"@,
        TransactionStatus::Keep(ExecutionStatus::MoveAbort { .. }) => "MoveAbort"@,
        TransactionStatus::Keep(ExecutionStatus::ExecutionFailure { .. }) => "ExecutionFailure"@,
        TransactionStatus::Keep(ExecutionStatus::MiscellaneousError(_)) => "MiscellaneousError"@,
        _ => ""@,
    }
}

/// The label of the error of a transaction, in detail where that is asked for and the
/// error has details.
pub open spec fn error_text(status: TransactionStatus, detailed: bool) -> Seq<char> {
    if status is Retry || status == TransactionStatus::Keep(ExecutionStatus::Success) {
        ""@
    } else if !detailed {
        "error"@
    } else {
        match status {
            TransactionStatus::Discard(code) => lowercase(code.name()),
            TransactionStatus::Keep(ExecutionStatus::MoveAbort { info, .. }) => if info is Some {
                lowercase(info->0.reason_name@)
            } else {
                "none"@
            },
            TransactionStatus::Keep(ExecutionStatus::MiscellaneousError(code)) => if code is Some {
                lowercase(code->0.name())
            } else {
                "none"@
            },
            _ => "error"@,
        }
    }
}

/// The label of a flag.
pub open spec fn flag_text(flag: bool) -> Seq<char> {
    if flag {
        "true"@
    } else {
        "false"@
    }
}

/// Whether all bytes of an address but the last are zero, and the last is one.
pub open spec fn is_address_one(address: AccountAddress) -> bool {
    &&& address.bytes@[31] == 1
    &&& forall|i: int| 0 <= i < 31 ==> #[trigger] address.bytes@[i] == 0
}

proof fn lemma_core(address: AccountAddress)
    ensures
        address.is_core() == is_address_one(address),
{
    let core = crate::hash::core_code_address();
    if is_address_one(address) {
        assert(address.bytes@ =~= core);
    }
    if address.is_core() {
        assert forall|i: int| 0 <= i < 31 implies #[trigger] address.bytes@[i] == 0 by {
            assert(core[i] == 0);
        }
        assert(core[31] == 1);
    }
}

proof fn lemma_labels(status: TransactionStatus, detailed: bool)
    ensures
        status_labels(status, detailed).state == state_text(status),
        status_labels(status, detailed).reason == reason_text(status),
        status_labels(status, detailed).error_code == error_text(status, detailed),
{
}

/// What one transaction is counted as.
pub open spec fn count_told(
    txn: Option<Transaction>,
    output: TransactionOutput,
    process_type: Seq<char>,
) -> CounterActionView {
    grows(
        Metric::ProcessedTxnsCount,
        seq![process_type, kind_text(txn), state_text(output.status)],
        1,
    )
}

proof fn lemma_count_told(
    txn: Option<Transaction>,
    output: TransactionOutput,
    size: Option<u64>,
    index: usize,
    process_type: Seq<char>,
    detailed: bool,
)
    ensures
        of_metric(
            transaction_actions(txn, output, size, index, process_type, detailed),
            Metric::ProcessedTxnsCount,
        ) == seq![count_told(txn, output, process_type)],
{
    lemma_transaction(
        txn,
        output,
        size,
        index,
        process_type,
        detailed,
        Metric::ProcessedTxnsCount,
    );
    lemma_labels(output.status, detailed);
}

/// Each transaction with an output is counted once, under the way it was processed, its
/// kind and what became of it: the kind does not depend on the output, and what became of
/// it goes by the status alone.
pub proof fn transactions_are_counted_by_kind_and_status(
    txns: Seq<Option<Transaction>>,
    outputs: Seq<TransactionOutput>,
    sizes: Seq<Option<u64>>,
    process_type: Seq<char>,
    detailed: bool,
)
    ensures
        of_metric(
            chunk_actions(txns, outputs, sizes, process_type, detailed),
            Metric::ProcessedTxnsCount,
        ) == gathered(
            shorter(txns.len(), outputs.len()),
            |i: int|
                seq![count_told(txns[i], outputs[i], process_type)],
        ),
{
    let n = shorter(txns.len(), outputs.len());
    let metric = Metric::ProcessedTxnsCount;
    let parts = |i: int|
        of_metric(
            transaction_actions(
                txns[i],
                outputs[i],
                sizes[i],
                i as usize,
                process_type,
                detailed,
            ),
            metric,
        );
    let told = |i: int|
        seq![count_told(txns[i], outputs[i], process_type)];
    lemma_chunk(txns, outputs, sizes, process_type, detailed, metric);
    assert forall|i: int| 0 <= i < n implies #[trigger] parts(i) == told(i) by {
        lemma_count_told(
            txns[i],
            outputs[i],
            sizes[i],
            i as usize,
            process_type,
            detailed,
        );
    }
    lemma_gathered_agree(n, parts, told);
}

/// How many of `actions` are counted under the state `state`.
pub open spec fn num_counted_as(actions: Seq<CounterActionView>, state: Seq<char>) -> nat
    decreases actions.len(),
{
    if actions.len() == 0 {
        0
    } else {
        num_counted_as(actions.drop_last(), state) + (match actions.last() {
            CounterActionView::Update { labels, .. } if labels.len() == 3 && labels[2]
                == state => 1nat,
            _ => 0nat,
        })
    }
}

/// How many of the first `n` outputs are of transactions that succeeded.
pub open spec fn num_successes(outputs: Seq<TransactionOutput>, n: nat) -> nat
    decreases n,
{
    if n == 0 {
        0
    } else {
        num_successes(outputs, (n - 1) as nat) + (if outputs[n - 1].status
            == TransactionStatus::Keep(ExecutionStatus::Success) {
            1nat
        } else {
            0nat
        })
    }
}

/// As many transactions are counted as successes as have the status of one.
pub proof fn successes_are_counted_as_such(
    txns: Seq<Option<Transaction>>,
    outputs: Seq<TransactionOutput>,
    sizes: Seq<Option<u64>>,
    process_type: Seq<char>,
    detailed: bool,
)
    ensures
        num_counted_as(
            of_metric(
                chunk_actions(txns, outputs, sizes, process_type, detailed),
                Metric::ProcessedTxnsCount,
            ),
            "keep_success"@,
        ) == num_successes(outputs, shorter(txns.len(), outputs.len())),
{
    transactions_are_counted_by_kind_and_status(txns, outputs, sizes, process_type, detailed);
    lemma_counted(txns, outputs, process_type, shorter(txns.len(), outputs.len()));
}

proof fn lemma_counted(
    txns: Seq<Option<Transaction>>,
    outputs: Seq<TransactionOutput>,
    process_type: Seq<char>,
    n: nat,
)
    ensures
        num_counted_as(
            gathered(
                n,
                |i: int|
                    seq![count_told(txns[i], outputs[i], process_type)],
            ),
            "keep_success"@,
        ) == num_successes(outputs, n),
    decreases n,
{
    let told = |i: int|
        seq![count_told(txns[i], outputs[i], process_type)];
    if n > 0 {
        lemma_counted(txns, outputs, process_type, (n - 1) as nat);
        let all = gathered(n, told);
        assert(all.drop_last() =~= gathered((n - 1) as nat, told));
        assert(all.last() == told(n - 1)[0]);
        assert(all.last() == count_told(txns[n - 1], outputs[n - 1], process_type));
        let labels = all.last()->labels;
        assert(labels.len() == 3 && labels[2] == state_text(outputs[n - 1].status));
        lemma_state_of_success(outputs[n - 1].status);
    }
}

proof fn lemma_state_of_success(status: TransactionStatus)
    ensures
        state_text(status) == "keep_success"@ <==> status == TransactionStatus::Keep(
            ExecutionStatus::Success,
        ),
{
    reveal_strlit("keep_success");
    reveal_strlit("keep_rejected");
    reveal_strlit("retry");
    reveal_strlit("discard");
    reveal_strlit("discard_sequence_number_too_old");
    reveal_strlit("discard_sequence_number_too_new");
    reveal_strlit("discard_transaction_expired");
    assert("keep_success"@.len() == 12);
    assert("keep_rejected"@.len() == 13);
}

/// Each transaction that neither succeeded nor is tried again is counted as failed once,
/// with its reason and its error, whatever its kind; unless its error has an empty name.
pub proof fn failures_are_counted_by_reason_and_error(
    txns: Seq<Option<Transaction>>,
    outputs: Seq<TransactionOutput>,
    sizes: Seq<Option<u64>>,
    process_type: Seq<char>,
    detailed: bool,
)
    ensures
        of_metric(
            chunk_actions(txns, outputs, sizes, process_type, detailed),
            Metric::ProcessedFailedTxnsReasonCount,
        ) == gathered(
            shorter(txns.len(), outputs.len()),
            |i: int|
                if error_text(outputs[i].status, detailed).len() == 0 {
                    Seq::empty()
                } else {
                    seq![
                        grows(
                            Metric::ProcessedFailedTxnsReasonCount,
                            seq![
                                flag_text(detailed),
                                process_type,
                                state_text(outputs[i].status),
                                reason_text(outputs[i].status),
                                error_text(outputs[i].status, detailed),
                            ],
                            1,
                        ),
                    ]
                },
        ),
{
    let n = shorter(txns.len(), outputs.len());
    let metric = Metric::ProcessedFailedTxnsReasonCount;
    let parts = |i: int|
        of_metric(
            transaction_actions(
                txns[i],
                outputs[i],
                sizes[i],
                i as usize,
                process_type,
                detailed,
            ),
            metric,
        );
    let told = |i: int|
        if error_text(outputs[i].status, detailed).len() == 0 {
            Seq::empty()
        } else {
            seq![
                grows(
                    Metric::ProcessedFailedTxnsReasonCount,
                    seq![
                        flag_text(detailed),
                        process_type,
                        state_text(outputs[i].status),
                        reason_text(outputs[i].status),
                        error_text(outputs[i].status, detailed),
                    ],
                    1,
                ),
            ]
        };
    lemma_chunk(txns, outputs, sizes, process_type, detailed, metric);
    assert forall|i: int| 0 <= i < n implies #[trigger] parts(i) == told(i) by {
        lemma_transaction(
            txns[i],
            outputs[i],
            sizes[i],
            i as usize,
            process_type,
            detailed,
            metric,
        );
        lemma_labels(outputs[i].status, detailed);
    }
    lemma_gathered_agree(n, parts, told);
}

/// With detailed counters the size of every output that has one is observed, whatever
/// the transaction; without, none is.
pub proof fn every_size_is_observed(
    txns: Seq<Option<Transaction>>,
    outputs: Seq<TransactionOutput>,
    sizes: Seq<Option<u64>>,
    process_type: Seq<char>,
    detailed: bool,
)
    ensures
        of_metric(
            chunk_actions(txns, outputs, sizes, process_type, detailed),
            Metric::ProcessedTxnsOutputSize,
        ) == gathered(
            shorter(txns.len(), outputs.len()),
            |i: int|
                if detailed && sizes[i] is Some {
                    seq![
                        takes_in(
                            Metric::ProcessedTxnsOutputSize,
                            seq![process_type],
                            sizes[i]->0,
                        ),
                    ]
                } else {
                    Seq::empty()
                },
        ),
{
    let n = shorter(txns.len(), outputs.len());
    let metric = Metric::ProcessedTxnsOutputSize;
    let parts = |i: int|
        of_metric(
            transaction_actions(
                txns[i],
                outputs[i],
                sizes[i],
                i as usize,
                process_type,
                detailed,
            ),
            metric,
        );
    let told = |i: int|
        if detailed && sizes[i] is Some {
            seq![takes_in(Metric::ProcessedTxnsOutputSize, seq![process_type], sizes[i]->0)]
        } else {
            Seq::empty()
        };
    lemma_chunk(txns, outputs, sizes, process_type, detailed, metric);
    assert forall|i: int| 0 <= i < n implies #[trigger] parts(i) == told(i) by {
        lemma_transaction(
            txns[i],
            outputs[i],
            sizes[i],
            i as usize,
            process_type,
            detailed,
            metric,
        );
    }
    lemma_gathered_agree(n, parts, told);
}

/// What one event is counted as.
pub open spec fn event_told(
    event: ContractEvent,
    process_type: Seq<char>,
    detailed: bool,
) -> CounterActionView {
    let from_one = event is V1 && is_address_one(event->creator_address);
    grows(
        Metric::ProcessedUserTxnsCoreEvents,
        seq![
            flag_text(detailed),
            process_type,
            if from_one {
                "core"@
            } else {
                "user"@
            },
            if detailed && event is V1 {
                decimal(event->creation_number as nat)
            } else {
                "event"@
            },
        ],
        1,
    )
}

proof fn lemma_events_told(
    txn: Option<Transaction>,
    output: TransactionOutput,
    size: Option<u64>,
    index: usize,
    process_type: Seq<char>,
    detailed: bool,
)
    ensures
        of_metric(
            transaction_actions(txn, output, size, index, process_type, detailed),
            Metric::ProcessedUserTxnsCoreEvents,
        ) == Seq::new(
            output.events@.len(),
            |e: int| event_told(output.events@[e], process_type, detailed),
        ),
{
    lemma_transaction(
        txn,
        output,
        size,
        index,
        process_type,
        detailed,
        Metric::ProcessedUserTxnsCoreEvents,
    );
    lemma_event_list(output.events@, process_type, detailed);
}

proof fn lemma_event_list(events: Seq<ContractEvent>, process_type: Seq<char>, detailed: bool)
    ensures
        event_actions(events, process_type, detailed) == Seq::new(
            events.len(),
            |e: int| event_told(events[e], process_type, detailed),
        ),
{
    let counted = event_actions(events, process_type, detailed);
    assert forall|e: int| 0 <= e < events.len() implies #[trigger] counted[e] == event_told(
        events[e],
        process_type,
        detailed,
    ) by {
        lemma_event_told(events[e], process_type, detailed);
    }
    assert(counted =~= Seq::new(
        events.len(),
        |e: int| event_told(events[e], process_type, detailed),
    ));
}

proof fn lemma_event_told(event: ContractEvent, process_type: Seq<char>, detailed: bool)
    ensures
        event_action(event, process_type, detailed) == event_told(event, process_type, detailed),
{
    if let ContractEvent::V1 { creator_address, .. } = event {
        lemma_core(creator_address);
    }
}

/// Every event of every transaction with an output is counted once, whatever the
/// transaction and its status.
pub proof fn every_event_is_counted(
    txns: Seq<Option<Transaction>>,
    outputs: Seq<TransactionOutput>,
    sizes: Seq<Option<u64>>,
    process_type: Seq<char>,
    detailed: bool,
)
    ensures
        of_metric(
            chunk_actions(txns, outputs, sizes, process_type, detailed),
            Metric::ProcessedUserTxnsCoreEvents,
        ) == gathered(
            shorter(txns.len(), outputs.len()),
            |i: int|
                Seq::new(
                    outputs[i].events@.len(),
                    |e: int| event_told(outputs[i].events@[e], process_type, detailed),
                ),
        ),
{
    let n = shorter(txns.len(), outputs.len());
    let metric = Metric::ProcessedUserTxnsCoreEvents;
    let parts = |i: int|
        of_metric(
            transaction_actions(
                txns[i],
                outputs[i],
                sizes[i],
                i as usize,
                process_type,
                detailed,
            ),
            metric,
        );
    let told = |i: int|
        Seq::new(
            outputs[i].events@.len(),
            |e: int| event_told(outputs[i].events@[e], process_type, detailed),
        );
    lemma_chunk(txns, outputs, sizes, process_type, detailed, metric);
    assert forall|i: int| 0 <= i < n implies #[trigger] parts(i) == told(i) by {
        lemma_events_told(
            txns[i],
            outputs[i],
            sizes[i],
            i as usize,
            process_type,
            detailed,
        );
    }
    lemma_gathered_agree(n, parts, told);
}

/// The signatures of the first `n` signers.
pub open spec fn signatures_in(authenticators: Seq<AccountAuthenticator>, n: nat) -> nat
    decreases n,
{
    if n == 0 {
        0
    } else {
        signatures_in(authenticators, (n - 1) as nat) + (match authenticators[n - 1] {
            AccountAuthenticator::NoAccountAuthenticator => 0,
            AccountAuthenticator::Ed25519 => 1,
            AccountAuthenticator::SingleKey { .. } => 1,
            AccountAuthenticator::MultiKey { signature_names } => signature_names@.len(),
            AccountAuthenticator::MultiEd25519 { num_signatures } => num_signatures as nat,
        })
    }
}

/// What one signer is counted as: each scheme under its own name.
pub open spec fn signer_told(
    authenticator: AccountAuthenticator,
    process_type: Seq<char>,
) -> Seq<CounterActionView> {
    match authenticator {
        AccountAuthenticator::NoAccountAuthenticator => seq![
            grows(
                Metric::ProcessedTxnsAuthenticator,
                seq![process_type, "NoAccountAuthenticator"@],
                1,
            ),
        ],
        AccountAuthenticator::Ed25519 => seq![
            grows(Metric::ProcessedTxnsAuthenticator, seq![process_type, "Ed25519"@], 1),
        ],
        AccountAuthenticator::MultiEd25519 { num_signatures } => seq![
            grows(
                Metric::ProcessedTxnsAuthenticator,
                seq![process_type, "Ed25519_in_MultiEd25519"@],
                num_signatures as u64,
            ),
        ],
        AccountAuthenticator::SingleKey { signature_name } => seq![
            grows(
                Metric::ProcessedTxnsAuthenticator,
                seq![process_type, signature_name@ + "_in_SingleKey"@],
                1,
            ),
        ],
        AccountAuthenticator::MultiKey { signature_names } => Seq::new(
            signature_names@.len(),
            |k: int|
                grows(
                    Metric::ProcessedTxnsAuthenticator,
                    seq![process_type, signature_names@[k]@ + "_in_MultiKey"@],
                    1,
                ),
        ),
    }
}

proof fn lemma_signers_told(
    authenticators: Seq<AccountAuthenticator>,
    process_type: Seq<char>,
    n: nat,
)
    requires
        n <= authenticators.len(),
    ensures
        all_authenticator_actions(authenticators.take(n as int), process_type) == gathered(
            n,
            |k: int| signer_told(authenticators[k], process_type),
        ),
        signature_count(authenticators.take(n as int)) == signatures_in(authenticators, n),
    decreases n,
{
    if n > 0 {
        let m = (n - 1) as nat;
        lemma_signers_told(authenticators, process_type, m);
        assert(authenticators.take(n as int).drop_last() =~= authenticators.take(m as int));
        assert(authenticators.take(n as int).last() == authenticators[m as int]);
        assert(authenticator_actions(authenticators[m as int], process_type) =~= signer_told(
            authenticators[m as int],
            process_type,
        ));
    }
}

/// With detailed counters every signer of every user transaction with an output is
/// counted, whatever the status; without, none is.
pub proof fn every_signer_is_counted(
    txns: Seq<Option<Transaction>>,
    outputs: Seq<TransactionOutput>,
    sizes: Seq<Option<u64>>,
    process_type: Seq<char>,
    detailed: bool,
)
    ensures
        of_metric(
            chunk_actions(txns, outputs, sizes, process_type, detailed),
            Metric::ProcessedTxnsAuthenticator,
        ) == gathered(
            shorter(txns.len(), outputs.len()),
            |i: int|
                match txns[i] {
                    Some(Transaction::UserTransaction(user)) if detailed => gathered(
                        user.authenticators@.len(),
                        |k: int| signer_told(user.authenticators@[k], process_type),
                    ),
                    _ => Seq::empty(),
                },
        ),
{
    let n = shorter(txns.len(), outputs.len());
    let metric = Metric::ProcessedTxnsAuthenticator;
    let parts = |i: int|
        of_metric(
            transaction_actions(
                txns[i],
                outputs[i],
                sizes[i],
                i as usize,
                process_type,
                detailed,
            ),
            metric,
        );
    let told = |i: int|
        match txns[i] {
            Some(Transaction::UserTransaction(user)) if detailed => gathered(
                user.authenticators@.len(),
                |k: int| signer_told(user.authenticators@[k], process_type),
            ),
            _ => Seq::empty(),
        };
    lemma_chunk(txns, outputs, sizes, process_type, detailed, metric);
    assert forall|i: int| 0 <= i < n implies #[trigger] parts(i) == told(i) by {
        lemma_transaction(
            txns[i],
            outputs[i],
            sizes[i],
            i as usize,
            process_type,
            detailed,
            metric,
        );
        let state = status_labels(outputs[i].status, detailed).state;
        lemma_kind(txns[i], state, process_type, detailed, metric);
        if let Some(Transaction::UserTransaction(user)) = txns[i] {
            let all = user.authenticators@;
            lemma_signers_told(all, process_type, all.len());
            assert(all.take(all.len() as int) =~= all);
        } else {
            assert(parts(i) =~= told(i));
        }
    }
    lemma_gathered_agree(n, parts, told);
}

/// With detailed counters the number of signatures of every user transaction with an
/// output is observed, whatever the status; without, none is.
pub proof fn every_number_of_signatures_is_observed(
    txns: Seq<Option<Transaction>>,
    outputs: Seq<TransactionOutput>,
    sizes: Seq<Option<u64>>,
    process_type: Seq<char>,
    detailed: bool,
)
    ensures
        of_metric(
            chunk_actions(txns, outputs, sizes, process_type, detailed),
            Metric::ProcessedTxnsNumAuthenticators,
        ) == gathered(
            shorter(txns.len(), outputs.len()),
            |i: int|
                match txns[i] {
                    Some(Transaction::UserTransaction(user)) if detailed => seq![
                        takes_in(
                            Metric::ProcessedTxnsNumAuthenticators,
                            seq![process_type],
                            signatures_in(
                                user.authenticators@,
                                user.authenticators@.len(),
                            ) as u64,
                        ),
                    ],
                    _ => Seq::empty(),
                },
        ),
{
    let n = shorter(txns.len(), outputs.len());
    let metric = Metric::ProcessedTxnsNumAuthenticators;
    let parts = |i: int|
        of_metric(
            transaction_actions(
                txns[i],
                outputs[i],
                sizes[i],
                i as usize,
                process_type,
                detailed,
            ),
            metric,
        );
    let told = |i: int|
        match txns[i] {
            Some(Transaction::UserTransaction(user)) if detailed => seq![
                takes_in(
                    Metric::ProcessedTxnsNumAuthenticators,
                    seq![process_type],
                    signatures_in(user.authenticators@, user.authenticators@.len()) as u64,
                ),
            ],
            _ => Seq::empty(),
        };
    lemma_chunk(txns, outputs, sizes, process_type, detailed, metric);
    assert forall|i: int| 0 <= i < n implies #[trigger] parts(i) == told(i) by {
        lemma_transaction(
            txns[i],
            outputs[i],
            sizes[i],
            i as usize,
            process_type,
            detailed,
            metric,
        );
        let state = status_labels(outputs[i].status, detailed).state;
        lemma_kind(txns[i], state, process_type, detailed, metric);
        if let Some(Transaction::UserTransaction(user)) = txns[i] {
            let all = user.authenticators@;
            lemma_signers_told(all, process_type, all.len());
            assert(all.take(all.len() as int) =~= all);
        } else {
            assert(parts(i) =~= told(i));
        }
    }
    lemma_gathered_agree(n, parts, told);
}

/// What the payload of a user transaction is counted as, in one of the metrics.
pub open spec fn payload_told(
    payload: TransactionPayload,
    state: Seq<char>,
    process_type: Seq<char>,
    detailed: bool,
    metric: Metric,
) -> Seq<CounterActionView> {
    match metric {
        Metric::ProcessedUserTxnsByPayload => seq![
            grows(
                metric,
                seq![
                    process_type,
                    match payload {
                        TransactionPayload::EntryFunction { .. } => "function"@,
                        TransactionPayload::ModuleBundle => "deprecated_module_bundle"@,
                        TransactionPayload::Multisig => "multisig"@,
                        TransactionPayload::Script => "script"@,
                    },
                    state,
                ],
                1,
            ),
        ],
        Metric::ProcessedUserTxnsEntryFunctionByModule => if payload is EntryFunction {
            let at_one = is_address_one(payload->module_address);
            seq![
                grows(
                    metric,
                    seq![
                        flag_text(detailed),
                        process_type,
                        if at_one {
                            "core"@
                        } else {
                            "user"@
                        },
                        if detailed {
                            payload->module_name@
                        } else if at_one {
                            "core_module"@
                        } else {
                            "user_module"@
                        },
                        state,
                    ],
                    1,
                ),
            ]
        } else {
            Seq::empty()
        },
        Metric::ProcessedUserTxnsEntryFunctionByCoreMethod => if detailed
            && payload is EntryFunction && is_address_one(payload->module_address) {
            seq![
                grows(
                    metric,
                    seq![process_type, payload->module_name@, payload->function_name@, state],
                    1,
                ),
            ]
        } else {
            Seq::empty()
        },
        _ => Seq::empty(),
    }
}

proof fn lemma_payload(
    payload: TransactionPayload,
    state: Seq<char>,
    process_type: Seq<char>,
    detailed: bool,
    metric: Metric,
)
    ensures
        of_metric(payload_actions(payload, state, process_type, detailed), metric)
            == payload_told(payload, state, process_type, detailed, metric),
{
    let told = payload_told(payload, state, process_type, detailed, metric);
    let actions = payload_actions(payload, state, process_type, detailed);
    let first = payload_told(
        payload,
        state,
        process_type,
        detailed,
        Metric::ProcessedUserTxnsByPayload,
    );
    let second = payload_told(
        payload,
        state,
        process_type,
        detailed,
        Metric::ProcessedUserTxnsEntryFunctionByModule,
    );
    let third = payload_told(
        payload,
        state,
        process_type,
        detailed,
        Metric::ProcessedUserTxnsEntryFunctionByCoreMethod,
    );
    if let TransactionPayload::EntryFunction { module_address, .. } = payload {
        lemma_core(module_address);
    }
    assert(actions =~= first + second + third);
    lemma_one_metric(first, Metric::ProcessedUserTxnsByPayload, metric);
    lemma_one_metric(second, Metric::ProcessedUserTxnsEntryFunctionByModule, metric);
    lemma_one_metric(third, Metric::ProcessedUserTxnsEntryFunctionByCoreMethod, metric);
    lemma_both(first, second, metric);
    lemma_both(first + second, third, metric);
    assert(of_metric(actions, metric) =~= told);
}

/// Every user transaction with an output is counted by its payload, under what became of
/// it: once by the kind of the payload; an entry function also by its module; and one of
/// the core framework, with detailed counters, also by itself.
pub proof fn user_transactions_are_counted_by_payload(
    txns: Seq<Option<Transaction>>,
    outputs: Seq<TransactionOutput>,
    sizes: Seq<Option<u64>>,
    process_type: Seq<char>,
    detailed: bool,
    metric: Metric,
)
    requires
        metric == Metric::ProcessedUserTxnsByPayload || metric
            == Metric::ProcessedUserTxnsEntryFunctionByModule || metric
            == Metric::ProcessedUserTxnsEntryFunctionByCoreMethod,
    ensures
        of_metric(chunk_actions(txns, outputs, sizes, process_type, detailed), metric) == gathered(
            shorter(txns.len(), outputs.len()),
            |i: int|
                match txns[i] {
                    Some(Transaction::UserTransaction(user)) => payload_told(
                        user.payload,
                        state_text(outputs[i].status),
                        process_type,
                        detailed,
                        metric,
                    ),
                    _ => Seq::empty(),
                },
        ),
{
    let n = shorter(txns.len(), outputs.len());
    let parts = |i: int|
        of_metric(
            transaction_actions(
                txns[i],
                outputs[i],
                sizes[i],
                i as usize,
                process_type,
                detailed,
            ),
            metric,
        );
    let told = |i: int|
        match txns[i] {
            Some(Transaction::UserTransaction(user)) => payload_told(
                user.payload,
                state_text(outputs[i].status),
                process_type,
                detailed,
                metric,
            ),
            _ => Seq::empty(),
        };
    lemma_chunk(txns, outputs, sizes, process_type, detailed, metric);
    assert forall|i: int| 0 <= i < n implies #[trigger] parts(i) == told(i) by {
        lemma_transaction(
            txns[i],
            outputs[i],
            sizes[i],
            i as usize,
            process_type,
            detailed,
            metric,
        );
        lemma_labels(outputs[i].status, detailed);
        let state = status_labels(outputs[i].status, detailed).state;
        lemma_kind(txns[i], state, process_type, detailed, metric);
        if let Some(Transaction::UserTransaction(user)) = txns[i] {
            lemma_payload(user.payload, state, process_type, detailed, metric);
        } else {
            assert(parts(i) =~= told(i));
        }
    }
    lemma_gathered_agree(n, parts, told);
}

/// The warnings among `actions`, in their order.
pub open spec fn warnings_of(actions: Seq<CounterActionView>) -> Seq<CounterActionView> {
    actions.filter(|a: CounterActionView| !(a is Update))
}

proof fn lemma_warnings_of_both(a: Seq<CounterActionView>, b: Seq<CounterActionView>)
    ensures
        warnings_of(a + b) == warnings_of(a) + warnings_of(b),
{
    Seq::filter_distributes_over_add(a, b, |x: CounterActionView| !(x is Update));
}

proof fn lemma_no_warnings(actions: Seq<CounterActionView>)
    requires
        forall|i: int| 0 <= i < actions.len() ==> #[trigger] actions[i] is Update,
    ensures
        warnings_of(actions) == Seq::<CounterActionView>::empty(),
    decreases actions.len(),
{
    reveal(Seq::filter);
    if actions.len() > 0 {
        assert forall|i: int| 0 <= i < actions.drop_last().len() implies
            #[trigger] actions.drop_last()[i] is Update by {
            assert(actions[i] is Update);
        }
        lemma_no_warnings(actions.drop_last());
        assert(actions[actions.len() - 1] is Update);
    }
}

/// What is warned of for one transaction: a discard, unless for one of the usual reasons.
pub open spec fn warning_told(output: TransactionOutput, index: int) -> Seq<CounterActionView> {
    match output.status {
        TransactionStatus::Discard(code) => if code.number() != 3 && code.number() != 4
            && code.number() != 6 {
            seq![
                CounterActionView::WarnDiscarded {
                    index: index as usize,
                    status_code: code.number(),
                },
            ]
        } else {
            Seq::empty()
        },
        _ => Seq::empty(),
    }
}

proof fn lemma_warnings_of_second(
    a: Seq<CounterActionView>,
    b: Seq<CounterActionView>,
    c: Seq<CounterActionView>,
    d: Seq<CounterActionView>,
    e: Seq<CounterActionView>,
    f: Seq<CounterActionView>,
)
    requires
        warnings_of(a).len() == 0,
        warnings_of(c).len() == 0,
        warnings_of(d).len() == 0,
        warnings_of(e).len() == 0,
        warnings_of(f).len() == 0,
    ensures
        warnings_of(a + b + c + d + e + f) == warnings_of(b),
{
    lemma_warnings_of_both(a, b);
    lemma_warnings_of_both(a + b, c);
    lemma_warnings_of_both(a + b + c, d);
    lemma_warnings_of_both(a + b + c + d, e);
    lemma_warnings_of_both(a + b + c + d + e, f);
    assert(warnings_of(a + b + c + d + e + f) =~= warnings_of(b));
}

proof fn lemma_warnings_of_discard(output: TransactionOutput, index: int)
    ensures
        warnings_of(discard_actions(output, index as usize)) == warning_told(output, index),
{
    let discard = discard_actions(output, index as usize);
    if discard.len() > 0 {
        assert(discard.drop_last() =~= Seq::<CounterActionView>::empty());
        lemma_no_warnings(discard.drop_last());
        assert(warnings_of(discard) =~= warnings_of(discard.drop_last()).push(discard.last())) by {
            reveal(Seq::filter);
        }
        assert(warnings_of(discard) =~= warning_told(output, index));
    } else {
        lemma_no_warnings(discard);
    }
}

proof fn lemma_kind_updates(
    txn: Option<Transaction>,
    state: Seq<char>,
    process_type: Seq<char>,
    detailed: bool,
)
    ensures
        warnings_of(kind_actions(txn, state, process_type, detailed)).len() == 0,
{
    if let Some(Transaction::UserTransaction(user)) = txn {
        lemma_user_updates(user, state, process_type, detailed);
        lemma_no_warnings(user_actions(user, state, process_type, detailed));
    } else {
        lemma_no_warnings(Seq::empty());
    }
}

proof fn lemma_warnings_of_transaction(
    txn: Option<Transaction>,
    output: TransactionOutput,
    size: Option<u64>,
    index: int,
    process_type: Seq<char>,
    detailed: bool,
)
    ensures
        warnings_of(
            transaction_actions(txn, output, size, index as usize, process_type, detailed),
        ) == warning_told(output, index),
{
    let labels = status_labels(output.status, detailed);
    let sizes = size_actions(size, process_type, detailed);
    let discard = discard_actions(output, index as usize);
    let count = seq![count_action(txn, labels, process_type)];
    let failure = failure_actions(labels, process_type, detailed);
    let kind = kind_actions(txn, labels.state, process_type, detailed);
    let events = event_actions(output.events@, process_type, detailed);
    lemma_no_warnings(sizes);
    lemma_no_warnings(count);
    lemma_no_warnings(failure);
    lemma_no_warnings(events);
    lemma_kind_updates(txn, labels.state, process_type, detailed);
    lemma_warnings_of_discard(output, index);
    lemma_warnings_of_second(sizes, discard, count, failure, kind, events);
}

proof fn lemma_user_updates(
    user: UserTransaction,
    state: Seq<char>,
    process_type: Seq<char>,
    detailed: bool,
)
    ensures
        forall|i: int|
            0 <= i < user_actions(user, state, process_type, detailed).len()
                ==> #[trigger] user_actions(user, state, process_type, detailed)[i] is Update,
{
    let signers = all_authenticator_actions(user.authenticators@, process_type);
    lemma_signers(user.authenticators@, process_type);
    assert forall|i: int|
        0 <= i < user_actions(user, state, process_type, detailed).len() implies
        #[trigger] user_actions(user, state, process_type, detailed)[i] is Update by {
        if detailed && i < signers.len() {
            assert(is_update_of(signers[i], Metric::ProcessedTxnsAuthenticator));
            assert(user_actions(user, state, process_type, detailed)[i] == signers[i]);
        }
    }
}

proof fn lemma_warnings_of_transactions(
    txns: Seq<Option<Transaction>>,
    outputs: Seq<TransactionOutput>,
    sizes: Seq<Option<u64>>,
    n: nat,
    process_type: Seq<char>,
    detailed: bool,
)
    ensures
        warnings_of(all_transaction_actions(txns, outputs, sizes, n, process_type, detailed))
            == gathered(n, |i: int| warning_told(outputs[i], i)),
    decreases n,
{
    if n > 0 {
        let m = (n - 1) as nat;
        lemma_warnings_of_transactions(txns, outputs, sizes, m, process_type, detailed);
        lemma_warnings_of_both(
            all_transaction_actions(txns, outputs, sizes, m, process_type, detailed),
            transaction_actions(
                txns[n - 1],
                outputs[n - 1],
                sizes[n - 1],
                m as usize,
                process_type,
                detailed,
            ),
        );
        lemma_warnings_of_transaction(
            txns[n - 1],
            outputs[n - 1],
            sizes[n - 1],
            n - 1,
            process_type,
            detailed,
        );
    } else {
        lemma_no_warnings(Seq::empty());
    }
}

/// It is warned of lengths that differ, first and once, and then of each discard that is
/// none of the usual ones, at its place; and of nothing else.
pub proof fn unusual_things_are_warned_of(
    txns: Seq<Option<Transaction>>,
    outputs: Seq<TransactionOutput>,
    sizes: Seq<Option<u64>>,
    process_type: Seq<char>,
    detailed: bool,
)
    ensures
        warnings_of(chunk_actions(txns, outputs, sizes, process_type, detailed)) == (if txns.len()
            != outputs.len() {
            seq![
                CounterActionView::WarnLengthMismatch {
                    transactions: txns.len() as usize,
                    outputs: outputs.len() as usize,
                },
            ]
        } else {
            Seq::empty()
        }) + gathered(
            shorter(txns.len(), outputs.len()),
            |i: int| warning_told(outputs[i], i),
        ),
{
    let n = shorter(txns.len(), outputs.len());
    assert(n == num_processed(txns.len(), outputs.len()));
    let first = if txns.len() != outputs.len() {
        seq![
            CounterActionView::WarnLengthMismatch {
                transactions: txns.len() as usize,
                outputs: outputs.len() as usize,
            },
        ]
    } else {
        Seq::empty()
    };
    let actions = all_transaction_actions(txns, outputs, sizes, n, process_type, detailed);
    assert(chunk_actions(txns, outputs, sizes, process_type, detailed) =~= first + actions);
    lemma_warnings_of_both(first, actions);
    assert(warnings_of(first) =~= first) by {
        reveal(Seq::filter);
        if first.len() > 0 {
            assert(first.drop_last() =~= Seq::<CounterActionView>::empty());
            lemma_no_warnings(first.drop_last());
        } else {
            lemma_no_warnings(first);
        }
    }
    lemma_warnings_of_transactions(txns, outputs, sizes, n, process_type, detailed);
}

/// What an action says is what it holds: its metric, each of its labels and its change.
pub proof fn actions_say_what_they_hold(action: CounterAction)
    ensures
        match action {
            CounterAction::Update { metric, labels, change } => {
                &&& action@ is Update
                &&& action@->metric == metric
                &&& action@->change == change
                &&& action@->labels.len() == labels@.len()
                &&& forall|i: int|
                    0 <= i < labels@.len() ==> #[trigger] action@->labels[i] == labels@[i]@
            },
            CounterAction::WarnLengthMismatch { transactions, outputs } => action@
                == (CounterActionView::WarnLengthMismatch { transactions, outputs }),
            CounterAction::WarnDiscarded { index, status_code } => action@
                == (CounterActionView::WarnDiscarded { index, status_code }),
        },
{
}

/// What is counted is what the providers hold, each in its place.
pub proof fn providers_are_counted_in_place<T: TransactionProvider, O: TransactionOutputProvider>(
    transactions: Seq<T>,
    outputs: Seq<O>,
)
    ensures
        transactions_of(transactions).len() == transactions.len(),
        outputs_of(outputs).len() == outputs.len(),
        forall|i: int|
            0 <= i < transactions.len() ==> #[trigger] transactions_of(transactions)[i]
                == transactions[i].transaction(),
        forall|i: int|
            0 <= i < outputs.len() ==> #[trigger] outputs_of(outputs)[i] == outputs[i].output(),
{
}

/// The signatures of a transaction can be counted unless it is a user transaction with
/// more of them than a `usize` can tell.
pub proof fn signatures_can_be_counted_up_to_the_largest_number(txn: Option<Transaction>)
    ensures
        match txn {
            Some(Transaction::UserTransaction(user)) => signatures_countable(txn)
                <==> signatures_in(user.authenticators@, user.authenticators@.len())
                <= usize::MAX,
            _ => signatures_countable(txn),
        },
{
    if let Some(Transaction::UserTransaction(user)) = txn {
        let all = user.authenticators@;
        lemma_signers_told(all, Seq::empty(), all.len());
        assert(all.take(all.len() as int) =~= all);
    }
}

/// A chunk can be counted in detail just where there is a size for each output, and the
/// signatures of each transaction with an output can be counted.
pub proof fn chunk_can_be_counted_where_all_is_known(
    txns: Seq<Option<Transaction>>,
    num_outputs: nat,
    num_sizes: nat,
)
    ensures
        can_be_detailed(txns, num_outputs, num_sizes) <==> {
            &&& num_sizes == num_outputs
            &&& forall|i: int|
                0 <= i < txns.len() && i < num_outputs ==> signatures_countable(#[trigger] txns[i])
        },
{
}

/// Of a list of actions each says what it holds, in its place.
pub proof fn lists_of_actions_say_what_they_hold(actions: Seq<CounterAction>)
    ensures
        action_views(actions).len() == actions.len(),
        forall|i: int|
            0 <= i < actions.len() ==> #[trigger] action_views(actions)[i] == actions[i]@,
{
}

} // verus!
