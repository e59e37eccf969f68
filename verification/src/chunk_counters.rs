//! Which counters a processed chunk of transactions moves.

use crate::output::{ContractEvent, TransactionOutput, TransactionOutputProvider};
use crate::status::{
    ExecutionStatus, TransactionStatus, SEQUENCE_NUMBER_TOO_NEW,
    SEQUENCE_NUMBER_TOO_OLD, TRANSACTION_EXPIRED,
};
use crate::text::{decimal, decimal_string, lowercase, texts};
use crate::transaction::{
    AccountAuthenticator, Transaction, TransactionPayload, TransactionProvider, UserTransaction,
};
use vstd::prelude::*;
use vstd::string::*;

verus! {

/// A counter or a histogram.
#[derive(Clone, Copy, Debug, PartialEq, Eq, Structural)]
pub enum Metric {
    ProcessedTxnsOutputSize,
    ProcessedTxnsCount,
    ProcessedFailedTxnsReasonCount,
    ProcessedTxnsAuthenticator,
    ProcessedTxnsNumAuthenticators,
    ProcessedUserTxnsByPayload,
    ProcessedUserTxnsEntryFunctionByModule,
    ProcessedUserTxnsEntryFunctionByCoreMethod,
    ProcessedUserTxnsCoreEvents,
}

/// What is done to a metric.
#[derive(Clone, Copy, Debug, PartialEq, Eq, Structural)]
pub enum MetricChange {
    /// The counter grows by the given amount.
    Increment(u64),
    /// The histogram takes in the given value.
    Observe(u64),
}

/// Something to be done for a processed chunk.
#[derive(Debug, PartialEq, Eq)]
pub enum CounterAction {
    /// Change the metric under the given label values.
    Update { metric: Metric, labels: Vec<String>, change: MetricChange },
    /// Warn that the number of outputs is not the number of transactions.
    WarnLengthMismatch { transactions: usize, outputs: usize },
    /// Warn, now and then, that the transaction at place `index` is discarded with
    /// the given code.
    WarnDiscarded { index: usize, status_code: u64 },
}

/// A `CounterAction` with its label values as texts.
#[verifier::ext_equal]
pub enum CounterActionView {
    Update { metric: Metric, labels: Seq<Seq<char>>, change: MetricChange },
    WarnLengthMismatch { transactions: usize, outputs: usize },
    WarnDiscarded { index: usize, status_code: u64 },
}

impl View for CounterAction {
    type V = CounterActionView;

    open spec fn view(&self) -> CounterActionView {
        match self {
            CounterAction::Update { metric, labels, change } => CounterActionView::Update {
                metric: *metric,
                labels: texts(labels@),
                change: *change,
            },
            CounterAction::WarnLengthMismatch {
                transactions,
                outputs,
            } => CounterActionView::WarnLengthMismatch {
                transactions: *transactions,
                outputs: *outputs,
            },
            CounterAction::WarnDiscarded {
                index,
                status_code,
            } => CounterActionView::WarnDiscarded { index: *index, status_code: *status_code },
        }
    }
}

/// The actions of a list.
pub open spec fn action_views(actions: Seq<CounterAction>) -> Seq<CounterActionView> {
    actions.map_values(|a: CounterAction| a@)
}

/// An increment of a counter by `amount`.
pub open spec fn increment(
    metric: Metric,
    labels: Seq<Seq<char>>,
    amount: u64,
) -> CounterActionView {
    CounterActionView::Update { metric, labels, change: MetricChange::Increment(amount) }
}

/// An observation of `value` in a histogram.
pub open spec fn observation(
    metric: Metric,
    labels: Seq<Seq<char>>,
    value: u64,
) -> CounterActionView {
    CounterActionView::Update { metric, labels, change: MetricChange::Observe(value) }
}

/// The label values that stand for a status.
pub struct StatusLabelsView {
    pub state: Seq<char>,
    pub reason: Seq<char>,
    pub error_code: Seq<char>,
}

/// The label value of an error: `name` in lower case, or `none` where there is no
/// name, with detailed counters; else just that there was an error.
pub open spec fn error_label(name: Option<Seq<char>>, detailed: bool) -> Seq<char> {
    if detailed {
        match name {
            Some(name) => lowercase(name),
            None => "none"@,
        }
    } else {
        "error"@
    }
}

/// The state label of a discarded transaction.
pub open spec fn discard_state(code: u64) -> Seq<char> {
    if code == SEQUENCE_NUMBER_TOO_OLD {
        "discard_sequence_number_too_old"@
    } else if code == SEQUENCE_NUMBER_TOO_NEW {
        "discard_sequence_number_too_new"@
    } else if code == TRANSACTION_EXPIRED {
        "discard_transaction_expired"@
    } else {
        "discard"@
    }
}

/// Whether a discard with the given code is none of the usual ones.
pub open spec fn is_interesting_discard(code: u64) -> bool {
    &&& code != SEQUENCE_NUMBER_TOO_OLD
    &&& code != SEQUENCE_NUMBER_TOO_NEW
    &&& code != TRANSACTION_EXPIRED
}

/// The label values that stand for `status`.
pub open spec fn status_labels(status: TransactionStatus, detailed: bool) -> StatusLabelsView {
    match status {
        TransactionStatus::Keep(ExecutionStatus::Success) => StatusLabelsView {
            state: "keep_success"@,
            reason: ""@,
            error_code: ""@,
        },
        TransactionStatus::Keep(ExecutionStatus::OutOfGas) => StatusLabelsView {
            state: "keep_rejected"@,
            reason: "OutOfGas"@,
            error_code: "error"@,
        },
        TransactionStatus::Keep(ExecutionStatus::MoveAbort { info, .. }) => StatusLabelsView {
            state: "keep_rejected"@,
            reason: "MoveAbort"@,
            error_code: error_label(
                match info {
                    Some(info) => Some(info.reason_name@),
                    None => None,
                },
                detailed,
            ),
        },
        TransactionStatus::Keep(ExecutionStatus::ExecutionFailure { .. }) => StatusLabelsView {
            state: "keep_rejected"@,
            reason: "ExecutionFailure"@,
            error_code: "error"@,
        },
        TransactionStatus::Keep(ExecutionStatus::MiscellaneousError(code)) => StatusLabelsView {
            state: "keep_rejected"@,
            reason: "MiscellaneousError"@,
            error_code: error_label(
                match code {
                    Some(code) => Some(code.name()),
                    None => None,
                },
                detailed,
            ),
        },
        TransactionStatus::Discard(code) => StatusLabelsView {
            state: discard_state(code.number()),
            reason: "error_code"@,
            error_code: error_label(Some(code.name()), detailed),
        },
        TransactionStatus::Retry => StatusLabelsView {
            state: "retry"@,
            reason: ""@,
            error_code: ""@,
        },
    }
}

/// The label value of the kind of a transaction.
pub open spec fn kind_label(txn: Option<Transaction>) -> Seq<char> {
    match txn {
        Some(Transaction::UserTransaction(_)) => "user_transaction"@,
        Some(Transaction::GenesisTransaction(_)) => "genesis"@,
        Some(Transaction::BlockMetadata(_)) => "block_metadata"@,
        Some(Transaction::BlockMetadataExt(_)) => "block_metadata_ext"@,
        Some(Transaction::StateCheckpoint(_)) => "state_checkpoint"@,
        Some(Transaction::BlockEpilogue { .. }) => "block_epilogue"@,
        Some(Transaction::ValidatorTransaction(_)) => "validator_transaction"@,
        None => "unknown"@,
    }
}

/// The label value of whether counters are detailed.
pub open spec fn detailed_label(detailed: bool) -> Seq<char> {
    if detailed {
        "true"@
    } else {
        "false"@
    }
}

/// The label value of whether code is of the core framework.
pub open spec fn origin_label(is_core: bool) -> Seq<char> {
    if is_core {
        "core"@
    } else {
        "user"@
    }
}

/// The number of signatures of an authenticator.
pub open spec fn signatures_of(authenticator: AccountAuthenticator) -> nat {
    match authenticator {
        AccountAuthenticator::Ed25519 => 1,
        AccountAuthenticator::MultiEd25519 { num_signatures } => num_signatures as nat,
        AccountAuthenticator::SingleKey { .. } => 1,
        AccountAuthenticator::MultiKey { signature_names } => signature_names@.len(),
        AccountAuthenticator::NoAccountAuthenticator => 0,
    }
}

/// The number of signatures of a list of authenticators.
pub open spec fn signature_count(authenticators: Seq<AccountAuthenticator>) -> nat
    decreases authenticators.len(),
{
    if authenticators.len() == 0 {
        0
    } else {
        signature_count(authenticators.drop_last()) + signatures_of(authenticators.last())
    }
}

/// One increment for an authenticator with the given label value.
pub open spec fn authenticator_increment(
    process_type: Seq<char>,
    label: Seq<char>,
    amount: u64,
) -> CounterActionView {
    increment(Metric::ProcessedTxnsAuthenticator, seq![process_type, label], amount)
}

/// The increments for one authenticator.
pub open spec fn authenticator_actions(
    authenticator: AccountAuthenticator,
    process_type: Seq<char>,
) -> Seq<CounterActionView> {
    match authenticator {
        AccountAuthenticator::Ed25519 => seq![
            authenticator_increment(process_type, "Ed25519"@, 1),
        ],
        AccountAuthenticator::MultiEd25519 { num_signatures } => seq![
            authenticator_increment(
                process_type,
                "Ed25519_in_MultiEd25519"@,
                num_signatures as u64,
            ),
        ],
        AccountAuthenticator::SingleKey { signature_name } => seq![
            authenticator_increment(process_type, signature_name@ + "_in_SingleKey"@, 1),
        ],
        AccountAuthenticator::MultiKey { signature_names } => signature_names@.map_values(
            |name: String|
                authenticator_increment(process_type, name@ + "_in_MultiKey"@, 1),
        ),
        AccountAuthenticator::NoAccountAuthenticator => seq![
            authenticator_increment(process_type, "NoAccountAuthenticator"@, 1),
        ],
    }
}

/// The increments for a list of authenticators, in their order.
pub open spec fn all_authenticator_actions(
    authenticators: Seq<AccountAuthenticator>,
    process_type: Seq<char>,
) -> Seq<CounterActionView>
    decreases authenticators.len(),
{
    if authenticators.len() == 0 {
        Seq::empty()
    } else {
        all_authenticator_actions(authenticators.drop_last(), process_type)
            + authenticator_actions(authenticators.last(), process_type)
    }
}

/// The actions for what a user transaction calls.
pub open spec fn payload_actions(
    payload: TransactionPayload,
    state: Seq<char>,
    process_type: Seq<char>,
    detailed: bool,
) -> Seq<CounterActionView> {
    let by_payload = |kind: Seq<char>|
        increment(Metric::ProcessedUserTxnsByPayload, seq![process_type, kind, state], 1);
    match payload {
        TransactionPayload::Script => seq![by_payload("script"@)],
        TransactionPayload::Multisig => seq![by_payload("multisig"@)],
        TransactionPayload::ModuleBundle => seq![by_payload("deprecated_module_bundle"@)],
        TransactionPayload::EntryFunction { module_address, module_name, function_name } => {
            let is_core = module_address.is_core();
            let module = if detailed {
                module_name@
            } else if is_core {
                "core_module"@
            } else {
                "user_module"@
            };
            let common = seq![
                by_payload("function"@),
                increment(
                    Metric::ProcessedUserTxnsEntryFunctionByModule,
                    seq![
                        detailed_label(detailed),
                        process_type,
                        origin_label(is_core),
                        module,
                        state,
                    ],
                    1,
                ),
            ];
            if is_core && detailed {
                common.push(
                    increment(
                        Metric::ProcessedUserTxnsEntryFunctionByCoreMethod,
                        seq![process_type, module_name@, function_name@, state],
                        1,
                    ),
                )
            } else {
                common
            }
        },
    }
}

/// The actions that only a user transaction calls for.
pub open spec fn user_actions(
    user: UserTransaction,
    state: Seq<char>,
    process_type: Seq<char>,
    detailed: bool,
) -> Seq<CounterActionView> {
    let signers = if detailed {
        all_authenticator_actions(user.authenticators@, process_type).push(
            observation(
                Metric::ProcessedTxnsNumAuthenticators,
                seq![process_type],
                signature_count(user.authenticators@) as u64,
            ),
        )
    } else {
        Seq::empty()
    };
    signers + payload_actions(user.payload, state, process_type, detailed)
}

/// The increment for one event.
pub open spec fn event_action(
    event: ContractEvent,
    process_type: Seq<char>,
    detailed: bool,
) -> CounterActionView {
    let (is_core, creation_number) = match event {
        ContractEvent::V1 { creator_address, creation_number, .. } => (
            creator_address.is_core(),
            if detailed {
                decimal(creation_number as nat)
            } else {
                "event"@
            },
        ),
        ContractEvent::V2 { .. } => (false, "event"@),
    };
    increment(
        Metric::ProcessedUserTxnsCoreEvents,
        seq![detailed_label(detailed), process_type, origin_label(is_core), creation_number],
        1,
    )
}

/// The observation of the size of an output in its wire format, with detailed
/// counters, unless it cannot be serialized.
pub open spec fn size_actions(
    size: Option<u64>,
    process_type: Seq<char>,
    detailed: bool,
) -> Seq<CounterActionView> {
    match size {
        Some(size) if detailed => seq![
            observation(Metric::ProcessedTxnsOutputSize, seq![process_type], size),
        ],
        _ => Seq::empty(),
    }
}

/// The warning that a transaction is discarded, unless for a usual reason.
pub open spec fn discard_actions(output: TransactionOutput, index: usize) -> Seq<
    CounterActionView,
> {
    match output.status {
        TransactionStatus::Discard(code) if is_interesting_discard(code.number()) => seq![
            CounterActionView::WarnDiscarded { index, status_code: code.number() },
        ],
        _ => Seq::empty(),
    }
}

/// The increment that counts a transaction.
pub open spec fn count_action(
    txn: Option<Transaction>,
    labels: StatusLabelsView,
    process_type: Seq<char>,
) -> CounterActionView {
    increment(
        Metric::ProcessedTxnsCount,
        seq![process_type, kind_label(txn), labels.state],
        1,
    )
}

/// The increment that counts a failure, where the status has an error code.
pub open spec fn failure_actions(
    labels: StatusLabelsView,
    process_type: Seq<char>,
    detailed: bool,
) -> Seq<CounterActionView> {
    if labels.error_code.len() > 0 {
        seq![
            increment(
                Metric::ProcessedFailedTxnsReasonCount,
                seq![
                    detailed_label(detailed),
                    process_type,
                    labels.state,
                    labels.reason,
                    labels.error_code,
                ],
                1,
            ),
        ]
    } else {
        Seq::empty()
    }
}

/// The actions that only some kinds of transactions call for.
pub open spec fn kind_actions(
    txn: Option<Transaction>,
    state: Seq<char>,
    process_type: Seq<char>,
    detailed: bool,
) -> Seq<CounterActionView> {
    match txn {
        Some(Transaction::UserTransaction(user)) => user_actions(
            user,
            state,
            process_type,
            detailed,
        ),
        _ => Seq::empty(),
    }
}

/// The increments for the events of a transaction, in their order.
pub open spec fn event_actions(
    events: Seq<ContractEvent>,
    process_type: Seq<char>,
    detailed: bool,
) -> Seq<CounterActionView> {
    events.map_values(|event: ContractEvent| event_action(event, process_type, detailed))
}

/// The actions for the transaction at place `index`.
pub open spec fn transaction_actions(
    txn: Option<Transaction>,
    output: TransactionOutput,
    size: Option<u64>,
    index: usize,
    process_type: Seq<char>,
    detailed: bool,
) -> Seq<CounterActionView> {
    let labels = status_labels(output.status, detailed);
    size_actions(size, process_type, detailed) + discard_actions(output, index) + seq![
        count_action(txn, labels, process_type),
    ] + failure_actions(labels, process_type, detailed) + kind_actions(
        txn,
        labels.state,
        process_type,
        detailed,
    ) + event_actions(output.events@, process_type, detailed)
}

/// The actions for the first `n` transactions of a chunk, one after the other.
pub open spec fn all_transaction_actions(
    txns: Seq<Option<Transaction>>,
    outputs: Seq<TransactionOutput>,
    sizes: Seq<Option<u64>>,
    n: nat,
    process_type: Seq<char>,
    detailed: bool,
) -> Seq<CounterActionView>
    decreases n,
{
    if n == 0 {
        Seq::empty()
    } else {
        all_transaction_actions(txns, outputs, sizes, (n - 1) as nat, process_type, detailed)
            + transaction_actions(
            txns[n - 1],
            outputs[n - 1],
            sizes[n - 1],
            (n - 1) as usize,
            process_type,
            detailed,
        )
    }
}

/// The number of transactions of a chunk that have an output.
pub open spec fn num_processed(txns: nat, outputs: nat) -> nat {
    if txns <= outputs {
        txns
    } else {
        outputs
    }
}

/// The actions for a chunk.
pub open spec fn chunk_actions(
    txns: Seq<Option<Transaction>>,
    outputs: Seq<TransactionOutput>,
    sizes: Seq<Option<u64>>,
    process_type: Seq<char>,
    detailed: bool,
) -> Seq<CounterActionView> {
    let warning = if txns.len() == outputs.len() {
        Seq::empty()
    } else {
        seq![
            CounterActionView::WarnLengthMismatch {
                transactions: txns.len() as usize,
                outputs: outputs.len() as usize,
            },
        ]
    };
    warning + all_transaction_actions(
        txns,
        outputs,
        sizes,
        num_processed(txns.len(), outputs.len()),
        process_type,
        detailed,
    )
}

/// The transactions that a list of providers holds.
pub open spec fn transactions_of<T: TransactionProvider>(providers: Seq<T>) -> Seq<
    Option<Transaction>,
> {
    providers.map_values(|p: T| p.transaction())
}

/// The outputs that a list of providers holds.
pub open spec fn outputs_of<O: TransactionOutputProvider>(providers: Seq<O>) -> Seq<
    TransactionOutput,
> {
    providers.map_values(|p: O| p.output())
}

/// Whether the number of signatures of a transaction can be counted.
pub open spec fn signatures_countable(txn: Option<Transaction>) -> bool {
    txn matches Some(Transaction::UserTransaction(user)) ==> signature_count(
        user.authenticators@,
    ) <= usize::MAX
}

/// Whether a chunk can be counted in detail: the number of signatures of each
/// transaction that has an output can be counted, and the size of each output is
/// known.
pub open spec fn can_be_detailed(
    txns: Seq<Option<Transaction>>,
    num_outputs: nat,
    num_sizes: nat,
) -> bool {
    &&& num_sizes == num_outputs
    &&& forall|i: int|
        0 <= i < num_processed(txns.len(), num_outputs) ==> signatures_countable(
            #[trigger] txns[i],
        )
}

/// The label values that stand for a status.
struct StatusLabels {
    state: &'static str,
    reason: &'static str,
    error_code: String,
}

impl StatusLabels {
    spec fn view(&self) -> StatusLabelsView {
        StatusLabelsView {
            state: self.state@,
            reason: self.reason@,
            error_code: self.error_code@,
        }
    }
}

/// The label value of an error.
fn error_code_label(name: Option<&str>, detailed: bool) -> (label: String)
    ensures
        label@ == error_label(
            match name {
                Some(name) => Some(name@),
                None => None,
            },
            detailed,
        ),
{
    if detailed {
        match name {
            Some(name) => name.to_lowercase(),
            None => "none".to_string(),
        }
    } else {
        "error".to_string()
    }
}

/// The state label of a discarded transaction.
fn discard_state_label(code: u64) -> (label: &'static str)
    ensures
        label@ == discard_state(code),
{
    // Duplicate transactions have labels of their own, for alerts.
    if code == SEQUENCE_NUMBER_TOO_OLD {
        "discard_sequence_number_too_old"
    } else if code == SEQUENCE_NUMBER_TOO_NEW {
        "discard_sequence_number_too_new"
    } else if code == TRANSACTION_EXPIRED {
        "discard_transaction_expired"
    } else {
        "discard"
    }
}

/// The label values that stand for `status`.
fn labels_of_status(status: &TransactionStatus, detailed: bool) -> (labels: StatusLabels)
    ensures
        labels@ == status_labels(*status, detailed),
{
    match status {
        TransactionStatus::Keep(execution_status) => match execution_status {
            ExecutionStatus::Success => StatusLabels {
                state: "keep_success",
                reason: "",
                error_code: "".to_string(),
            },
            ExecutionStatus::OutOfGas => StatusLabels {
                state: "keep_rejected",
                reason: "OutOfGas",
                error_code: "error".to_string(),
            },
            ExecutionStatus::MoveAbort { info, .. } => StatusLabels {
                state: "keep_rejected",
                reason: "MoveAbort",
                error_code: error_code_label(
                    match info {
                        Some(info) => Some(info.reason_name.as_str()),
                        None => None,
                    },
                    detailed,
                ),
            },
            ExecutionStatus::ExecutionFailure { .. } => StatusLabels {
                state: "keep_rejected",
                reason: "ExecutionFailure",
                error_code: "error".to_string(),
            },
            ExecutionStatus::MiscellaneousError(code) => StatusLabels {
                state: "keep_rejected",
                reason: "MiscellaneousError",
                error_code: error_code_label(
                    match code {
                        Some(code) => Some(code.get_name()),
                        None => None,
                    },
                    detailed,
                ),
            },
        },
        TransactionStatus::Discard(code) => StatusLabels {
            state: discard_state_label(code.get_number()),
            reason: "error_code",
            error_code: error_code_label(Some(code.get_name()), detailed),
        },
        TransactionStatus::Retry => StatusLabels {
            state: "retry",
            reason: "",
            error_code: "".to_string(),
        },
    }
}

/// The label value of the kind of a transaction.
fn label_of_kind(txn: Option<&Transaction>) -> (label: &'static str)
    ensures
        label@ == kind_label(
            match txn {
                Some(txn) => Some(*txn),
                None => None,
            },
        ),
{
    match txn {
        Some(Transaction::UserTransaction(_)) => "user_transaction",
        Some(Transaction::GenesisTransaction(_)) => "genesis",
        Some(Transaction::BlockMetadata(_)) => "block_metadata",
        Some(Transaction::BlockMetadataExt(_)) => "block_metadata_ext",
        Some(Transaction::StateCheckpoint(_)) => "state_checkpoint",
        Some(Transaction::BlockEpilogue { .. }) => "block_epilogue",
        Some(Transaction::ValidatorTransaction(_)) => "validator_transaction",
        None => "unknown",
    }
}

/// The label value of whether counters are detailed.
fn label_of_detail(detailed: bool) -> (label: &'static str)
    ensures
        label@ == detailed_label(detailed),
{
    if detailed {
        "true"
    } else {
        "false"
    }
}

/// The label value of whether code is of the core framework.
fn label_of_origin(is_core: bool) -> (label: &'static str)
    ensures
        label@ == origin_label(is_core),
{
    if is_core {
        "core"
    } else {
        "user"
    }
}

/// Appends the change of a metric.
fn record(
    actions: &mut Vec<CounterAction>,
    metric: Metric,
    label_values: &[&str],
    change: MetricChange,
)
    ensures
        action_views(final(actions)@) == action_views(old(actions)@).push(
            CounterActionView::Update {
                metric,
                labels: label_values@.map_values(|l: &str| l@),
                change,
            },
        ),
{
    let ghost before = actions@;
    let mut labels: Vec<String> = Vec::new();
    for i in 0..label_values.len()
        invariant
            texts(labels@) == label_values@.map_values(|l: &str| l@).take(i as int),
    {
        let ghost labels_before = texts(labels@);
        labels.push(label_values[i].to_string());
        assert(texts(labels@) =~= labels_before.push(label_values@[i as int]@));
        assert(texts(labels@) =~= label_values@.map_values(|l: &str| l@).take(i + 1));
    }
    assert(texts(labels@) =~= label_values@.map_values(|l: &str| l@));
    actions.push(CounterAction::Update { metric, labels, change });
    assert(action_views(actions@) =~= action_views(before).push(actions@.last()@));
}

/// Appends the change of a metric with one label value.
fn record_1(
    actions: &mut Vec<CounterAction>,
    metric: Metric,
    a: &str,
    change: MetricChange,
)
    ensures
        action_views(final(actions)@) == action_views(old(actions)@).push(
            CounterActionView::Update {
                metric,
                labels: seq![a@],
                change,
            },
        ),
{
    let label_values = [a];
    assert(label_values@.map_values(|l: &str| l@) =~= seq![a@]);
    record(actions, metric, &label_values, change);
}

/// Appends the change of a metric with two label values.
fn record_2(
    actions: &mut Vec<CounterAction>,
    metric: Metric,
    a: &str, b: &str,
    change: MetricChange,
)
    ensures
        action_views(final(actions)@) == action_views(old(actions)@).push(
            CounterActionView::Update {
                metric,
                labels: seq![a@, b@],
                change,
            },
        ),
{
    let label_values = [a, b];
    assert(label_values@.map_values(|l: &str| l@) =~= seq![a@, b@]);
    record(actions, metric, &label_values, change);
}

/// Appends the change of a metric with three label values.
fn record_3(
    actions: &mut Vec<CounterAction>,
    metric: Metric,
    a: &str, b: &str, c: &str,
    change: MetricChange,
)
    ensures
        action_views(final(actions)@) == action_views(old(actions)@).push(
            CounterActionView::Update {
                metric,
                labels: seq![a@, b@, c@],
                change,
            },
        ),
{
    let label_values = [a, b, c];
    assert(label_values@.map_values(|l: &str| l@) =~= seq![a@, b@, c@]);
    record(actions, metric, &label_values, change);
}

/// Appends the change of a metric with four label values.
fn record_4(
    actions: &mut Vec<CounterAction>,
    metric: Metric,
    a: &str, b: &str, c: &str, d: &str,
    change: MetricChange,
)
    ensures
        action_views(final(actions)@) == action_views(old(actions)@).push(
            CounterActionView::Update {
                metric,
                labels: seq![a@, b@, c@, d@],
                change,
            },
        ),
{
    let label_values = [a, b, c, d];
    assert(label_values@.map_values(|l: &str| l@) =~= seq![a@, b@, c@, d@]);
    record(actions, metric, &label_values, change);
}

/// Appends the change of a metric with five label values.
fn record_5(
    actions: &mut Vec<CounterAction>,
    metric: Metric,
    a: &str, b: &str, c: &str, d: &str, e: &str,
    change: MetricChange,
)
    ensures
        action_views(final(actions)@) == action_views(old(actions)@).push(
            CounterActionView::Update {
                metric,
                labels: seq![a@, b@, c@, d@, e@],
                change,
            },
        ),
{
    let label_values = [a, b, c, d, e];
    assert(label_values@.map_values(|l: &str| l@) =~= seq![a@, b@, c@, d@, e@]);
    record(actions, metric, &label_values, change);
}

/// Appends the increments for one authenticator, and counts its signatures.
fn record_authenticator(
    actions: &mut Vec<CounterAction>,
    authenticator: &AccountAuthenticator,
    process_type: &str,
) -> (signatures: usize)
    ensures
        action_views(final(actions)@) == action_views(old(actions)@) + authenticator_actions(
            *authenticator,
            process_type@,
        ),
        signatures == signatures_of(*authenticator),
{
    let ghost before = action_views(actions@);
    match authenticator {
        AccountAuthenticator::Ed25519 => {
            record_2(
                actions,
                Metric::ProcessedTxnsAuthenticator,
                process_type,
                "Ed25519",
                MetricChange::Increment(1),
            );
            assert(action_views(actions@) =~= before + authenticator_actions(
                *authenticator,
                process_type@,
            ));
            1
        },
        AccountAuthenticator::MultiEd25519 { num_signatures } => {
            record_2(
                actions,
                Metric::ProcessedTxnsAuthenticator,
                process_type,
                "Ed25519_in_MultiEd25519",
                MetricChange::Increment(*num_signatures as u64),
            );
            assert(action_views(actions@) =~= before + authenticator_actions(
                *authenticator,
                process_type@,
            ));
            *num_signatures
        },
        AccountAuthenticator::SingleKey { signature_name } => {
            let label = signature_name.clone().concat("_in_SingleKey");
            record_2(
                actions,
                Metric::ProcessedTxnsAuthenticator,
                process_type,
                label.as_str(),
                MetricChange::Increment(1),
            );
            assert(action_views(actions@) =~= before + authenticator_actions(
                *authenticator,
                process_type@,
            ));
            1
        },
        AccountAuthenticator::MultiKey { signature_names } => {
            let ghost expected = authenticator_actions(*authenticator, process_type@);
            for i in 0..signature_names.len()
                invariant
                    *authenticator == (AccountAuthenticator::MultiKey {
                        signature_names: *signature_names,
                    }),
                    expected == authenticator_actions(*authenticator, process_type@),
                    action_views(actions@) == before + expected.take(i as int),
            {
                let label = signature_names[i].clone().concat("_in_MultiKey");
                record_2(
                    actions,
                    Metric::ProcessedTxnsAuthenticator,
                    process_type,
                    label.as_str(),
                    MetricChange::Increment(1),
                );
                assert(action_views(actions@) =~= before + expected.take(i + 1));
            }
            assert(expected.take(expected.len() as int) =~= expected);
            signature_names.len()
        },
        AccountAuthenticator::NoAccountAuthenticator => {
            record_2(
                actions,
                Metric::ProcessedTxnsAuthenticator,
                process_type,
                "NoAccountAuthenticator",
                MetricChange::Increment(1),
            );
            assert(action_views(actions@) =~= before + authenticator_actions(
                *authenticator,
                process_type@,
            ));
            0
        },
    }
}

/// Appends the actions for the signers of a user transaction.
fn record_signers(
    actions: &mut Vec<CounterAction>,
    authenticators: &Vec<AccountAuthenticator>,
    process_type: &str,
)
    requires
        signature_count(authenticators@) <= usize::MAX,
    ensures
        action_views(final(actions)@) == action_views(old(actions)@) + all_authenticator_actions(
            authenticators@,
            process_type@,
        ).push(
            observation(
                Metric::ProcessedTxnsNumAuthenticators,
                seq![process_type@],
                signature_count(authenticators@) as u64,
            ),
        ),
{
    let ghost before = action_views(actions@);
    let ghost all = authenticators@;
    let mut count: usize = 0;
    for i in 0..authenticators.len()
        invariant
            all == authenticators@,
            signature_count(all) <= usize::MAX,
            count == signature_count(all.take(i as int)),
            action_views(actions@) == before + all_authenticator_actions(
                all.take(i as int),
                process_type@,
            ),
    {
        let ghost recorded = all_authenticator_actions(all.take(i as int), process_type@);
        let signatures = record_authenticator(actions, &authenticators[i], process_type);
        proof {
            let upto = all.take(i + 1);
            assert(upto.drop_last() =~= all.take(i as int));
            assert(upto.last() == all[i as int]);
            lemma_signature_count_of_prefix(all, i + 1);
            assert(action_views(actions@) =~= before + (recorded + authenticator_actions(
                all[i as int],
                process_type@,
            )));
        }
        count += signatures;
    }
    assert(all.take(all.len() as int) =~= all);
    let ghost recorded = action_views(actions@);
    record_1(
        actions,
        Metric::ProcessedTxnsNumAuthenticators,
        process_type,
        MetricChange::Observe(count as u64),
    );
    assert(action_views(actions@) =~= before + all_authenticator_actions(all, process_type@).push(
        observation(
            Metric::ProcessedTxnsNumAuthenticators,
            seq![process_type@],
            signature_count(all) as u64,
        ),
    ));
}

/// The first authenticators have no more signatures than all of them.
proof fn lemma_signature_count_of_prefix(all: Seq<AccountAuthenticator>, n: int)
    requires
        0 <= n <= all.len(),
    ensures
        signature_count(all.take(n)) <= signature_count(all),
    decreases all.len() - n,
{
    if n < all.len() {
        assert(all.take(n + 1).drop_last() =~= all.take(n));
        lemma_signature_count_of_prefix(all, n + 1);
    } else {
        assert(all.take(n) =~= all);
    }
}

/// Appends the actions for what a user transaction calls.
fn record_payload(
    actions: &mut Vec<CounterAction>,
    payload: &TransactionPayload,
    state: &str,
    process_type: &str,
    detailed: bool,
)
    ensures
        action_views(final(actions)@) == action_views(old(actions)@) + payload_actions(
            *payload,
            state@,
            process_type@,
            detailed,
        ),
{
    let ghost before = action_views(actions@);
    let one = MetricChange::Increment(1);
    let kind = match payload {
        TransactionPayload::Script => "script",
        TransactionPayload::EntryFunction { .. } => "function",
        TransactionPayload::Multisig => "multisig",
        TransactionPayload::ModuleBundle => "deprecated_module_bundle",
    };
    record_3(actions, Metric::ProcessedUserTxnsByPayload, process_type, kind, state, one);
    if let TransactionPayload::EntryFunction { module_address, module_name, function_name } =
        payload {
        let is_core = module_address.is_core_code_address();
        let module = if detailed {
            module_name.as_str()
        } else if is_core {
            "core_module"
        } else {
            "user_module"
        };
        record_5(
            actions,
            Metric::ProcessedUserTxnsEntryFunctionByModule,
            label_of_detail(detailed),
            process_type,
            label_of_origin(is_core),
            module,
            state,
            one,
        );
        if is_core && detailed {
            record_4(
                actions,
                Metric::ProcessedUserTxnsEntryFunctionByCoreMethod,
                process_type,
                module_name.as_str(),
                function_name.as_str(),
                state,
                one,
            );
        }
    }
    assert(action_views(actions@) =~= before + payload_actions(
        *payload,
        state@,
        process_type@,
        detailed,
    ));
}

/// Appends the increments for the events of a transaction.
fn record_events(
    actions: &mut Vec<CounterAction>,
    events: &Vec<ContractEvent>,
    process_type: &str,
    detailed: bool,
)
    ensures
        action_views(final(actions)@) == action_views(old(actions)@) + event_actions(
            events@,
            process_type@,
            detailed,
        ),
{
    let ghost before = action_views(actions@);
    let ghost expected = event_actions(events@, process_type@, detailed);
    for i in 0..events.len()
        invariant
            expected == event_actions(events@, process_type@, detailed),
            action_views(actions@) == before + expected.take(i as int),
    {
        let (is_core, creation_number) = match &events[i] {
            ContractEvent::V1 { creator_address, creation_number, .. } => (
                creator_address.is_core_code_address(),
                if detailed {
                    decimal_string(*creation_number)
                } else {
                    "event".to_string()
                },
            ),
            ContractEvent::V2 { .. } => (false, "event".to_string()),
        };
        record_4(
            actions,
            Metric::ProcessedUserTxnsCoreEvents,
            label_of_detail(detailed),
            process_type,
            label_of_origin(is_core),
            creation_number.as_str(),
            MetricChange::Increment(1),
        );
        assert(expected[i as int] == event_action(events@[i as int], process_type@, detailed));
        assert(action_views(actions@) =~= before + expected.take(i + 1));
    }
    assert(expected.take(expected.len() as int) =~= expected);
}

/// Appends the observation of the size of an output.
fn record_size(
    actions: &mut Vec<CounterAction>,
    size: Option<u64>,
    process_type: &str,
    detailed: bool,
)
    ensures
        action_views(final(actions)@) == action_views(old(actions)@) + size_actions(
            size,
            process_type@,
            detailed,
        ),
{
    let ghost before = action_views(actions@);
    if detailed {
        if let Some(size) = size {
            record_1(
                actions,
                Metric::ProcessedTxnsOutputSize,
                process_type,
                MetricChange::Observe(size),
            );
        }
    }
    assert(action_views(actions@) =~= before + size_actions(size, process_type@, detailed));
}

/// Appends the warning that a transaction is discarded.
fn record_discard(actions: &mut Vec<CounterAction>, output: &TransactionOutput, index: usize)
    ensures
        action_views(final(actions)@) == action_views(old(actions)@) + discard_actions(
            *output,
            index,
        ),
{
    let ghost before = action_views(actions@);
    if let TransactionStatus::Discard(code) = &output.status {
        let status_code = code.get_number();
        if status_code != SEQUENCE_NUMBER_TOO_OLD && status_code != SEQUENCE_NUMBER_TOO_NEW
            && status_code != TRANSACTION_EXPIRED {
            actions.push(CounterAction::WarnDiscarded { index, status_code });
        }
    }
    assert(action_views(actions@) =~= before + discard_actions(*output, index));
}

/// Appends the increments that count a transaction and its failure.
fn record_count(
    actions: &mut Vec<CounterAction>,
    txn: Option<&Transaction>,
    labels: &StatusLabels,
    process_type: &str,
    detailed: bool,
)
    ensures
        action_views(final(actions)@) == action_views(old(actions)@) + seq![
            count_action(
                match txn {
                    Some(txn) => Some(*txn),
                    None => None,
                },
                labels@,
                process_type@,
            ),
        ] + failure_actions(labels@, process_type@, detailed),
{
    let ghost before = action_views(actions@);
    record_3(
        actions,
        Metric::ProcessedTxnsCount,
        process_type,
        label_of_kind(txn),
        labels.state,
        MetricChange::Increment(1),
    );
    let ghost counted = action_views(actions@);
    if !labels.error_code.as_str().is_empty() {
        record_5(
            actions,
            Metric::ProcessedFailedTxnsReasonCount,
            label_of_detail(detailed),
            process_type,
            labels.state,
            labels.reason,
            labels.error_code.as_str(),
            MetricChange::Increment(1),
        );
    }
    assert(action_views(actions@) =~= counted + failure_actions(labels@, process_type@, detailed));
    assert(counted =~= before + seq![counted.last()]);
}

/// Appends the actions that only some kinds of transactions call for.
fn record_kind(
    actions: &mut Vec<CounterAction>,
    txn: Option<&Transaction>,
    state: &str,
    process_type: &str,
    detailed: bool,
)
    requires
        detailed && txn is Some ==> signatures_countable(Some(*txn->0)),
    ensures
        action_views(final(actions)@) == action_views(old(actions)@) + kind_actions(
            match txn {
                Some(txn) => Some(*txn),
                None => None,
            },
            state@,
            process_type@,
            detailed,
        ),
{
    let ghost before = action_views(actions@);
    if let Some(Transaction::UserTransaction(user)) = txn {
        if detailed {
            record_signers(actions, &user.authenticators, process_type);
        }
        record_payload(actions, &user.payload, state, process_type, detailed);
        assert(action_views(actions@) =~= before + user_actions(
            *user,
            state@,
            process_type@,
            detailed,
        ));
    } else {
        assert(before =~= before + Seq::<CounterActionView>::empty());
    }
}

/// Appends the actions for the transaction at place `index`.
fn record_transaction(
    actions: &mut Vec<CounterAction>,
    txn: Option<&Transaction>,
    output: &TransactionOutput,
    size: Option<u64>,
    index: usize,
    process_type: &str,
    detailed: bool,
)
    requires
        detailed && txn is Some ==> signatures_countable(Some(*txn->0)),
    ensures
        action_views(final(actions)@) == action_views(old(actions)@) + transaction_actions(
            match txn {
                Some(txn) => Some(*txn),
                None => None,
            },
            *output,
            size,
            index,
            process_type@,
            detailed,
        ),
{
    let ghost before = action_views(actions@);
    record_size(actions, size, process_type, detailed);
    let labels = labels_of_status(&output.status, detailed);
    record_discard(actions, output, index);
    record_count(actions, txn, &labels, process_type, detailed);
    record_kind(actions, txn, labels.state, process_type, detailed);
    record_events(actions, &output.events, process_type, detailed);
    proof {
        let txn = match txn {
            Some(txn) => Some(*txn),
            None => None,
        };
        let sizes = size_actions(size, process_type@, detailed);
        let discard = discard_actions(*output, index);
        let count = seq![count_action(txn, labels@, process_type@)];
        let failure = failure_actions(labels@, process_type@, detailed);
        let kind = kind_actions(txn, labels.state@, process_type@, detailed);
        let events = event_actions(output.events@, process_type@, detailed);
        assert(before + sizes + discard + count + failure + kind + events =~= before + (sizes
            + discard + count + failure + kind + events));
    }
}

/// The number of signatures of an authenticator.
fn num_signatures(authenticator: &AccountAuthenticator) -> (signatures: usize)
    ensures
        signatures == signatures_of(*authenticator),
{
    match authenticator {
        AccountAuthenticator::Ed25519 => 1,
        AccountAuthenticator::MultiEd25519 { num_signatures } => *num_signatures,
        AccountAuthenticator::SingleKey { .. } => 1,
        AccountAuthenticator::MultiKey { signature_names } => signature_names.len(),
        AccountAuthenticator::NoAccountAuthenticator => 0,
    }
}

/// Tells whether the number of signatures of `authenticators` can be counted.
fn has_countable_authenticators(authenticators: &Vec<AccountAuthenticator>) -> (countable: bool)
    ensures
        countable == (signature_count(authenticators@) <= usize::MAX),
{
    let ghost all = authenticators@;
    let mut count: usize = 0;
    for i in 0..authenticators.len()
        invariant
            all == authenticators@,
            count == signature_count(all.take(i as int)),
    {
        let signatures = num_signatures(&authenticators[i]);
        proof {
            let upto = all.take(i + 1);
            assert(upto.drop_last() =~= all.take(i as int));
            assert(upto.last() == all[i as int]);
            lemma_signature_count_of_prefix(all, i + 1);
        }
        match count.checked_add(signatures) {
            Some(sum) => {
                count = sum;
            },
            None => {
                return false;
            },
        }
    }
    assert(all.take(all.len() as int) =~= all);
    true
}

/// Tells whether the number of signatures of a transaction can be counted.
pub fn has_countable_signatures(txn: Option<&Transaction>) -> (countable: bool)
    ensures
        countable == signatures_countable(
            match txn {
                Some(txn) => Some(*txn),
                None => None,
            },
        ),
{
    match txn {
        Some(Transaction::UserTransaction(user)) => has_countable_authenticators(
            &user.authenticators,
        ),
        _ => true,
    }
}

/// Tells whether a chunk can be counted in detail.
pub fn can_count_in_detail<T: TransactionProvider>(
    transactions: &[T],
    num_outputs: usize,
    num_sizes: usize,
) -> (can: bool)
    ensures
        can == can_be_detailed(
            transactions_of(transactions@),
            num_outputs as nat,
            num_sizes as nat,
        ),
{
    let ghost txns = transactions_of(transactions@);
    if num_sizes != num_outputs {
        return false;
    }
    let len = if transactions.len() <= num_outputs {
        transactions.len()
    } else {
        num_outputs
    };
    for i in 0..len
        invariant
            txns == transactions_of(transactions@),
            len == num_processed(txns.len(), num_outputs as nat),
            forall|j: int| 0 <= j < i ==> signatures_countable(#[trigger] txns[j]),
    {
        assert(txns[i as int] == transactions@[i as int].transaction());
        if !has_countable_signatures(transactions[i].get_transaction()) {
            assert(!signatures_countable(txns[i as int]));
            return false;
        }
    }
    true
}

/// What is to be done to the counters for a chunk of transactions that was
/// processed in the way `process_type`. For detailed counters, `output_sizes` tells
/// the size of each output in its wire format, or that it cannot be serialized.
pub fn update_counters_for_processed_chunk<T: TransactionProvider, O: TransactionOutputProvider>(
    transactions: &[T],
    transaction_outputs: &[O],
    output_sizes: &[Option<u64>],
    process_type: &str,
    detailed_counters: bool,
) -> (actions: Vec<CounterAction>)
    requires
        detailed_counters ==> can_be_detailed(
            transactions_of(transactions@),
            transaction_outputs@.len(),
            output_sizes@.len(),
        ),
    ensures
        action_views(actions@) == chunk_actions(
            transactions_of(transactions@),
            outputs_of(transaction_outputs@),
            output_sizes@,
            process_type@,
            detailed_counters,
        ),
{
    let ghost txns = transactions_of(transactions@);
    let ghost outputs = outputs_of(transaction_outputs@);
    let ghost sizes = output_sizes@;
    let mut actions: Vec<CounterAction> = Vec::new();
    if transactions.len() != transaction_outputs.len() {
        actions.push(
            CounterAction::WarnLengthMismatch {
                transactions: transactions.len(),
                outputs: transaction_outputs.len(),
            },
        );
    }
    let ghost warning = action_views(actions@);
    let len = if transactions.len() <= transaction_outputs.len() {
        transactions.len()
    } else {
        transaction_outputs.len()
    };
    for i in 0..len
        invariant
            len <= transactions@.len(),
            len <= transaction_outputs@.len(),
            txns == transactions_of(transactions@),
            outputs == outputs_of(transaction_outputs@),
            sizes == output_sizes@,
            len == num_processed(txns.len(), outputs.len()),
            detailed_counters ==> can_be_detailed(txns, outputs.len(), sizes.len()),
            action_views(actions@) == warning + all_transaction_actions(
                txns,
                outputs,
                sizes,
                i as nat,
                process_type@,
                detailed_counters,
            ),
    {
        let ghost before = all_transaction_actions(
            txns,
            outputs,
            sizes,
            i as nat,
            process_type@,
            detailed_counters,
        );
        let txn = transactions[i].get_transaction();
        let output = transaction_outputs[i].get_transaction_output();
        let size = if detailed_counters {
            output_sizes[i]
        } else {
            None
        };
        assert(txns[i as int] == transactions@[i as int].transaction());
        assert(detailed_counters ==> signatures_countable(txns[i as int]));
        record_transaction(&mut actions, txn, output, size, i, process_type, detailed_counters);
        assert(size_actions(size, process_type@, detailed_counters) == size_actions(
            sizes[i as int],
            process_type@,
            detailed_counters,
        ));
        assert(outputs[i as int] == *output);
        assert(action_views(actions@) =~= warning + (before + transaction_actions(
            txns[i as int],
            outputs[i as int],
            sizes[i as int],
            i,
            process_type@,
            detailed_counters,
        )));
    }
    assert(action_views(actions@) =~= chunk_actions(
        txns,
        outputs,
        sizes,
        process_type@,
        detailed_counters,
    ));
    actions
}

/// Whether `action` changes the given metric.
pub open spec fn changes(action: CounterActionView, metric: Metric) -> bool {
    match action {
        CounterActionView::Update { metric: m, .. } => m == metric,
        _ => false,
    }
}

/// How many of `actions` change the given metric.
pub open spec fn num_updates(actions: Seq<CounterActionView>, metric: Metric) -> nat
    decreases actions.len(),
{
    if actions.len() == 0 {
        0
    } else {
        num_updates(actions.drop_last(), metric) + (if changes(actions.last(), metric) {
            1nat
        } else {
            0nat
        })
    }
}

/// How many of the first `n` outputs have a status that counts as a failure: one
/// that neither is a success nor asks for another try.
pub open spec fn num_failures(outputs: Seq<TransactionOutput>, n: nat) -> nat
    decreases n,
{
    if n == 0 {
        0
    } else {
        num_failures(outputs, (n - 1) as nat) + (match outputs[n - 1].status {
            TransactionStatus::Keep(ExecutionStatus::Success) => 0nat,
            TransactionStatus::Retry => 0nat,
            _ => 1nat,
        })
    }
}

proof fn lemma_num_updates_of_concatenation(
    a: Seq<CounterActionView>,
    b: Seq<CounterActionView>,
    metric: Metric,
)
    ensures
        num_updates(a + b, metric) == num_updates(a, metric) + num_updates(b, metric),
    decreases b.len(),
{
    if b.len() == 0 {
        assert(a + b =~= a);
    } else {
        assert((a + b).drop_last() =~= a + b.drop_last());
        lemma_num_updates_of_concatenation(a, b.drop_last(), metric);
    }
}

proof fn lemma_no_updates(actions: Seq<CounterActionView>, metric: Metric)
    requires
        forall|i: int|
            0 <= i < actions.len() ==> !changes(#[trigger] actions[i], metric),
    ensures
        num_updates(actions, metric) == 0,
    decreases actions.len(),
{
    if actions.len() > 0 {
        lemma_no_updates(actions.drop_last(), metric);
        assert(actions.last() == actions[actions.len() - 1]);
    }
}

/// The increments for authenticators change nothing but their metric.
proof fn lemma_authenticator_actions_metric(
    authenticators: Seq<AccountAuthenticator>,
    process_type: Seq<char>,
)
    ensures
        forall|i: int|
            0 <= i < all_authenticator_actions(authenticators, process_type).len() ==> changes(
                #[trigger] all_authenticator_actions(authenticators, process_type)[i],
                Metric::ProcessedTxnsAuthenticator,
            ),
    decreases authenticators.len(),
{
    if authenticators.len() > 0 {
        let earlier = all_authenticator_actions(authenticators.drop_last(), process_type);
        let last = authenticator_actions(authenticators.last(), process_type);
        lemma_authenticator_actions_metric(authenticators.drop_last(), process_type);
        assert forall|i: int| 0 <= i < (earlier + last).len() implies changes(
            #[trigger] (earlier + last)[i],
            Metric::ProcessedTxnsAuthenticator,
        ) by {
            if i < earlier.len() {
                assert(changes(earlier[i], Metric::ProcessedTxnsAuthenticator));
            } else {
                assert(changes(last[i - earlier.len()], Metric::ProcessedTxnsAuthenticator));
            }
        }
    }
}

/// The actions for one transaction hold one count of processed transactions, and
/// one count of failures where its label values have an error code.
proof fn lemma_updates_of_transaction(
    txn: Option<Transaction>,
    output: TransactionOutput,
    size: Option<u64>,
    index: usize,
    process_type: Seq<char>,
    detailed: bool,
)
    ensures
        ({
            let actions = transaction_actions(txn, output, size, index, process_type, detailed);
            &&& num_updates(actions, Metric::ProcessedTxnsCount) == 1
            &&& num_updates(actions, Metric::ProcessedFailedTxnsReasonCount) == (if status_labels(
                output.status,
                detailed,
            ).error_code.len() > 0 {
                1nat
            } else {
                0nat
            })
        }),
{
    let labels = status_labels(output.status, detailed);
    let size = size_actions(size, process_type, detailed);
    let discard = discard_actions(output, index);
    let count = seq![count_action(txn, labels, process_type)];
    let failure = failure_actions(labels, process_type, detailed);
    let kind = kind_actions(txn, labels.state, process_type, detailed);
    let events = event_actions(output.events@, process_type, detailed);
    lemma_kind_actions_metric(txn, labels.state, process_type, detailed);
    lemma_updates_of_parts(
        size,
        discard,
        count,
        failure,
        kind,
        events,
        Metric::ProcessedTxnsCount,
    );
    lemma_updates_of_parts(
        size,
        discard,
        count,
        failure,
        kind,
        events,
        Metric::ProcessedFailedTxnsReasonCount,
    );
    assert(count.drop_last() =~= Seq::<CounterActionView>::empty());
    reveal_with_fuel(num_updates, 2);
    if labels.error_code.len() > 0 {
        assert(failure.drop_last() =~= Seq::<CounterActionView>::empty());
    }
}

/// Parts that do not change a metric do not count.
proof fn lemma_updates_of_parts(
    size: Seq<CounterActionView>,
    discard: Seq<CounterActionView>,
    count: Seq<CounterActionView>,
    failure: Seq<CounterActionView>,
    kind: Seq<CounterActionView>,
    events: Seq<CounterActionView>,
    metric: Metric,
)
    requires
        forall|i: int| 0 <= i < size.len() ==> !changes(#[trigger] size[i], metric),
        forall|i: int| 0 <= i < discard.len() ==> !changes(#[trigger] discard[i], metric),
        forall|i: int| 0 <= i < kind.len() ==> !changes(#[trigger] kind[i], metric),
        forall|i: int| 0 <= i < events.len() ==> !changes(#[trigger] events[i], metric),
    ensures
        num_updates(size + discard + count + failure + kind + events, metric) == num_updates(
            count,
            metric,
        ) + num_updates(failure, metric),
{
    lemma_num_updates_of_concatenation(size, discard, metric);
    lemma_num_updates_of_concatenation(size + discard, count, metric);
    lemma_num_updates_of_concatenation(size + discard + count, failure, metric);
    lemma_num_updates_of_concatenation(size + discard + count + failure, kind, metric);
    lemma_num_updates_of_concatenation(size + discard + count + failure + kind, events, metric);
    lemma_no_updates(size, metric);
    lemma_no_updates(discard, metric);
    lemma_no_updates(kind, metric);
    lemma_no_updates(events, metric);
}

/// What only some kinds of transactions call for changes neither the count of
/// transactions nor that of failures.
proof fn lemma_kind_actions_metric(
    txn: Option<Transaction>,
    state: Seq<char>,
    process_type: Seq<char>,
    detailed: bool,
)
    ensures
        ({
            let actions = kind_actions(txn, state, process_type, detailed);
            forall|i: int|
                0 <= i < actions.len() ==> !changes(
                    #[trigger] actions[i],
                    Metric::ProcessedTxnsCount,
                ) && !changes(actions[i], Metric::ProcessedFailedTxnsReasonCount)
        }),
{
    if let Some(Transaction::UserTransaction(user)) = txn {
        lemma_authenticator_actions_metric(user.authenticators@, process_type);
    }
}

/// Every transaction of a chunk that has an output is counted once.
pub proof fn each_processed_transaction_is_counted_once(
    txns: Seq<Option<Transaction>>,
    outputs: Seq<TransactionOutput>,
    sizes: Seq<Option<u64>>,
    process_type: Seq<char>,
    detailed: bool,
)
    ensures
        num_updates(
            chunk_actions(txns, outputs, sizes, process_type, detailed),
            Metric::ProcessedTxnsCount,
        ) == num_processed(txns.len(), outputs.len()),
{
    let n = num_processed(txns.len(), outputs.len());
    lemma_updates_of_chunk(txns, outputs, sizes, n, process_type, detailed);
    lemma_updates_without_warning(txns, outputs, sizes, process_type, detailed);
}

/// Without detailed counters, the failures that are counted are the transactions
/// that neither succeeded nor are tried again.
pub proof fn each_failure_is_counted_once(
    txns: Seq<Option<Transaction>>,
    outputs: Seq<TransactionOutput>,
    sizes: Seq<Option<u64>>,
    process_type: Seq<char>,
)
    ensures
        num_updates(
            chunk_actions(txns, outputs, sizes, process_type, false),
            Metric::ProcessedFailedTxnsReasonCount,
        ) == num_failures(outputs, num_processed(txns.len(), outputs.len())),
{
    let n = num_processed(txns.len(), outputs.len());
    lemma_updates_of_chunk(txns, outputs, sizes, n, process_type, false);
    lemma_updates_without_warning(txns, outputs, sizes, process_type, false);
}

proof fn lemma_updates_without_warning(
    txns: Seq<Option<Transaction>>,
    outputs: Seq<TransactionOutput>,
    sizes: Seq<Option<u64>>,
    process_type: Seq<char>,
    detailed: bool,
)
    ensures
        forall|metric: Metric| #[trigger]
            num_updates(chunk_actions(txns, outputs, sizes, process_type, detailed), metric)
                == num_updates(
                all_transaction_actions(
                    txns,
                    outputs,
                    sizes,
                    num_processed(txns.len(), outputs.len()),
                    process_type,
                    detailed,
                ),
                metric,
            ),
{
    let actions = all_transaction_actions(
        txns,
        outputs,
        sizes,
        num_processed(txns.len(), outputs.len()),
        process_type,
        detailed,
    );
    let warning = if txns.len() == outputs.len() {
        Seq::empty()
    } else {
        seq![
            CounterActionView::WarnLengthMismatch {
                transactions: txns.len() as usize,
                outputs: outputs.len() as usize,
            },
        ]
    };
    assert forall|metric: Metric| #[trigger]
        num_updates(chunk_actions(txns, outputs, sizes, process_type, detailed), metric) == num_updates(
            actions,
            metric,
        ) by {
        lemma_no_updates(warning, metric);
        lemma_num_updates_of_concatenation(warning, actions, metric);
    }
}

proof fn lemma_updates_of_chunk(
    txns: Seq<Option<Transaction>>,
    outputs: Seq<TransactionOutput>,
    sizes: Seq<Option<u64>>,
    n: nat,
    process_type: Seq<char>,
    detailed: bool,
)
    ensures
        num_updates(
            all_transaction_actions(txns, outputs, sizes, n, process_type, detailed),
            Metric::ProcessedTxnsCount,
        ) == n,
        !detailed ==> num_updates(
            all_transaction_actions(txns, outputs, sizes, n, process_type, detailed),
            Metric::ProcessedFailedTxnsReasonCount,
        ) == num_failures(outputs, n),
    decreases n,
{
    if n > 0 {
        let earlier = (n - 1) as nat;
        lemma_updates_of_chunk(txns, outputs, sizes, earlier, process_type, detailed);
        let before = all_transaction_actions(txns, outputs, sizes, earlier, process_type, detailed);
        let actions = transaction_actions(
            txns[n - 1],
            outputs[n - 1],
            sizes[n - 1],
            earlier as usize,
            process_type,
            detailed,
        );
        lemma_updates_of_transaction(
            txns[n - 1],
            outputs[n - 1],
            sizes[n - 1],
            earlier as usize,
            process_type,
            detailed,
        );
        lemma_num_updates_of_concatenation(before, actions, Metric::ProcessedTxnsCount);
        lemma_num_updates_of_concatenation(before, actions, Metric::ProcessedFailedTxnsReasonCount);
        reveal_strlit("");
        reveal_strlit("error");
    }
}

} // verus!
