use aptos_execution::chunk_counters::{
    can_count_in_detail, has_countable_signatures, update_counters_for_processed_chunk,
    CounterAction, Metric, MetricChange,
};
use aptos_execution::hash::{AccountAddress, HashValue};
use aptos_execution::output::{
    ContractEvent, TransactionAuxiliaryData, TransactionOutput, WriteSet,
};
use aptos_execution::status::{
    AbortInfo, AbortLocation, ExecutionStatus, StatusCode, TransactionStatus,
    SEQUENCE_NUMBER_TOO_NEW, SEQUENCE_NUMBER_TOO_OLD, TRANSACTION_EXPIRED,
};
use aptos_execution::transaction::{
    AccountAuthenticator, BlockEndInfo, SignatureVerifiedTransaction, Transaction,
    TransactionPayload, UserTransaction,
};

fn output(status: TransactionStatus) -> TransactionOutput {
    TransactionOutput::new(
        WriteSet { writes: vec![] },
        vec![],
        0,
        status,
        TransactionAuxiliaryData { detail: None },
    )
}

fn keep() -> TransactionOutput {
    output(TransactionStatus::Keep(ExecutionStatus::Success))
}

fn code(number: u64) -> StatusCode {
    StatusCode::from_number(number).unwrap()
}

fn increment(metric: Metric, labels: &[&str], amount: u64) -> CounterAction {
    CounterAction::Update {
        metric,
        labels: labels.iter().map(|label| label.to_string()).collect(),
        change: MetricChange::Increment(amount),
    }
}

fn observation(metric: Metric, labels: &[&str], value: u64) -> CounterAction {
    CounterAction::Update {
        metric,
        labels: labels.iter().map(|label| label.to_string()).collect(),
        change: MetricChange::Observe(value),
    }
}

fn count(txn: Transaction, output: TransactionOutput, detailed: bool) -> Vec<CounterAction> {
    update_counters_for_processed_chunk(&[txn], &[output], &[None], "exec", detailed)
}

fn validator_txn() -> Transaction {
    Transaction::ValidatorTransaction(vec![])
}

fn core_address() -> AccountAddress {
    let mut bytes = [0; 32];
    bytes[31] = 1;
    AccountAddress { bytes }
}

#[test]
fn status_codes_have_their_numbers_and_names() {
    assert_eq!(code(SEQUENCE_NUMBER_TOO_OLD).get_name(), "SEQUENCE_NUMBER_TOO_OLD");
    assert_eq!(code(SEQUENCE_NUMBER_TOO_NEW).get_name(), "SEQUENCE_NUMBER_TOO_NEW");
    assert_eq!(code(TRANSACTION_EXPIRED).get_name(), "TRANSACTION_EXPIRED");
    assert_eq!(code(SEQUENCE_NUMBER_TOO_OLD).get_number(), 3);
    assert_eq!(StatusCode::from_number(u64::MAX).map(|c| c.get_number()), Some(u64::MAX));
    assert_eq!(StatusCode::from_number(999_999), None);
}

#[test]
fn states_of_kept_transactions() {
    let state = |status: ExecutionStatus| -> Vec<CounterAction> {
        count(validator_txn(), output(TransactionStatus::Keep(status)), false)
    };
    let counted = |state: &str| {
        increment(Metric::ProcessedTxnsCount, &["exec", "validator_transaction", state], 1)
    };
    let failed = |reason: &str| {
        increment(
            Metric::ProcessedFailedTxnsReasonCount,
            &["false", "exec", "keep_rejected", reason, "error"],
            1,
        )
    };
    assert_eq!(state(ExecutionStatus::Success), vec![counted("keep_success")]);
    assert_eq!(
        state(ExecutionStatus::OutOfGas),
        vec![counted("keep_rejected"), failed("OutOfGas")]
    );
    assert_eq!(
        state(ExecutionStatus::MoveAbort { location: AbortLocation::Script, code: 3, info: None }),
        vec![counted("keep_rejected"), failed("MoveAbort")]
    );
    assert_eq!(
        state(ExecutionStatus::ExecutionFailure {
            location: AbortLocation::Script,
            function: 1,
            code_offset: 2
        }),
        vec![counted("keep_rejected"), failed("ExecutionFailure")]
    );
    assert_eq!(
        state(ExecutionStatus::MiscellaneousError(None)),
        vec![counted("keep_rejected"), failed("MiscellaneousError")]
    );
}

#[test]
fn detailed_error_codes_are_in_lower_case() {
    let reason = |status: TransactionStatus| -> CounterAction {
        count(validator_txn(), output(status), true).pop().unwrap()
    };
    let abort = |info: Option<AbortInfo>| {
        TransactionStatus::Keep(ExecutionStatus::MoveAbort {
            location: AbortLocation::Module {
                address: core_address(),
                name: "coin".to_string(),
            },
            code: 3,
            info,
        })
    };
    let failed = |state: &str, reason: &str, error: &str| {
        increment(
            Metric::ProcessedFailedTxnsReasonCount,
            &["true", "exec", state, reason, error],
            1,
        )
    };
    assert_eq!(
        reason(abort(Some(AbortInfo {
            reason_name: "EInsufficient_BALANCE".to_string(),
            description: "d".to_string()
        }))),
        failed("keep_rejected", "MoveAbort", "einsufficient_balance")
    );
    assert_eq!(reason(abort(None)), failed("keep_rejected", "MoveAbort", "none"));
    assert_eq!(
        reason(TransactionStatus::Keep(ExecutionStatus::MiscellaneousError(Some(code(5))))),
        failed("keep_rejected", "MiscellaneousError", "insufficient_balance_for_transaction_fee")
    );
    assert_eq!(
        reason(TransactionStatus::Keep(ExecutionStatus::MiscellaneousError(None))),
        failed("keep_rejected", "MiscellaneousError", "none")
    );
    assert_eq!(
        reason(TransactionStatus::Discard(code(SEQUENCE_NUMBER_TOO_OLD))),
        failed("discard_sequence_number_too_old", "error_code", "sequence_number_too_old")
    );
}

#[test]
fn abort_without_a_name_is_no_counted_reason() {
    let status = TransactionStatus::Keep(ExecutionStatus::MoveAbort {
        location: AbortLocation::Script,
        code: 1,
        info: Some(AbortInfo { reason_name: String::new(), description: String::new() }),
    });
    assert_eq!(
        count(validator_txn(), output(status), true),
        vec![increment(
            Metric::ProcessedTxnsCount,
            &["exec", "validator_transaction", "keep_rejected"],
            1
        )]
    );
}

#[test]
fn usual_discards_are_told_apart_and_others_warned_of() {
    let actions = |number: u64| -> Vec<CounterAction> {
        count(validator_txn(), output(TransactionStatus::Discard(code(number))), false)
    };
    let expected = |state: &str| {
        vec![
            increment(Metric::ProcessedTxnsCount, &["exec", "validator_transaction", state], 1),
            increment(
                Metric::ProcessedFailedTxnsReasonCount,
                &["false", "exec", state, "error_code", "error"],
                1,
            ),
        ]
    };
    assert_eq!(actions(SEQUENCE_NUMBER_TOO_OLD), expected("discard_sequence_number_too_old"));
    assert_eq!(actions(SEQUENCE_NUMBER_TOO_NEW), expected("discard_sequence_number_too_new"));
    assert_eq!(actions(TRANSACTION_EXPIRED), expected("discard_transaction_expired"));
    let mut warned = expected("discard");
    warned.insert(0, CounterAction::WarnDiscarded { index: 0, status_code: 5 });
    assert_eq!(actions(5), warned);
}

#[test]
fn retry_is_counted_without_a_reason() {
    assert_eq!(
        count(validator_txn(), output(TransactionStatus::Retry), true),
        vec![increment(Metric::ProcessedTxnsCount, &["exec", "validator_transaction", "retry"], 1)]
    );
}

#[test]
fn kinds_of_transactions() {
    let hash = HashValue::zero();
    let block_end_info = BlockEndInfo {
        block_gas_limit_reached: false,
        block_output_limit_reached: false,
        block_effective_block_gas_units: 0,
        block_approx_output_size: 0,
    };
    let cases = vec![
        (Transaction::GenesisTransaction(vec![]), "genesis"),
        (Transaction::BlockMetadata(vec![]), "block_metadata"),
        (Transaction::BlockMetadataExt(vec![]), "block_metadata_ext"),
        (Transaction::StateCheckpoint(hash), "state_checkpoint"),
        (Transaction::BlockEpilogue { block_id: hash, block_end_info }, "block_epilogue"),
        (Transaction::ValidatorTransaction(vec![]), "validator_transaction"),
    ];
    for (txn, kind) in cases {
        assert_eq!(
            count(txn, keep(), false),
            vec![increment(Metric::ProcessedTxnsCount, &["exec", kind, "keep_success"], 1)]
        );
    }
    let invalid = SignatureVerifiedTransaction::Invalid(validator_txn());
    assert_eq!(
        update_counters_for_processed_chunk(&[invalid], &[keep()], &[], "exec", false),
        vec![increment(Metric::ProcessedTxnsCount, &["exec", "unknown", "keep_success"], 1)]
    );
    let valid = SignatureVerifiedTransaction::Valid(validator_txn());
    assert_eq!(
        update_counters_for_processed_chunk(&[valid], &[keep()], &[], "exec", false),
        vec![increment(
            Metric::ProcessedTxnsCount,
            &["exec", "validator_transaction", "keep_success"],
            1
        )]
    );
}

fn user(payload: TransactionPayload) -> Transaction {
    Transaction::UserTransaction(UserTransaction {
        authenticators: vec![
            AccountAuthenticator::Ed25519,
            AccountAuthenticator::MultiEd25519 { num_signatures: 3 },
            AccountAuthenticator::SingleKey { signature_name: "WebAuthn".to_string() },
            AccountAuthenticator::MultiKey {
                signature_names: vec!["Keyless".to_string(), "Ed25519".to_string()],
            },
            AccountAuthenticator::NoAccountAuthenticator,
        ],
        payload,
        bytes: vec![],
    })
}

#[test]
fn signatures_are_counted_in_detail() {
    let signer = |label: &str, amount: u64| {
        increment(Metric::ProcessedTxnsAuthenticator, &["exec", label], amount)
    };
    assert_eq!(
        count(user(TransactionPayload::Script), keep(), true),
        vec![
            increment(
                Metric::ProcessedTxnsCount,
                &["exec", "user_transaction", "keep_success"],
                1
            ),
            signer("Ed25519", 1),
            signer("Ed25519_in_MultiEd25519", 3),
            signer("WebAuthn_in_SingleKey", 1),
            signer("Keyless_in_MultiKey", 1),
            signer("Ed25519_in_MultiKey", 1),
            signer("NoAccountAuthenticator", 1),
            observation(Metric::ProcessedTxnsNumAuthenticators, &["exec"], 7),
            increment(
                Metric::ProcessedUserTxnsByPayload,
                &["exec", "script", "keep_success"],
                1
            ),
        ]
    );
}

#[test]
fn payloads_are_counted() {
    let last = |payload: TransactionPayload| -> CounterAction {
        count(user(payload), keep(), false).pop().unwrap()
    };
    let counted = |kind: &str| {
        increment(Metric::ProcessedUserTxnsByPayload, &["exec", kind, "keep_success"], 1)
    };
    assert_eq!(last(TransactionPayload::Script), counted("script"));
    assert_eq!(last(TransactionPayload::Multisig), counted("multisig"));
    assert_eq!(last(TransactionPayload::ModuleBundle), counted("deprecated_module_bundle"));
}

#[test]
fn entry_functions_are_counted_by_module() {
    let call = |module_address: AccountAddress, detailed: bool| -> Vec<CounterAction> {
        let payload = TransactionPayload::EntryFunction {
            module_address,
            module_name: "coin".to_string(),
            function_name: "transfer".to_string(),
        };
        let actions = count(user(payload), keep(), detailed);
        let skipped = if detailed { 8 } else { 1 };
        actions.into_iter().skip(skipped).collect()
    };
    let by_payload =
        || increment(Metric::ProcessedUserTxnsByPayload, &["exec", "function", "keep_success"], 1);
    let by_module = |detailed: &str, origin: &str, module: &str| {
        increment(
            Metric::ProcessedUserTxnsEntryFunctionByModule,
            &[detailed, "exec", origin, module, "keep_success"],
            1,
        )
    };
    let other = AccountAddress { bytes: [1; 32] };
    assert_eq!(
        call(core_address(), false),
        vec![by_payload(), by_module("false", "core", "core_module")]
    );
    assert_eq!(call(other, false), vec![by_payload(), by_module("false", "user", "user_module")]);
    assert_eq!(
        call(core_address(), true),
        vec![
            by_payload(),
            by_module("true", "core", "coin"),
            increment(
                Metric::ProcessedUserTxnsEntryFunctionByCoreMethod,
                &["exec", "coin", "transfer", "keep_success"],
                1
            ),
        ]
    );
    assert_eq!(call(other, true), vec![by_payload(), by_module("true", "user", "coin")]);
}

#[test]
fn events_are_counted_by_origin() {
    let events = |detailed: bool| -> Vec<CounterAction> {
        let mut output = keep();
        output.events = vec![
            ContractEvent::V1 {
                creator_address: core_address(),
                creation_number: 12,
                is_new_epoch_event: false,
                bytes: vec![],
            },
            ContractEvent::V1 {
                creator_address: AccountAddress { bytes: [0; 32] },
                creation_number: 0,
                is_new_epoch_event: false,
                bytes: vec![],
            },
            ContractEvent::V2 { is_new_epoch_event: false, bytes: vec![] },
        ];
        count(validator_txn(), output, detailed).into_iter().skip(1).collect()
    };
    let counted = |detailed: &str, origin: &str, number: &str| {
        increment(Metric::ProcessedUserTxnsCoreEvents, &[detailed, "exec", origin, number], 1)
    };
    assert_eq!(
        events(true),
        vec![
            counted("true", "core", "12"),
            counted("true", "user", "0"),
            counted("true", "user", "event")
        ]
    );
    assert_eq!(
        events(false),
        vec![
            counted("false", "core", "event"),
            counted("false", "user", "event"),
            counted("false", "user", "event")
        ]
    );
}

#[test]
fn size_of_an_output_is_observed_in_detail() {
    let sized = |size: Option<u64>, detailed: bool| -> Vec<CounterAction> {
        update_counters_for_processed_chunk(
            &[validator_txn()],
            &[TransactionOutput::empty_success()],
            &[size],
            "exec",
            detailed,
        )
    };
    assert_eq!(
        sized(Some(321), true)[0],
        observation(Metric::ProcessedTxnsOutputSize, &["exec"], 321)
    );
    assert_eq!(sized(Some(321), true).len(), 2);
    assert_eq!(sized(Some(321), false).len(), 1);
    assert_eq!(sized(None, true).len(), 1);
}

#[test]
fn counters_add_up() {
    let discard = || output(TransactionStatus::Discard(code(5)));
    let first = || {
        update_counters_for_processed_chunk(
            &[validator_txn(), user(TransactionPayload::Script)],
            &[keep(), keep()],
            &[Some(1), None],
            "exec",
            true,
        )
    };
    let second = update_counters_for_processed_chunk(
        &[validator_txn()],
        &[discard()],
        &[Some(3)],
        "exec",
        true,
    );
    let both = update_counters_for_processed_chunk(
        &[validator_txn(), user(TransactionPayload::Script), validator_txn()],
        &[keep(), keep(), discard()],
        &[Some(1), None, Some(3)],
        "exec",
        true,
    );
    let updates = |actions: Vec<CounterAction>| -> Vec<CounterAction> {
        let is_update = |action: &CounterAction| matches!(action, CounterAction::Update { .. });
        actions.into_iter().filter(is_update).collect()
    };
    let mut expected = updates(first());
    expected.extend(updates(second));
    assert_eq!(updates(both), expected);
}

#[test]
fn signatures_that_cannot_be_counted_are_found() {
    let signed = |counts: &[usize]| {
        Transaction::UserTransaction(UserTransaction {
            authenticators: counts
                .iter()
                .map(|count| AccountAuthenticator::MultiEd25519 { num_signatures: *count })
                .collect(),
            payload: TransactionPayload::Script,
            bytes: vec![],
        })
    };
    assert!(has_countable_signatures(None));
    assert!(has_countable_signatures(Some(&validator_txn())));
    assert!(has_countable_signatures(Some(&signed(&[usize::MAX, 0]))));
    assert!(!has_countable_signatures(Some(&signed(&[usize::MAX, 1]))));

    let txns = [validator_txn(), signed(&[usize::MAX, 1])];
    assert!(can_count_in_detail(&txns, 1, 1));
    assert!(!can_count_in_detail(&txns, 2, 2));
    assert!(!can_count_in_detail(&txns, 1, 0));
}

#[test]
fn each_transaction_of_a_chunk_is_counted() {
    let txns = [validator_txn(), validator_txn(), validator_txn()];
    let outputs = [keep(), output(TransactionStatus::Retry), keep()];
    let actions = update_counters_for_processed_chunk(&txns, &outputs, &[], "exec", false);
    let states: Vec<&str> = vec!["keep_success", "retry", "keep_success"];
    let expected: Vec<CounterAction> = states
        .iter()
        .map(|state| {
            increment(Metric::ProcessedTxnsCount, &["exec", "validator_transaction", state], 1)
        })
        .collect();
    assert_eq!(actions, expected);
}

#[test]
fn lengths_that_differ_are_warned_of() {
    let txns = [validator_txn(), validator_txn()];
    assert_eq!(
        update_counters_for_processed_chunk(&txns, &[keep()], &[], "exec", false),
        vec![
            CounterAction::WarnLengthMismatch { transactions: 2, outputs: 1 },
            increment(
                Metric::ProcessedTxnsCount,
                &["exec", "validator_transaction", "keep_success"],
                1
            ),
        ]
    );
}
