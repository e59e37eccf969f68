//! What the VM hands back for a transaction.

use crate::hash::AccountAddress;
use crate::status::{ExecutionStatus, TransactionStatus};
use vstd::prelude::*;

verus! {

/// An event that a transaction emitted. The payload is held in its wire format.
#[derive(Debug, PartialEq, Eq)]
pub enum ContractEvent {
    /// An event on a numbered handle of an account.
    V1 {
        creator_address: AccountAddress,
        creation_number: u64,
        is_new_epoch_event: bool,
        bytes: Vec<u8>,
    },
    /// An event of a module.
    V2 { is_new_epoch_event: bool, bytes: Vec<u8> },
}

impl ContractEvent {
    /// Whether the event starts a new epoch.
    pub open spec fn starts_epoch(self) -> bool {
        match self {
            ContractEvent::V1 { is_new_epoch_event, .. } => is_new_epoch_event,
            ContractEvent::V2 { is_new_epoch_event, .. } => is_new_epoch_event,
        }
    }

    /// Whether the event starts a new epoch.
    pub fn is_new_epoch_event(&self) -> (starts: bool)
        ensures
            starts == self.starts_epoch(),
    {
        match self {
            ContractEvent::V1 { is_new_epoch_event, .. } => *is_new_epoch_event,
            ContractEvent::V2 { is_new_epoch_event, .. } => *is_new_epoch_event,
        }
    }
}

/// The writes of a transaction: pairs of a state key and a write operation, each
/// in its wire format.
#[derive(Debug, PartialEq, Eq)]
pub struct WriteSet {
    pub writes: Vec<(Vec<u8>, Vec<u8>)>,
}

impl WriteSet {
    /// A write set without writes.
    pub fn new_empty() -> (write_set: Self)
        ensures
            write_set.writes@.len() == 0,
    {
        WriteSet { writes: Vec::new() }
    }

    /// Whether there are no writes.
    pub fn is_empty(&self) -> (empty: bool)
        ensures
            empty == (self.writes@.len() == 0),
    {
        self.writes.is_empty()
    }
}

/// What the VM hands on beside the output proper, in its wire format.
#[derive(Debug, PartialEq, Eq)]
pub struct TransactionAuxiliaryData {
    pub detail: Option<Vec<u8>>,
}

/// A change of a `u128`, up or down.
#[derive(Clone, Copy, Debug, PartialEq, Eq)]
pub struct DeltaU128 {
    pub delta: u128,
    pub is_positive: bool,
}

impl DeltaU128 {
    /// The signed change.
    pub open spec fn signed(self) -> int {
        if self.is_positive {
            self.delta as int
        } else {
            -(self.delta as int)
        }
    }

    /// The value after the change.
    pub fn apply_to(self, value: u128) -> (changed: u128)
        requires
            0 <= value + self.signed() <= u128::MAX,
        ensures
            changed == value + self.signed(),
    {
        if self.is_positive {
            value + self.delta
        } else {
            value - self.delta
        }
    }
}

/// The output of a transaction.
#[derive(Debug, PartialEq, Eq)]
pub struct TransactionOutput {
    pub write_set: WriteSet,
    pub events: Vec<ContractEvent>,
    pub gas_used: u64,
    pub status: TransactionStatus,
    pub auxiliary_data: TransactionAuxiliaryData,
    /// How the transaction changed the total supply, where an executor shard left
    /// the total open.
    pub total_supply_delta: Option<DeltaU128>,
    /// The total supply after the transaction, once it is known.
    pub total_supply: Option<u128>,
}

impl TransactionOutput {
    /// An output with the given parts, and no word on the total supply.
    pub fn new(
        write_set: WriteSet,
        events: Vec<ContractEvent>,
        gas_used: u64,
        status: TransactionStatus,
        auxiliary_data: TransactionAuxiliaryData,
    ) -> (output: Self)
        ensures
            output == (TransactionOutput {
                write_set,
                events,
                gas_used,
                status,
                auxiliary_data,
                total_supply_delta: None,
                total_supply: None,
            }),
    {
        TransactionOutput {
            write_set,
            events,
            gas_used,
            status,
            auxiliary_data,
            total_supply_delta: None,
            total_supply: None,
        }
    }

    /// Whether this is the output of a transaction that succeeded without any
    /// effect and without a charge.
    pub open spec fn is_empty_success(self) -> bool {
        &&& self.write_set.writes@.len() == 0
        &&& self.events@.len() == 0
        &&& self.gas_used == 0
        &&& self.status == TransactionStatus::Keep(ExecutionStatus::Success)
        &&& self.auxiliary_data.detail is None
        &&& self.total_supply_delta is None
        &&& self.total_supply is None
    }

    /// The output of a transaction that succeeded without any effect and without a
    /// charge.
    pub fn empty_success() -> (output: Self)
        ensures
            output.is_empty_success(),
    {
        TransactionOutput::new(
            WriteSet::new_empty(),
            Vec::new(),
            0,
            TransactionStatus::Keep(ExecutionStatus::Success),
            TransactionAuxiliaryData { detail: None },
        )
    }

    /// Whether the transaction ends an epoch: it emitted an event that starts a
    /// new one.
    pub open spec fn reconfig(self) -> bool {
        exists|i: int| 0 <= i < self.events@.len() && (#[trigger] self.events@[i]).starts_epoch()
    }

    /// Whether the transaction ends an epoch.
    pub fn is_reconfig(&self) -> (reconfig: bool)
        ensures
            reconfig == self.reconfig(),
    {
        for i in 0..self.events.len()
            invariant
                forall|j: int| 0 <= j < i ==> !(#[trigger] self.events@[j]).starts_epoch(),
        {
            if self.events[i].is_new_epoch_event() {
                return true;
            }
        }
        false
    }
}

/// Something that holds the output of a transaction.
pub trait TransactionOutputProvider {
    /// The output that is held.
    spec fn output(&self) -> TransactionOutput;

    /// The output that is held.
    fn get_transaction_output(&self) -> (output: &TransactionOutput)
        ensures
            *output == self.output(),
    ;
}

impl TransactionOutputProvider for TransactionOutput {
    open spec fn output(&self) -> TransactionOutput {
        *self
    }

    fn get_transaction_output(&self) -> (output: &TransactionOutput) {
        self
    }
}

} // verus!
