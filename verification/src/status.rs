//! How the execution of a transaction ended.

use crate::hash::AccountAddress;
use vstd::prelude::*;

verus! {

/// The name that `move_core_types` gives to the status code with number `code`,
/// if there is such a code.
pub uninterp spec fn status_code_name(code: u64) -> Option<Seq<char>>;

/// Calls `move_core_types::vm_status::StatusCode::try_from` and formats the code
/// with its `Debug` impl.
///
/// Trusted: the conversion fails exactly on the numbers that have no code, and
/// both it and the name depend on the number alone.
#[verifier::external_body]
fn name_of_status_code(code: u64) -> (name: Option<String>)
    ensures
        name is Some <==> status_code_name(code) is Some,
        name matches Some(text) ==> status_code_name(code) == Some(text@),
{
    match move_core_types::vm_status::StatusCode::try_from(code) {
        Ok(status) => Some(format!("{:?}", status)),
        Err(_) => None,
    }
}

/// The number of the code for a sequence number that was used before.
pub const SEQUENCE_NUMBER_TOO_OLD: u64 = 3;

/// The number of the code for a sequence number that is too far ahead.
pub const SEQUENCE_NUMBER_TOO_NEW: u64 = 4;

/// The number of the code for a transaction that has expired.
pub const TRANSACTION_EXPIRED: u64 = 6;

/// A status code of the Move VM: its number and its name.
#[derive(Debug, PartialEq, Eq)]
pub struct StatusCode {
    number: u64,
    name: String,
}

impl StatusCode {
    /// The number of the code.
    pub closed spec fn number(self) -> u64 {
        self.number
    }

    /// The name of the code.
    pub closed spec fn name(self) -> Seq<char> {
        self.name@
    }

    /// The code with the given number, if there is one.
    pub fn from_number(number: u64) -> (code: Option<Self>)
        ensures
            code is Some <==> status_code_name(number) is Some,
            code matches Some(c) ==> c.number() == number && status_code_name(number) == Some(
                c.name(),
            ),
    {
        match name_of_status_code(number) {
            Some(name) => Some(StatusCode { number, name }),
            None => None,
        }
    }

    /// The number of the code.
    pub fn get_number(&self) -> (number: u64)
        ensures
            number == self.number(),
    {
        self.number
    }

    /// The name of the code.
    pub fn get_name(&self) -> (name: &str)
        ensures
            name@ == self.name(),
    {
        self.name.as_str()
    }
}

impl Clone for StatusCode {
    fn clone(&self) -> (copy: Self)
        ensures
            copy == *self,
    {
        StatusCode { number: self.number, name: self.name.clone() }
    }
}

/// Where an abort or a failure happened.
#[derive(Debug, PartialEq, Eq)]
pub enum AbortLocation {
    /// In the function of a published module.
    Module { address: AccountAddress, name: String },
    /// In a script.
    Script,
}

impl Clone for AbortLocation {
    fn clone(&self) -> (copy: Self)
        ensures
            copy == *self,
    {
        match self {
            AbortLocation::Module { address, name } => AbortLocation::Module {
                address: *address,
                name: name.clone(),
            },
            AbortLocation::Script => AbortLocation::Script,
        }
    }
}

/// What a module says of one of its abort codes.
#[derive(Debug, PartialEq, Eq)]
pub struct AbortInfo {
    pub reason_name: String,
    pub description: String,
}

impl Clone for AbortInfo {
    fn clone(&self) -> (copy: Self)
        ensures
            copy == *self,
    {
        AbortInfo {
            reason_name: self.reason_name.clone(),
            description: self.description.clone(),
        }
    }
}

/// How a transaction that is kept was executed.
#[derive(Debug, PartialEq, Eq)]
pub enum ExecutionStatus {
    Success,
    OutOfGas,
    MoveAbort { location: AbortLocation, code: u64, info: Option<AbortInfo> },
    ExecutionFailure { location: AbortLocation, function: u16, code_offset: u16 },
    MiscellaneousError(Option<StatusCode>),
}

impl Clone for ExecutionStatus {
    fn clone(&self) -> (copy: Self)
        ensures
            copy == *self,
    {
        match self {
            ExecutionStatus::Success => ExecutionStatus::Success,
            ExecutionStatus::OutOfGas => ExecutionStatus::OutOfGas,
            ExecutionStatus::MoveAbort { location, code, info } => ExecutionStatus::MoveAbort {
                location: location.clone(),
                code: *code,
                info: match info {
                    Some(info) => Some(info.clone()),
                    None => None,
                },
            },
            ExecutionStatus::ExecutionFailure { location, function, code_offset } => {
                ExecutionStatus::ExecutionFailure {
                    location: location.clone(),
                    function: *function,
                    code_offset: *code_offset,
                }
            },
            ExecutionStatus::MiscellaneousError(code) => ExecutionStatus::MiscellaneousError(
                match code {
                    Some(code) => Some(code.clone()),
                    None => None,
                },
            ),
        }
    }
}

/// What is to become of a transaction.
#[derive(Debug, PartialEq, Eq)]
pub enum TransactionStatus {
    /// Leave it out of the ledger for good.
    Discard(StatusCode),
    /// Commit it.
    Keep(ExecutionStatus),
    /// Leave it out of this block and try it again.
    Retry,
}

impl TransactionStatus {
    /// Whether the transaction stays out of the ledger with this status: only a
    /// transaction that is kept does not.
    pub open spec fn discarded(self) -> bool {
        !(self is Keep)
    }

    /// Whether the transaction stays out of the ledger with this status.
    pub fn is_discarded(&self) -> (discarded: bool)
        ensures
            discarded == self.discarded(),
    {
        match self {
            TransactionStatus::Keep(_) => false,
            TransactionStatus::Discard(_) => true,
            TransactionStatus::Retry => true,
        }
    }

    /// Whether the transaction is to be tried again.
    pub fn is_retry(&self) -> (retry: bool)
        ensures
            retry == (*self is Retry),
    {
        match self {
            TransactionStatus::Retry => true,
            _ => false,
        }
    }
}

impl Clone for TransactionStatus {
    fn clone(&self) -> (copy: Self)
        ensures
            copy == *self,
    {
        match self {
            TransactionStatus::Discard(code) => TransactionStatus::Discard(code.clone()),
            TransactionStatus::Keep(status) => TransactionStatus::Keep(status.clone()),
            TransactionStatus::Retry => TransactionStatus::Retry,
        }
    }
}

} // verus!
