//! The transactions of a block.

use crate::hash::{AccountAddress, HashValue};
use vstd::prelude::*;

verus! {

/// How one signer of a user transaction authenticated.
#[derive(Debug, PartialEq, Eq)]
pub enum AccountAuthenticator {
    /// With one Ed25519 signature.
    Ed25519,
    /// With `num_signatures` Ed25519 signatures.
    MultiEd25519 { num_signatures: usize },
    /// With one signature of the scheme `signature_name`.
    SingleKey { signature_name: String },
    /// With one signature of each of the schemes `signature_names`.
    MultiKey { signature_names: Vec<String> },
    /// Not at all.
    NoAccountAuthenticator,
}

/// What a user transaction calls.
#[derive(Debug, PartialEq, Eq)]
pub enum TransactionPayload {
    Script,
    ModuleBundle,
    EntryFunction {
        module_address: AccountAddress,
        module_name: String,
        function_name: String,
    },
    Multisig,
}

/// A transaction that a user signed.
#[derive(Debug, PartialEq, Eq)]
pub struct UserTransaction {
    /// The authenticators of all signers.
    pub authenticators: Vec<AccountAuthenticator>,
    pub payload: TransactionPayload,
    /// The whole transaction in its wire format.
    pub bytes: Vec<u8>,
}

/// How a block ended.
#[derive(Clone, Copy, Debug, PartialEq, Eq)]
pub struct BlockEndInfo {
    pub block_gas_limit_reached: bool,
    pub block_output_limit_reached: bool,
    pub block_effective_block_gas_units: u64,
    pub block_approx_output_size: u64,
}

/// A transaction. A kind that is only passed on is held in its wire format.
#[derive(Debug, PartialEq, Eq)]
pub enum Transaction {
    UserTransaction(UserTransaction),
    GenesisTransaction(Vec<u8>),
    BlockMetadata(Vec<u8>),
    BlockMetadataExt(Vec<u8>),
    StateCheckpoint(HashValue),
    ValidatorTransaction(Vec<u8>),
    BlockEpilogue { block_id: HashValue, block_end_info: BlockEndInfo },
}

/// A transaction whose signature was looked at.
#[derive(Debug, PartialEq, Eq)]
pub enum SignatureVerifiedTransaction {
    Valid(Transaction),
    Invalid(Transaction),
}

impl SignatureVerifiedTransaction {
    /// The transaction, whether or not its signature is valid.
    pub open spec fn inner(self) -> Transaction {
        match self {
            SignatureVerifiedTransaction::Valid(txn) => txn,
            SignatureVerifiedTransaction::Invalid(txn) => txn,
        }
    }

    /// The transaction, whether or not its signature is valid.
    pub fn into_inner(self) -> (txn: Transaction)
        ensures
            txn == self.inner(),
    {
        match self {
            SignatureVerifiedTransaction::Valid(txn) => txn,
            SignatureVerifiedTransaction::Invalid(txn) => txn,
        }
    }
}

/// Something that may hold a transaction.
pub trait TransactionProvider {
    /// The transaction that is held, if any.
    spec fn transaction(&self) -> Option<Transaction>;

    /// The transaction that is held, if any.
    fn get_transaction(&self) -> (txn: Option<&Transaction>)
        ensures
            match self.transaction() {
                Some(held) => txn == Some(&held),
                None => txn is None,
            },
    ;
}

impl TransactionProvider for Transaction {
    open spec fn transaction(&self) -> Option<Transaction> {
        Some(*self)
    }

    fn get_transaction(&self) -> (txn: Option<&Transaction>) {
        Some(self)
    }
}

impl TransactionProvider for SignatureVerifiedTransaction {
    /// Only a transaction with a valid signature is handed out.
    open spec fn transaction(&self) -> Option<Transaction> {
        match self {
            SignatureVerifiedTransaction::Valid(txn) => Some(*txn),
            SignatureVerifiedTransaction::Invalid(_) => None,
        }
    }

    fn get_transaction(&self) -> (txn: Option<&Transaction>) {
        match self {
            SignatureVerifiedTransaction::Valid(txn) => Some(txn),
            SignatureVerifiedTransaction::Invalid(_) => None,
        }
    }
}

} // verus!
