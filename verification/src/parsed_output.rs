//! Transactions side by side with their outputs.

use crate::output::TransactionOutput;
use crate::sequence::paired;
use crate::status::TransactionStatus;
use crate::transaction::Transaction;
use vstd::prelude::*;

verus! {

/// A transaction with its output.
pub type TransactionAndOutput = (Transaction, TransactionOutput);

/// The output of a transaction, once searched for the events that end an epoch.
#[derive(Debug, PartialEq, Eq)]
pub struct ParsedTransactionOutput {
    output: TransactionOutput,
    reconfig: bool,
}

impl ParsedTransactionOutput {
    #[verifier::type_invariant]
    spec fn well_formed(self) -> bool {
        self.reconfig == self.output.reconfig()
    }

    /// The output itself.
    pub closed spec fn output(self) -> TransactionOutput {
        self.output
    }

    /// Searches the events of `output`.
    pub fn parse(output: TransactionOutput) -> (parsed: Self)
        ensures
            parsed.output() == output,
    {
        let reconfig = output.is_reconfig();
        ParsedTransactionOutput { output, reconfig }
    }

    /// Whether the transaction ends an epoch.
    pub fn is_reconfig(&self) -> (reconfig: bool)
        ensures
            reconfig == self.output().reconfig(),
    {
        proof {
            use_type_invariant(self);
        }
        self.reconfig
    }

    /// What is to become of the transaction.
    pub fn status(&self) -> (status: &TransactionStatus)
        ensures
            *status == self.output().status,
    {
        &self.output.status
    }

    /// The output itself.
    pub fn get_output(&self) -> (output: &TransactionOutput)
        ensures
            *output == self.output(),
    {
        &self.output
    }
}

/// The outputs themselves.
pub open spec fn raw_outputs(parsed: Seq<ParsedTransactionOutput>) -> Seq<TransactionOutput> {
    parsed.map_values(|p: ParsedTransactionOutput| p.output())
}

/// A list of transactions, each with its parsed output.
#[derive(Debug, PartialEq, Eq)]
pub struct TransactionsWithParsedOutput {
    transactions: Vec<Transaction>,
    parsed_output: Vec<ParsedTransactionOutput>,
}

impl View for TransactionsWithParsedOutput {
    type V = Seq<TransactionAndOutput>;

    closed spec fn view(&self) -> Seq<TransactionAndOutput> {
        paired(self.transactions@, raw_outputs(self.parsed_output@))
    }
}

/// Whether the last transaction of `pairs` ends an epoch.
pub open spec fn ends_epoch(pairs: Seq<TransactionAndOutput>) -> bool {
    pairs.len() > 0 && pairs.last().1.reconfig()
}

impl TransactionsWithParsedOutput {
    #[verifier::type_invariant]
    spec fn well_formed(self) -> bool {
        self.transactions@.len() == self.parsed_output@.len()
    }

    /// The list of the given transactions with the given outputs.
    pub fn new(
        transactions: Vec<Transaction>,
        parsed_output: Vec<ParsedTransactionOutput>,
    ) -> (list: Self)
        requires
            transactions@.len() == parsed_output@.len(),
        ensures
            list@ == paired(transactions@, raw_outputs(parsed_output@)),
    {
        TransactionsWithParsedOutput { transactions, parsed_output }
    }

    /// An empty list.
    pub fn new_empty() -> (list: Self)
        ensures
            list@ == Seq::<TransactionAndOutput>::empty(),
    {
        let list = TransactionsWithParsedOutput {
            transactions: Vec::new(),
            parsed_output: Vec::new(),
        };
        assert(list@ =~= Seq::<TransactionAndOutput>::empty());
        list
    }

    /// Adds a transaction with its output at the end.
    pub fn push(&mut self, transaction: Transaction, parsed_output: ParsedTransactionOutput)
        ensures
            final(self)@ == old(self)@.push((transaction, parsed_output.output())),
    {
        proof {
            use_type_invariant(&*self);
        }
        let ghost before = *self;
        let mut list = TransactionsWithParsedOutput::new_empty();
        std::mem::swap(&mut list, self);
        let mut transactions = list.transactions;
        let mut outputs = list.parsed_output;
        transactions.push(transaction);
        outputs.push(parsed_output);
        *self = TransactionsWithParsedOutput { transactions, parsed_output: outputs };
        assert(self@ =~= before@.push((transaction, parsed_output.output())));
    }

    /// The number of transactions.
    pub fn len(&self) -> (len: usize)
        ensures
            len == self@.len(),
    {
        self.transactions.len()
    }

    /// Whether there are no transactions.
    pub fn is_empty(&self) -> (empty: bool)
        ensures
            empty == (self@.len() == 0),
    {
        self.transactions.is_empty()
    }

    /// The transaction at place `i`.
    pub fn transaction(&self, i: usize) -> (transaction: &Transaction)
        requires
            i < self@.len(),
        ensures
            *transaction == self@[i as int].0,
    {
        &self.transactions[i]
    }

    /// The output at place `i`.
    pub fn parsed_output(&self, i: usize) -> (parsed: &ParsedTransactionOutput)
        requires
            i < self@.len(),
        ensures
            parsed.output() == self@[i as int].1,
    {
        proof {
            use_type_invariant(self);
        }
        &self.parsed_output[i]
    }

    /// Whether the last transaction ends an epoch.
    pub fn ends_epoch(&self) -> (ends: bool)
        ensures
            ends == ends_epoch(self@),
    {
        proof {
            use_type_invariant(self);
        }
        let len = self.parsed_output.len();
        if len == 0 {
            false
        } else {
            self.parsed_output[len - 1].is_reconfig()
        }
    }
}

} // verus!
