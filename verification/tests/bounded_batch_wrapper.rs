use aptos_execution::bounded_batch_wrapper::{
    BoundedBatchWrapperTransactionGeneratorCreator, TransactionGenerator,
    TransactionGeneratorCreator,
};

/// Hands out numbered transactions, and notes what it was asked for.
struct Numbering {
    next: u64,
    requests: Vec<usize>,
}

impl TransactionGenerator<u8, u64> for Numbering {
    fn generate_transactions(&mut self, account: &u8, num_to_create: usize) -> Vec<u64> {
        self.requests.push(num_to_create);
        let mut transactions = Vec::new();
        for _ in 0..num_to_create {
            transactions.push(self.next + 1000 * (*account as u64));
            self.next += 1;
        }
        transactions
    }
}

struct NumberingCreator;

impl TransactionGeneratorCreator<u8, u64> for NumberingCreator {
    type Generator = Numbering;

    fn create_transaction_generator(&self) -> Numbering {
        Numbering { next: 0, requests: Vec::new() }
    }
}

#[test]
fn large_request_is_cut_down_to_the_batch_size() {
    let creator = BoundedBatchWrapperTransactionGeneratorCreator::new(3, NumberingCreator);
    let mut generator = creator.create_transaction_generator();
    assert_eq!(generator.generate_transactions(&2, 10), vec![2000, 2001, 2002]);
    assert_eq!(generator.generate_transactions(&2, 4), vec![2003, 2004, 2005]);
}

#[test]
fn small_request_is_passed_on() {
    let creator = BoundedBatchWrapperTransactionGeneratorCreator::new(3, NumberingCreator);
    let mut generator = creator.create_transaction_generator();
    assert_eq!(generator.generate_transactions(&1, 3), vec![1000, 1001, 1002]);
    assert_eq!(generator.generate_transactions(&1, 2), vec![1003, 1004]);
    assert_eq!(generator.generate_transactions(&1, 0), Vec::<u64>::new());
}

#[test]
fn batch_size_zero_gives_nothing() {
    let creator = BoundedBatchWrapperTransactionGeneratorCreator::new(0, NumberingCreator);
    let mut generator = creator.create_transaction_generator();
    assert_eq!(generator.generate_transactions(&1, 5), Vec::<u64>::new());
}

#[test]
fn of_two_bounds_the_smaller_counts() {
    let inner = BoundedBatchWrapperTransactionGeneratorCreator::new(2, NumberingCreator);
    let outer = BoundedBatchWrapperTransactionGeneratorCreator::new(5, inner);
    let mut generator = outer.create_transaction_generator();
    assert_eq!(generator.generate_transactions(&0, 10), vec![0, 1]);

    let inner = BoundedBatchWrapperTransactionGeneratorCreator::new(5, NumberingCreator);
    let outer = BoundedBatchWrapperTransactionGeneratorCreator::new(2, inner);
    let mut generator = outer.create_transaction_generator();
    assert_eq!(generator.generate_transactions(&0, 10), vec![0, 1]);
}

#[test]
fn each_generator_starts_anew() {
    let creator = BoundedBatchWrapperTransactionGeneratorCreator::new(2, NumberingCreator);
    let mut first = creator.create_transaction_generator();
    let mut second = creator.create_transaction_generator();
    assert_eq!(first.generate_transactions(&0, 2), vec![0, 1]);
    assert_eq!(second.generate_transactions(&0, 2), vec![0, 1]);
}
