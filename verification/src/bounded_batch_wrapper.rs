//! A transaction generator that never asks the generator it wraps for more than
//! a fixed number of transactions at a time.

use vstd::prelude::*;

verus! {

/// A source of signed transactions of type `T`, made on behalf of accounts of
/// type `A`.
pub trait TransactionGenerator<A, T>: Sized {
    /// Whether, asked for `num_to_create` transactions of `account`, the
    /// generator `self` may hand out `transactions` and become `after`. A generator
    /// that does not say may do anything.
    open spec fn may_generate(
        self,
        account: A,
        num_to_create: nat,
        transactions: Seq<T>,
        after: Self,
    ) -> bool {
        true
    }

    /// Generates transactions of `account`, when asked for `num_to_create` of
    /// them.
    fn generate_transactions(&mut self, account: &A, num_to_create: usize) -> (transactions: Vec<T>)
        ensures
            old(self).may_generate(
                *account,
                num_to_create as nat,
                transactions@,
                *final(self),
            ),
    ;
}

/// A factory of transaction generators.
pub trait TransactionGeneratorCreator<A, T> {
    /// The generators that the factory makes.
    type Generator: TransactionGenerator<A, T>;

    /// Whether `generator` is one that this factory may make. A factory that does
    /// not say may make any.
    open spec fn may_create(&self, generator: Self::Generator) -> bool {
        true
    }

    /// Makes a new generator.
    fn create_transaction_generator(&self) -> (generator: Self::Generator)
        ensures
            self.may_create(generator),
    ;
}

/// What is asked of a generator bounded by `batch_size` when its user asks for
/// `num_to_create`.
pub open spec fn bounded_request(batch_size: nat, num_to_create: nat) -> nat {
    if num_to_create <= batch_size {
        num_to_create
    } else {
        batch_size
    }
}

/// A generator that cuts each request down to a batch size before it passes it
/// on.
pub struct BoundedBatchWrapperTransactionGenerator<G> {
    batch_size: usize,
    generator: G,
}

impl<G> BoundedBatchWrapperTransactionGenerator<G> {
    /// The most that is asked of the wrapped generator at a time.
    pub closed spec fn batch_size(self) -> nat {
        self.batch_size as nat
    }

    /// The wrapped generator.
    pub closed spec fn generator(self) -> G {
        self.generator
    }
}

impl<A, T, G: TransactionGenerator<A, T>> TransactionGenerator<
    A,
    T,
> for BoundedBatchWrapperTransactionGenerator<G> {
    open spec fn may_generate(
        self,
        account: A,
        num_to_create: nat,
        transactions: Seq<T>,
        after: Self,
    ) -> bool {
        &&& after.batch_size() == self.batch_size()
        &&& self.generator().may_generate(
            account,
            bounded_request(self.batch_size(), num_to_create),
            transactions,
            after.generator(),
        )
    }

    fn generate_transactions(
        &mut self,
        account: &A,
        num_to_create: usize,
    ) -> (transactions: Vec<T>) {
        let request = if num_to_create <= self.batch_size {
            num_to_create
        } else {
            self.batch_size
        };
        self.generator.generate_transactions(account, request)
    }
}

/// A factory of generators that are bounded by a batch size, each round a new
/// generator of the wrapped factory.
pub struct BoundedBatchWrapperTransactionGeneratorCreator<C> {
    batch_size: usize,
    generator_creator: C,
}

impl<C> BoundedBatchWrapperTransactionGeneratorCreator<C> {
    /// The bound of the generators that this factory makes.
    pub closed spec fn batch_size(&self) -> nat {
        self.batch_size as nat
    }

    /// The wrapped factory.
    pub closed spec fn generator_creator(&self) -> C {
        self.generator_creator
    }

    /// Wraps `generator_creator`.
    pub fn new(batch_size: usize, generator_creator: C) -> (creator: Self)
        ensures
            creator.batch_size() == batch_size,
            creator.generator_creator() == generator_creator,
    {
        Self { batch_size, generator_creator }
    }
}

impl<A, T, C: TransactionGeneratorCreator<A, T>> TransactionGeneratorCreator<
    A,
    T,
> for BoundedBatchWrapperTransactionGeneratorCreator<C> {
    type Generator = BoundedBatchWrapperTransactionGenerator<C::Generator>;

    open spec fn may_create(&self, generator: Self::Generator) -> bool {
        &&& generator.batch_size() == self.batch_size()
        &&& self.generator_creator().may_create(generator.generator())
    }

    fn create_transaction_generator(&self) -> (generator: Self::Generator) {
        BoundedBatchWrapperTransactionGenerator {
            batch_size: self.batch_size,
            generator: self.generator_creator.create_transaction_generator(),
        }
    }
}

/// Where the wrapped generator never hands out more than it is asked for, the
/// bounded generator hands out neither more than it is asked for nor more than
/// its batch size.
pub proof fn bounded_generator_keeps_to_the_batch_size<A, T, G: TransactionGenerator<A, T>>(
    before: BoundedBatchWrapperTransactionGenerator<G>,
    account: A,
    num_to_create: nat,
    transactions: Seq<T>,
    after: BoundedBatchWrapperTransactionGenerator<G>,
)
    requires
        forall|inner: G, a: A, n: nat, txns: Seq<T>, next: G| #[trigger]
            inner.may_generate(a, n, txns, next) ==> txns.len() <= n,
        before.may_generate(account, num_to_create, transactions, after),
    ensures
        transactions.len() <= num_to_create,
        transactions.len() <= before.batch_size(),
{
}

/// A request within the batch size is answered as the wrapped generator answers
/// it.
pub proof fn request_within_the_batch_size_is_passed_on<A, T, G: TransactionGenerator<A, T>>(
    before: BoundedBatchWrapperTransactionGenerator<G>,
    account: A,
    num_to_create: nat,
    transactions: Seq<T>,
    after: BoundedBatchWrapperTransactionGenerator<G>,
)
    requires
        num_to_create <= before.batch_size(),
        after.batch_size() == before.batch_size(),
    ensures
        before.may_generate(account, num_to_create, transactions, after)
            == before.generator().may_generate(
            account,
            num_to_create,
            transactions,
            after.generator(),
        ),
{
}

/// Of two bounds one round the other, only the smaller counts.
pub proof fn nested_bounds_combine_to_the_smaller<A, T, G: TransactionGenerator<A, T>>(
    outer: BoundedBatchWrapperTransactionGenerator<BoundedBatchWrapperTransactionGenerator<G>>,
    account: A,
    num_to_create: nat,
    transactions: Seq<T>,
    after: BoundedBatchWrapperTransactionGenerator<BoundedBatchWrapperTransactionGenerator<G>>,
)
    requires
        outer.may_generate(account, num_to_create, transactions, after),
    ensures
        outer.generator().generator().may_generate(
            account,
            bounded_request(
                bounded_request(outer.batch_size(), outer.generator().batch_size()),
                num_to_create,
            ),
            transactions,
            after.generator().generator(),
        ),
{
}

} // verus!
