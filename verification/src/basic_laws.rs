//! What the building blocks are for.

use crate::bounded_batch_wrapper::{
    bounded_request, BoundedBatchWrapperTransactionGenerator,
    BoundedBatchWrapperTransactionGeneratorCreator, TransactionGenerator,
    TransactionGeneratorCreator,
};
use crate::hash::{core_code_address, AccountAddress};
use crate::output::DeltaU128;
use crate::parsed_output::{ends_epoch, raw_outputs, ParsedTransactionOutput, TransactionAndOutput};
use crate::sequence::{first_where, is_first_where, lemma_first_where_exists, paired};
use crate::status::TransactionStatus;
use crate::text::{decimal, joined, texts};
use crate::transaction::{SignatureVerifiedTransaction, Transaction, TransactionProvider};
use vstd::prelude::*;

verus! {

/// The number that a text of decimal digits stands for.
pub open spec fn value_of(text: Seq<char>) -> int
    decreases text.len(),
{
    if text.len() == 0 {
        0
    } else {
        10 * value_of(text.drop_last()) + (text.last() as int - '0' as int)
    }
}

/// A number in decimals reads back as the number: it is made of digits alone, at least
/// one, and the first is no zero but for zero itself.
pub proof fn decimals_read_back(n: nat)
    ensures
        value_of(decimal(n)) == n,
        decimal(n).len() >= 1,
        forall|i: int| 0 <= i < decimal(n).len() ==> '0' <= #[trigger] decimal(n)[i] <= '9',
        n < 10 ==> decimal(n).len() == 1,
        n > 0 ==> decimal(n)[0] != '0',
    decreases n,
{
    if n < 10 {
        assert(decimal(n).drop_last() =~= Seq::<char>::empty());
        assert(value_of(decimal(n).drop_last()) == 0);
    } else {
        decimals_read_back(n / 10);
        assert(decimal(n).drop_last() =~= decimal(n / 10));
        assert(decimal(n)[0] == decimal(n / 10)[0]);
    }
}

/// Different numbers have different decimals.
pub proof fn decimals_tell_numbers_apart(a: nat, b: nat)
    requires
        decimal(a) == decimal(b),
    ensures
        a == b,
{
    decimals_read_back(a);
    decimals_read_back(b);
}

/// Parts are joined in their order, with the separator between them and nowhere else.
pub proof fn separator_stands_between_parts(
    parts: Seq<Seq<char>>,
    part: Seq<char>,
    separator: Seq<char>,
)
    ensures
        joined(Seq::<Seq<char>>::empty(), separator) == Seq::<char>::empty(),
        joined(seq![part], separator) == part,
        parts.len() > 0 ==> joined(parts.push(part), separator) == joined(parts, separator)
            + separator + part,
{
    assert(parts.push(part).drop_last() =~= parts);
}

/// The texts of a list are those of its strings, each in its place.
pub proof fn texts_are_in_place(list: Seq<String>)
    ensures
        texts(list).len() == list.len(),
        forall|i: int| 0 <= i < list.len() ==> #[trigger] texts(list)[i] == list[i]@,
{
}

/// The first place where something holds is one where it holds and before which it does
/// not; there is none just where it holds nowhere.
pub proof fn first_place_is_the_first<A>(s: Seq<A>, pred: spec_fn(A) -> bool)
    ensures
        first_where(s, pred) is Some ==> {
            let i = first_where(s, pred)->0;
            &&& 0 <= i < s.len()
            &&& pred(s[i])
            &&& forall|j: int| 0 <= j < i ==> !pred(#[trigger] s[j])
        },
        first_where(s, pred) is None ==> forall|j: int|
            0 <= j < s.len() ==> !pred(#[trigger] s[j]),
{
    if first_where(s, pred) is Some {
        assert(is_first_where(s, pred, first_where(s, pred)->0));
    } else {
        assert forall|j: int| 0 <= j < s.len() implies !pred(#[trigger] s[j]) by {
            if pred(s[j]) {
                lemma_first_where_exists(s, pred, j);
            }
        }
    }
}

/// Paired elements are at the same place.
pub proof fn pairs_are_of_the_same_place<A, B>(a: Seq<A>, b: Seq<B>)
    requires
        a.len() == b.len(),
    ensures
        paired(a, b).len() == a.len(),
        forall|i: int| 0 <= i < a.len() ==> (#[trigger] paired(a, b)[i]).0 == a[i],
        forall|i: int| 0 <= i < a.len() ==> (#[trigger] paired(a, b)[i]).1 == b[i],
{
}

/// The outputs of parsed outputs are in their places.
pub proof fn raw_outputs_are_in_place(parsed: Seq<ParsedTransactionOutput>)
    ensures
        raw_outputs(parsed).len() == parsed.len(),
        forall|i: int|
            0 <= i < parsed.len() ==> #[trigger] raw_outputs(parsed)[i] == parsed[i].output(),
{
}

/// A list ends an epoch just where its last transaction does.
pub proof fn last_transaction_ends_the_epoch(pairs: Seq<TransactionAndOutput>)
    ensures
        pairs.len() == 0 ==> !ends_epoch(pairs),
        pairs.len() > 0 ==> ends_epoch(pairs) == pairs[pairs.len() - 1].1.reconfig(),
{
}

/// Only a transaction that is kept goes to the ledger.
pub proof fn only_what_is_kept_is_not_discarded(status: TransactionStatus)
    ensures
        match status {
            TransactionStatus::Keep(_) => !status.discarded(),
            TransactionStatus::Discard(_) => status.discarded(),
            TransactionStatus::Retry => status.discarded(),
        },
{
}

/// A delta goes up or down by its amount: one up and one down of the same amount cancel
/// out.
pub proof fn deltas_cancel_out(amount: u128)
    ensures
        (DeltaU128 { delta: amount, is_positive: true }).signed() == amount,
        (DeltaU128 { delta: amount, is_positive: false }).signed() + amount == 0,
{
}

/// The address of the core framework is one, in 32 bytes with the last byte last.
pub proof fn core_framework_is_at_one(address: AccountAddress)
    ensures
        core_code_address().len() == 32,
        core_code_address()[31] == 1,
        forall|i: int| 0 <= i < 31 ==> #[trigger] core_code_address()[i] == 0,
        address.is_core() <==> forall|i: int|
            0 <= i < 32 ==> #[trigger] address.bytes@[i] == (if i == 31 {
                1u8
            } else {
                0u8
            }),
{
    if forall|i: int|
        0 <= i < 32 ==> #[trigger] address.bytes@[i] == (if i == 31 {
            1u8
        } else {
            0u8
        }) {
        assert(address.bytes@ =~= core_code_address());
    }
    if address.is_core() {
        assert forall|i: int| 0 <= i < 32 implies #[trigger] address.bytes@[i] == (if i == 31 {
            1u8
        } else {
            0u8
        }) by {
            assert(core_code_address()[i] == address.bytes@[i]);
        }
    }
}

/// A transaction is at hand unless its signature is invalid.
pub proof fn only_valid_signatures_are_at_hand(
    transaction: Transaction,
    verified: SignatureVerifiedTransaction,
)
    ensures
        transaction.transaction() == Some(transaction),
        match verified {
            SignatureVerifiedTransaction::Valid(txn) => verified.transaction() == Some(txn)
                && verified.inner() == txn,
            SignatureVerifiedTransaction::Invalid(txn) => verified.transaction() is None
                && verified.inner() == txn,
        },
{
}

/// What is asked of a bounded generator is the smaller of what its user asks for and its
/// bound.
pub proof fn bounded_request_is_the_smaller(batch_size: nat, num_to_create: nat)
    ensures
        bounded_request(batch_size, num_to_create) <= batch_size,
        bounded_request(batch_size, num_to_create) <= num_to_create,
        bounded_request(batch_size, num_to_create) == batch_size || bounded_request(
            batch_size,
            num_to_create,
        ) == num_to_create,
{
}

/// A bounded generator answers a request over its bound as the wrapped one answers one of
/// the bound, and a request up to it as the wrapped one does; it passes on the account,
/// hands out what it gets, and keeps its bound.
pub proof fn bounded_generator_passes_on_the_smaller_request<A, T, G: TransactionGenerator<A, T>>(
    before: BoundedBatchWrapperTransactionGenerator<G>,
    account: A,
    num_to_create: nat,
    transactions: Seq<T>,
    after: BoundedBatchWrapperTransactionGenerator<G>,
)
    requires
        before.may_generate(account, num_to_create, transactions, after),
    ensures
        after.batch_size() == before.batch_size(),
        num_to_create > before.batch_size() ==> before.generator().may_generate(
            account,
            before.batch_size(),
            transactions,
            after.generator(),
        ),
        num_to_create <= before.batch_size() ==> before.generator().may_generate(
            account,
            num_to_create,
            transactions,
            after.generator(),
        ),
{
}

/// A bounding factory makes generators with its bound, each round one of the wrapped
/// factory.
pub proof fn factory_hands_its_bound_on<A, T, C: TransactionGeneratorCreator<A, T>>(
    creator: BoundedBatchWrapperTransactionGeneratorCreator<C>,
    generator: BoundedBatchWrapperTransactionGenerator<C::Generator>,
)
    requires
        TransactionGeneratorCreator::<A, T>::may_create(&creator, generator),
    ensures
        generator.batch_size() == creator.batch_size(),
        TransactionGeneratorCreator::<A, T>::may_create(
            &creator.generator_creator(),
            generator.generator(),
        ),
{
}

} // verus!
