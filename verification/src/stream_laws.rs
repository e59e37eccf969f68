//! What the outputs of a block are, told by what the shards sent.

use crate::output::{DeltaU128, TransactionOutput};
use crate::shard_outputs::{
    aggregated, all_items, arrived_of, arrived_up_to, can_be_aggregated, progress_after,
    result_of_shard, sum, sum_of_first, supply_after, supply_in_range, Arrived, ShardProgress,
    TransactionIdxAndOutput,
};
use vstd::prelude::*;

verus! {

/// What an output adds to the total supply: its delta up, its delta down, or nothing
/// where it has none.
pub open spec fn contribution(delta: Option<DeltaU128>) -> int {
    if delta is None {
        0
    } else if delta->0.is_positive {
        delta->0.delta as int
    } else {
        0 - delta->0.delta
    }
}

/// What the first `n` of `outputs` add to the total supply.
pub open spec fn contributions(outputs: Seq<TransactionOutput>, n: nat) -> int
    decreases n,
{
    if n == 0 {
        0
    } else {
        contributions(outputs, (n - 1) as nat) + contribution(outputs[n - 1].total_supply_delta)
    }
}

/// What the output for place `place` among `items` adds to the total supply.
pub open spec fn contribution_at(items: Seq<TransactionIdxAndOutput>, place: int) -> int
    decreases items.len(),
{
    if items.len() == 0 {
        0
    } else {
        contribution_at(items.drop_last(), place) + (if items.last().txn_idx == place {
            contribution(items.last().txn_output.total_supply_delta)
        } else {
            0
        })
    }
}

/// What the outputs for the first `n` places among `items` add to the total supply.
pub open spec fn contributions_of(items: Seq<TransactionIdxAndOutput>, n: nat) -> int
    decreases n,
{
    if n == 0 {
        0
    } else {
        contributions_of(items, (n - 1) as nat) + contribution_at(items, n - 1)
    }
}

/// Whether `items` holds one output for each of the places before `total`, and none
/// else.
pub open spec fn one_for_each_place(items: Seq<TransactionIdxAndOutput>, total: nat) -> bool {
    &&& forall|i: int, j: int|
        0 <= i < items.len() && 0 <= j < items.len() && i != j ==> (#[trigger] items[i]).txn_idx
            != (#[trigger] items[j]).txn_idx
    &&& forall|i: int| 0 <= i < items.len() ==> (#[trigger] items[i]).txn_idx < total
    &&& forall|place: int|
        0 <= place < total ==> #[trigger] is_sent(items, place)
}

/// Whether there is an output for `place` among `items`.
pub open spec fn is_sent(items: Seq<TransactionIdxAndOutput>, place: int) -> bool {
    exists|i: int| 0 <= i < items.len() && (#[trigger] items[i]).txn_idx == place
}

/// An output that came in, where its index is disjoint from the others, is in its place.
proof fn lemma_in_place(items: Seq<TransactionIdxAndOutput>, i: int)
    requires
        forall|i: int, j: int|
            0 <= i < items.len() && 0 <= j < items.len() && i != j ==> (
            #[trigger] items[i]).txn_idx != (#[trigger] items[j]).txn_idx,
        0 <= i < items.len(),
    ensures
        arrived_of(items).contains_key(items[i].txn_idx as int),
        arrived_of(items)[items[i].txn_idx as int] == items[i].txn_output,
        contribution_at(items, items[i].txn_idx as int) == contribution(
            items[i].txn_output.total_supply_delta,
        ),
    decreases items.len(),
{
    let earlier = items.drop_last();
    assert forall|i: int, j: int|
        0 <= i < earlier.len() && 0 <= j < earlier.len() && i != j implies (
    #[trigger] earlier[i]).txn_idx != (#[trigger] earlier[j]).txn_idx by {
        assert(items[i].txn_idx != items[j].txn_idx);
    }
    if i < earlier.len() {
        lemma_in_place(earlier, i);
        assert(items[i].txn_idx != items[items.len() - 1].txn_idx);
    } else {
        assert forall|j: int| 0 <= j < earlier.len() implies (#[trigger] earlier[j]).txn_idx
            != items[i].txn_idx by {
            assert(items[j].txn_idx != items[i].txn_idx);
        }
        lemma_nothing_at(earlier, items[i].txn_idx as int);
    }
}

proof fn lemma_nothing_at(items: Seq<TransactionIdxAndOutput>, place: int)
    requires
        forall|j: int| 0 <= j < items.len() ==> (#[trigger] items[j]).txn_idx != place,
    ensures
        contribution_at(items, place) == 0,
        !arrived_of(items).contains_key(place),
    decreases items.len(),
{
    if items.len() > 0 {
        assert(items[items.len() - 1].txn_idx != place);
        lemma_nothing_at(items.drop_last(), place);
    }
}

/// What came in for a place was sent for it.
proof fn lemma_arrived_was_sent(items: Seq<TransactionIdxAndOutput>, place: int)
    requires
        arrived_of(items).contains_key(place),
    ensures
        exists|i: int| 0 <= i < items.len() && (#[trigger] items[i]).txn_idx == place,
    decreases items.len(),
{
    if items.len() > 0 {
        if items.last().txn_idx == place {
            assert(items[items.len() - 1].txn_idx == place);
        } else {
            lemma_arrived_was_sent(items.drop_last(), place);
            let i = choose|i: int|
                0 <= i < items.drop_last().len() && (
                #[trigger] items.drop_last()[i]).txn_idx == place;
            assert(items[i].txn_idx == place);
        }
    }
}

proof fn lemma_supply(items: Seq<TransactionIdxAndOutput>, base: int, n: nat)
    requires
        forall|i: int, j: int|
            0 <= i < items.len() && 0 <= j < items.len() && i != j ==> (
            #[trigger] items[i]).txn_idx != (#[trigger] items[j]).txn_idx,
        arrived_up_to(arrived_of(items), n),
    ensures
        supply_after(arrived_of(items), base, n) == base + contributions_of(items, n),
    decreases n,
{
    if n > 0 {
        let m = (n - 1) as nat;
        assert(arrived_up_to(arrived_of(items), m));
        lemma_supply(items, base, m);
        assert(arrived_of(items).contains_key(m as int));
        lemma_arrived_was_sent(items, m as int);
        let i = choose|i: int| 0 <= i < items.len() && (#[trigger] items[i]).txn_idx == m;
        lemma_in_place(items, i);
    }
}

/// Outputs can be put together just where there is one for each transaction of the block,
/// as many as are expected in all, and the total supply stays in range after each.
pub proof fn outputs_can_be_put_together_just_where_all_are_there(
    expected_outputs: Seq<u64>,
    items: Seq<TransactionIdxAndOutput>,
    base: u128,
)
    ensures
        can_be_aggregated(expected_outputs, items, base) <==> {
            let total = sum(expected_outputs);
            &&& 0 < total <= u64::MAX
            &&& total <= usize::MAX
            &&& one_for_each_place(items, total)
            &&& forall|n: nat|
                n <= total ==> 0 <= base + #[trigger] contributions_of(items, n) <= u128::MAX
        },
{
    let total = sum(expected_outputs);
    let arrived = arrived_of(items);
    if can_be_aggregated(expected_outputs, items, base) {
        assert forall|i: int, j: int|
            0 <= i < items.len() && 0 <= j < items.len() && i != j implies (
        #[trigger] items[i]).txn_idx != (#[trigger] items[j]).txn_idx by {
            if i < j {
                assert(items[i].txn_idx != items[j].txn_idx);
            } else {
                assert(items[j].txn_idx != items[i].txn_idx);
            }
        }
        assert forall|place: int| 0 <= place < total implies #[trigger] is_sent(items, place) by {
            assert(arrived.contains_key(place));
            lemma_arrived_was_sent(items, place);
        }
        assert forall|n: nat| n <= total implies 0 <= base + #[trigger] contributions_of(items, n)
            <= u128::MAX by {
            assert(arrived_up_to(arrived, n));
            lemma_supply(items, base as int, n);
            assert(0 <= supply_after(arrived, base as int, n) <= u128::MAX);
        }
    }
    if one_for_each_place(items, total) && (forall|n: nat|
        n <= total ==> 0 <= base + #[trigger] contributions_of(items, n) <= u128::MAX) {
        assert forall|place: int| 0 <= place < total implies #[trigger] arrived.contains_key(
            place,
        ) by {
            assert(is_sent(items, place));
            let i = choose|i: int| 0 <= i < items.len() && (#[trigger] items[i]).txn_idx == place;
            lemma_in_place(items, i);
        }
        assert forall|i: int, j: int| 0 <= i < j < items.len() implies #[trigger] items[i].txn_idx
            != #[trigger] items[j].txn_idx by {
            assert(items[i].txn_idx != items[j].txn_idx);
        }
        assert forall|n: nat| n <= total && arrived_up_to(arrived, n) implies 0
            <= #[trigger] supply_after(arrived, base as int, n) <= u128::MAX by {
            lemma_supply(items, base as int, n);
            assert(0 <= base + contributions_of(items, n) <= u128::MAX);
        }
        assert(supply_in_range(arrived, base as int, total));
    }
}

proof fn lemma_contributions(
    results: Seq<TransactionOutput>,
    arrived: Arrived,
    base: int,
    total: nat,
    n: nat,
)
    requires
        n <= total,
        results == aggregated(arrived, base, total),
    ensures
        supply_after(arrived, base, n) == base + contributions(results, n),
    decreases n,
{
    if n > 0 {
        lemma_contributions(results, arrived, base, total, (n - 1) as nat);
        assert(results[n - 1].total_supply_delta == arrived[n - 1].total_supply_delta);
    }
}

/// The results of a block hold what was sent for each transaction, in its place and
/// unchanged but for the total supply; and in each that changes the total supply, that is
/// the supply before the block plus what it and all before it add, whatever else is in
/// them.
pub proof fn results_are_what_was_sent_with_the_running_supply(
    expected_outputs: Seq<u64>,
    items: Seq<TransactionIdxAndOutput>,
    base: u128,
    k: int,
)
    requires
        can_be_aggregated(expected_outputs, items, base),
        0 <= k < items.len(),
    ensures
        ({
            let results = aggregated(arrived_of(items), base as int, sum(expected_outputs));
            let place = items[k].txn_idx as int;
            let sent = items[k].txn_output;
            &&& results.len() == sum(expected_outputs)
            &&& results.len() == items.len()
            &&& place < results.len()
            &&& results[place].write_set == sent.write_set
            &&& results[place].events == sent.events
            &&& results[place].gas_used == sent.gas_used
            &&& results[place].status == sent.status
            &&& results[place].auxiliary_data == sent.auxiliary_data
            &&& results[place].total_supply_delta == sent.total_supply_delta
            &&& sent.total_supply_delta is None ==> results[place].total_supply
                == sent.total_supply
            &&& sent.total_supply_delta is Some ==> {
                &&& results[place].total_supply is Some
                &&& results[place].total_supply->0 == base + contributions(
                    results,
                    (place + 1) as nat,
                )
            }
        }),
{
    let total = sum(expected_outputs);
    let results = aggregated(arrived_of(items), base as int, total);
    let place = items[k].txn_idx as int;
    outputs_can_be_put_together_just_where_all_are_there(expected_outputs, items, base);
    lemma_in_place(items, k);
    lemma_contributions(results, arrived_of(items), base as int, total, (place + 1) as nat);
    assert(arrived_up_to(arrived_of(items), (place + 1) as nat));
    assert(0 <= supply_after(arrived_of(items), base as int, (place + 1) as nat) <= u128::MAX);
    lemma_as_many_as_places(items, total);
}

/// With one output for each place there are as many outputs as places.
proof fn lemma_as_many_as_places(items: Seq<TransactionIdxAndOutput>, total: nat)
    requires
        one_for_each_place(items, total),
    ensures
        items.len() == total,
{
    let places = items.map_values(|item: TransactionIdxAndOutput| item.txn_idx as int);
    assert(places.no_duplicates()) by {
        assert forall|i: int, j: int|
            0 <= i < places.len() && 0 <= j < places.len() && i != j implies places[i]
            != places[j] by {
            assert(items[i].txn_idx != items[j].txn_idx);
        }
    }
    places.unique_seq_to_set();
    let all = vstd::set_lib::set_int_range(0, total as int);
    assert(places.to_set() =~= all) by {
        assert forall|p: int| all.contains(p) implies places.to_set().contains(p) by {
            assert(is_sent(items, p));
            let i = choose|i: int| 0 <= i < items.len() && (#[trigger] items[i]).txn_idx == p;
            assert(places[i] == p);
        }
        assert forall|p: int| places.to_set().contains(p) implies all.contains(p) by {
            let i = choose|i: int| 0 <= i < places.len() && places[i] == p;
            assert(items[i].txn_idx < total);
        }
    }
    vstd::set_lib::lemma_int_range(0, total as int);
}

/// Messages are taken in one after the other, each with all its outputs in their order.
pub proof fn messages_are_taken_in_whole(
    messages: Seq<Vec<TransactionIdxAndOutput>>,
    message: Vec<TransactionIdxAndOutput>,
)
    ensures
        all_items(Seq::<Vec<TransactionIdxAndOutput>>::empty()).len() == 0,
        all_items(messages.push(message)).len() == all_items(messages).len() + message@.len(),
        forall|i: int|
            0 <= i < all_items(messages).len() ==> #[trigger] all_items(messages.push(message))[i]
                == all_items(messages)[i],
        forall|i: int|
            0 <= i < message@.len() ==> all_items(messages.push(message))[all_items(messages).len()
                + i] == #[trigger] message@[i],
{
    assert(messages.push(message).drop_last() =~= messages);
}

/// A sum is nothing for no numbers, and grows by each number that is added.
pub proof fn sum_counts_each_number_once(numbers: Seq<u64>, number: u64)
    ensures
        sum(Seq::<u64>::empty()) == 0,
        sum(numbers.push(number)) == sum(numbers) + number,
{
    lemma_sum_of_common_first(numbers.push(number), numbers, numbers.len());
}

proof fn lemma_sum_of_common_first(a: Seq<u64>, b: Seq<u64>, n: nat)
    requires
        n <= a.len(),
        n <= b.len(),
        forall|i: int| 0 <= i < n ==> a[i] == b[i],
    ensures
        sum_of_first(a, n) == sum_of_first(b, n),
    decreases n,
{
    if n > 0 {
        lemma_sum_of_common_first(a, b, (n - 1) as nat);
    }
}

/// Gathered results: a shard has nothing before its first result, its newest result
/// replaces the one before, and a result of another shard changes nothing.
pub proof fn newest_result_of_a_shard_counts<R>(
    results: Seq<(usize, Vec<R>)>,
    result: (usize, Vec<R>),
    shard_id: int,
)
    ensures
        result_of_shard(Seq::<(usize, Vec<R>)>::empty(), shard_id) == Seq::<R>::empty(),
        shard_id == result.0 ==> result_of_shard(results.push(result), shard_id) == result.1@,
        shard_id != result.0 ==> result_of_shard(results.push(result), shard_id)
            == result_of_shard(results, shard_id),
{
    assert(results.push(result).drop_last() =~= results);
}

/// How far a shard is: nothing is received at first, and each message adds its outputs.
pub proof fn each_message_adds_its_outputs(expected: u64, sizes: Seq<u64>, n: nat)
    requires
        n < sizes.len(),
    ensures
        progress_after(expected, sizes, 0) == (ShardProgress { expected, received: 0 }),
        progress_after(expected, sizes, n).received + sizes[n as int] <= u64::MAX
            ==> progress_after(expected, sizes, n + 1) == (ShardProgress {
            expected,
            received: (progress_after(expected, sizes, n).received + sizes[n as int]) as u64,
        }),
    decreases n,
{
}

} // verus!
