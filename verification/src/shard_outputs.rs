//! Putting the outputs that the executor shards send back in order, and filling in
//! the total supply.

use crate::output::{DeltaU128, TransactionOutput};
use crate::remote_executor_client::RemoteExecutorClient;
use vstd::prelude::*;

verus! {

/// The output of one transaction of the block.
#[derive(Debug, PartialEq, Eq)]
pub struct TransactionIdxAndOutput {
    /// The place of the transaction in the block.
    pub txn_idx: u32,
    pub txn_output: TransactionOutput,
}

/// How many outputs a shard has sent of those that are expected of it.
#[derive(Clone, Copy, Debug, PartialEq, Eq, Structural)]
pub struct ShardProgress {
    pub expected: u64,
    pub received: u64,
}

impl ShardProgress {
    /// A shard that has sent nothing yet.
    pub fn new(expected: u64) -> (progress: Self)
        ensures
            progress == (ShardProgress { expected, received: 0 }),
    {
        ShardProgress { expected, received: 0 }
    }

    /// Takes in that the shard sent a message with `num_txn` outputs. The shard is
    /// done with the message that brings it to just what is expected.
    pub fn on_message(&mut self, num_txn: u64) -> (done: bool)
        requires
            old(self).received + num_txn <= u64::MAX,
        ensures
            *final(self) == (ShardProgress {
                expected: old(self).expected,
                received: (old(self).received + num_txn) as u64,
            }),
            done == (old(self).received + num_txn == old(self).expected),
    {
        self.received = self.received + num_txn;
        self.received == self.expected
    }
}

/// The sum of the first `n` of `numbers`.
pub open spec fn sum_of_first(numbers: Seq<u64>, n: nat) -> nat
    decreases n,
{
    if n == 0 {
        0
    } else {
        sum_of_first(numbers, (n - 1) as nat) + numbers[n - 1] as nat
    }
}

/// The sum of `numbers`.
pub open spec fn sum(numbers: Seq<u64>) -> nat {
    sum_of_first(numbers, numbers.len())
}

proof fn lemma_sum_of_first_grows(numbers: Seq<u64>, n: nat, m: nat)
    requires
        n <= m,
    ensures
        sum_of_first(numbers, n) <= sum_of_first(numbers, m),
    decreases m,
{
    if n < m {
        lemma_sum_of_first_grows(numbers, n, (m - 1) as nat);
    }
}

/// The number of outputs that all shards are expected to send.
pub fn total_expected_outputs(expected_outputs: &Vec<u64>) -> (total: u64)
    requires
        sum(expected_outputs@) <= u64::MAX,
    ensures
        total == sum(expected_outputs@),
{
    let mut total: u64 = 0;
    for i in 0..expected_outputs.len()
        invariant
            sum(expected_outputs@) <= u64::MAX,
            total == sum_of_first(expected_outputs@, i as nat),
    {
        proof {
            lemma_sum_of_first_grows(expected_outputs@, (i + 1) as nat, expected_outputs@.len());
        }
        total = total + expected_outputs[i];
    }
    total
}

/// How an output changes the total supply.
pub open spec fn supply_change(output: TransactionOutput) -> int {
    match output.total_supply_delta {
        Some(delta) => delta.signed(),
        None => 0,
    }
}

/// The outputs that came in, by the place of their transaction in the block.
pub type Arrived = Map<int, TransactionOutput>;

/// The total supply after the first `n` transactions, when it was `base` before
/// the block.
pub open spec fn supply_after(arrived: Arrived, base: int, n: nat) -> int
    decreases n,
{
    if n == 0 {
        base
    } else {
        supply_after(arrived, base, (n - 1) as nat) + supply_change(arrived[n - 1])
    }
}

/// `output` with the total supply filled in, where it has a say in that.
pub open spec fn with_supply(output: TransactionOutput, supply: int) -> TransactionOutput {
    if output.total_supply_delta is Some {
        TransactionOutput { total_supply: Some(supply as u128), ..output }
    } else {
        output
    }
}

/// The output at place `i` with the total supply filled in.
pub open spec fn aggregated_at(arrived: Arrived, base: int, i: int) -> TransactionOutput {
    with_supply(arrived[i], supply_after(arrived, base, (i + 1) as nat))
}

/// The outputs of a block of `total` transactions with the total supply filled in.
pub open spec fn aggregated(arrived: Arrived, base: int, total: nat) -> Seq<TransactionOutput> {
    Seq::new(total, |i: int| aggregated_at(arrived, base, i))
}

/// Whether the outputs of the first `n` transactions came in.
pub open spec fn arrived_up_to(arrived: Arrived, n: nat) -> bool {
    forall|i: int| 0 <= i < n ==> #[trigger] arrived.contains_key(i)
}

/// Whether the total supply stays in range as far as the outputs came in without a
/// gap.
pub open spec fn supply_in_range(arrived: Arrived, base: int, total: nat) -> bool {
    forall|n: nat|
        n <= total && arrived_up_to(arrived, n) ==> 0 <= #[trigger] supply_after(arrived, base, n)
            <= u128::MAX
}

/// The total supply after some transactions depends on their outputs alone.
proof fn lemma_supply_after_agrees(a: Arrived, b: Arrived, base: int, n: nat)
    requires
        forall|i: int| 0 <= i < n ==> #[trigger] a[i] == b[i],
    ensures
        supply_after(a, base, n) == supply_after(b, base, n),
    decreases n,
{
    if n > 0 {
        lemma_supply_after_agrees(a, b, base, (n - 1) as nat);
        assert(a[n - 1] == b[n - 1]);
    }
}

/// The outputs of a block as they come in, in whatever order.
pub struct OutputAggregator {
    /// The outputs that came in, each in its place. Before `next` the total supply
    /// is filled in.
    slots: Vec<Option<TransactionOutput>>,
    next: usize,
    total_supply: u128,
    base: Ghost<int>,
    arrived: Ghost<Arrived>,
}

impl OutputAggregator {
    /// The number of transactions of the block.
    pub closed spec fn total(self) -> nat {
        self.slots@.len()
    }

    /// The total supply before the block.
    pub closed spec fn base(self) -> int {
        self.base@
    }

    /// The outputs that came in, as they came in.
    pub closed spec fn arrived(self) -> Arrived {
        self.arrived@
    }

    /// The number of leading outputs in which the total supply is filled in.
    pub closed spec fn num_aggregated(self) -> nat {
        self.next as nat
    }

    /// Whether what came in is in its place, and the total supply is filled in as
    /// far as it is said to be.
    pub closed spec fn well_formed(self) -> bool {
        &&& self.next <= self.slots@.len()
        &&& self.total_supply == supply_after(self.arrived@, self.base@, self.next as nat)
        &&& arrived_up_to(self.arrived@, self.next as nat)
        &&& forall|i: int| #[trigger]
            self.arrived@.contains_key(i) <==> 0 <= i < self.slots@.len() && self.slots@[i] is Some
        &&& forall|i: int|
            0 <= i < self.slots@.len() && #[trigger] self.slots@[i] is Some ==> self.slots@[i]
                == Some(
                if i < self.next {
                    aggregated_at(self.arrived@, self.base@, i)
                } else {
                    self.arrived@[i]
                },
            )
    }

    /// No output of a block of `total` transactions came in yet.
    pub fn new(total: usize, base: u128) -> (aggregator: Self)
        ensures
            aggregator.well_formed(),
            aggregator.total() == total,
            aggregator.base() == base,
            aggregator.arrived() == Map::<int, TransactionOutput>::empty(),
            aggregator.num_aggregated() == 0,
    {
        let mut slots: Vec<Option<TransactionOutput>> = Vec::new();
        for i in 0..total
            invariant
                slots@.len() == i,
                forall|j: int| 0 <= j < i ==> #[trigger] slots@[j] is None,
        {
            slots.push(None);
        }
        OutputAggregator {
            slots,
            next: 0,
            total_supply: base,
            base: Ghost(base as int),
            arrived: Ghost(Map::empty()),
        }
    }

    /// Takes in an output.
    pub fn store(&mut self, item: TransactionIdxAndOutput)
        requires
            old(self).well_formed(),
            item.txn_idx < old(self).total(),
            !old(self).arrived().contains_key(item.txn_idx as int),
        ensures
            final(self).well_formed(),
            final(self).total() == old(self).total(),
            final(self).base() == old(self).base(),
            final(self).arrived() == old(self).arrived().insert(
                item.txn_idx as int,
                item.txn_output,
            ),
            final(self).num_aggregated() == old(self).num_aggregated(),
    {
        let idx = item.txn_idx as usize;
        let ghost before = self.arrived@;
        let ghost after = before.insert(idx as int, item.txn_output);
        self.slots.set(idx, Some(item.txn_output));
        self.arrived = Ghost(after);
        proof {
            assert forall|n: nat| n <= self.next implies #[trigger] supply_after(
                after,
                self.base@,
                n,
            ) == supply_after(before, self.base@, n) by {
                lemma_supply_after_agrees(after, before, self.base@, n);
            }
        }
    }

    /// Fills in the total supply in all outputs that came in without a gap.
    pub fn aggregate(&mut self)
        requires
            old(self).well_formed(),
            supply_in_range(old(self).arrived(), old(self).base(), old(self).total()),
        ensures
            final(self).well_formed(),
            final(self).total() == old(self).total(),
            final(self).base() == old(self).base(),
            final(self).arrived() == old(self).arrived(),
            arrived_up_to(final(self).arrived(), final(self).num_aggregated()),
            final(self).num_aggregated() <= final(self).total(),
            final(self).num_aggregated() < final(self).total()
                ==> !final(self).arrived().contains_key(final(self).num_aggregated() as int),
    {
        let total = self.slots.len();
        while self.next < total && self.slots[self.next].is_some()
            invariant
                total == self.slots@.len(),
                self.well_formed(),
                self.total() == old(self).total(),
                self.base() == old(self).base(),
                self.arrived() == old(self).arrived(),
                supply_in_range(self.arrived(), self.base(), self.total()),
            decreases total - self.next,
        {
            let idx = self.next;
            let ghost arrived = self.arrived@;
            proof {
                assert(arrived.contains_key(idx as int));
                assert(arrived_up_to(arrived, (idx + 1) as nat));
                assert(0 <= supply_after(arrived, self.base@, (idx + 1) as nat) <= u128::MAX);
            }
            let mut slot: Option<TransactionOutput> = None;
            std::mem::swap(&mut slot, &mut self.slots[idx]);
            let mut output = slot.unwrap();
            assert(output == arrived[idx as int]);
            if let Some(delta) = output.total_supply_delta {
                self.total_supply = delta.apply_to(self.total_supply);
                output.total_supply = Some(self.total_supply);
            }
            assert(output == aggregated_at(arrived, self.base@, idx as int));
            self.slots.set(idx, Some(output));
            self.next = idx + 1;
        }
    }

    /// Whether the total supply is filled in in all outputs of the block.
    pub fn is_complete(&self) -> (complete: bool)
        requires
            self.well_formed(),
        ensures
            complete == (self.num_aggregated() == self.total()),
    {
        self.next == self.slots.len()
    }

    /// The outputs of the block, once it is complete.
    pub fn into_results(self) -> (results: Vec<TransactionOutput>)
        requires
            self.well_formed(),
            self.num_aggregated() == self.total(),
        ensures
            results@ == aggregated(self.arrived(), self.base(), self.total()),
    {
        let ghost expected = aggregated(self.arrived(), self.base(), self.total());
        let ghost all = self.slots@;
        let mut results: Vec<TransactionOutput> = Vec::new();
        assert forall|i: int| 0 <= i < all.len() implies #[trigger] all[i] == Some(expected[i]) by {
            assert(self.arrived@.contains_key(i));
        }
        for slot in it: self.slots
            invariant
                all == it.seq(),
                expected.len() == all.len(),
                forall|i: int| 0 <= i < all.len() ==> #[trigger] all[i] == Some(expected[i]),
                results@ == expected.take(it.index()),
        {
            assert(slot == all[it.index()]);
            results.push(slot.unwrap());
            assert(results@ =~= expected.take(it.index() + 1));
        }
        assert(results@ =~= expected);
        results
    }
}

/// The outputs in all messages, one after the other.
pub open spec fn all_items(messages: Seq<Vec<TransactionIdxAndOutput>>) -> Seq<
    TransactionIdxAndOutput,
>
    decreases messages.len(),
{
    if messages.len() == 0 {
        Seq::empty()
    } else {
        all_items(messages.drop_last()) + messages.last()@
    }
}

/// What came in with `items`.
pub open spec fn arrived_of(items: Seq<TransactionIdxAndOutput>) -> Arrived
    decreases items.len(),
{
    if items.len() == 0 {
        Map::empty()
    } else {
        arrived_of(items.drop_last()).insert(items.last().txn_idx as int, items.last().txn_output)
    }
}

/// Whether no two of `items` are for the same transaction.
pub open spec fn indices_are_disjoint(items: Seq<TransactionIdxAndOutput>) -> bool {
    forall|i: int, j: int|
        0 <= i < j < items.len() ==> #[trigger] items[i].txn_idx != #[trigger] items[j].txn_idx
}

/// Whether `items` are the outputs of a block of `total` transactions: one for each.
pub open spec fn are_outputs_of_block(items: Seq<TransactionIdxAndOutput>, total: nat) -> bool {
    &&& indices_are_disjoint(items)
    &&& forall|i: int| 0 <= i < items.len() ==> (#[trigger] items[i]).txn_idx < total
    &&& arrived_up_to(arrived_of(items), total)
}

/// With disjoint indices, what came in is just what was sent.
proof fn lemma_arrived_of(items: Seq<TransactionIdxAndOutput>)
    requires
        indices_are_disjoint(items),
    ensures
        forall|i: int|
            0 <= i < items.len() ==> arrived_of(items).contains_key(
                (#[trigger] items[i]).txn_idx as int,
            ) && arrived_of(items)[items[i].txn_idx as int] == items[i].txn_output,
        forall|k: int| #[trigger]
            arrived_of(items).contains_key(k) ==> exists|i: int|
                0 <= i < items.len() && (#[trigger] items[i]).txn_idx == k,
    decreases items.len(),
{
    if items.len() > 0 {
        let earlier = items.drop_last();
        assert(indices_are_disjoint(earlier)) by {
            assert forall|i: int, j: int| 0 <= i < j < earlier.len() implies
                #[trigger] earlier[i].txn_idx != #[trigger] earlier[j].txn_idx by {
                assert(items[i].txn_idx != items[j].txn_idx);
            }
        }
        lemma_arrived_of(earlier);
        assert forall|i: int| 0 <= i < items.len() implies arrived_of(items).contains_key(
            (#[trigger] items[i]).txn_idx as int,
        ) && arrived_of(items)[items[i].txn_idx as int] == items[i].txn_output by {
            if i < earlier.len() {
                assert(earlier[i] == items[i]);
                assert(items[i].txn_idx != items[items.len() - 1].txn_idx);
            }
        }
        assert forall|k: int| #[trigger] arrived_of(items).contains_key(k) implies exists|i: int|
            0 <= i < items.len() && (#[trigger] items[i]).txn_idx == k by {
            if arrived_of(earlier).contains_key(k) {
                let i = choose|i: int|
                    0 <= i < earlier.len() && (#[trigger] earlier[i]).txn_idx == k;
                assert(items[i].txn_idx == k);
            } else {
                assert(items[items.len() - 1].txn_idx == k);
            }
        }
    }
}

/// What came in with the first outputs agrees with what comes in with all.
proof fn lemma_arrived_of_prefix(
    prefix: Seq<TransactionIdxAndOutput>,
    items: Seq<TransactionIdxAndOutput>,
)
    requires
        indices_are_disjoint(items),
        prefix.is_prefix_of(items),
    ensures
        indices_are_disjoint(prefix),
        forall|k: int| #[trigger]
            arrived_of(prefix).contains_key(k) ==> arrived_of(items).contains_key(k) && arrived_of(
                items,
            )[k] == arrived_of(prefix)[k],
{
    assert forall|i: int, j: int| 0 <= i < j < prefix.len() implies #[trigger] prefix[i].txn_idx
        != #[trigger] prefix[j].txn_idx by {
        assert(prefix[i] == items[i] && prefix[j] == items[j]);
    }
    lemma_arrived_of(prefix);
    lemma_arrived_of(items);
    assert forall|k: int| #[trigger] arrived_of(prefix).contains_key(k) implies arrived_of(
        items,
    ).contains_key(k) && arrived_of(items)[k] == arrived_of(prefix)[k] by {
        let i = choose|i: int| 0 <= i < prefix.len() && (#[trigger] prefix[i]).txn_idx == k;
        assert(prefix[i] == items[i]);
    }
}

/// The total supply stays in range with the first outputs if it does with all.
proof fn lemma_supply_in_range_of_prefix(
    prefix: Seq<TransactionIdxAndOutput>,
    items: Seq<TransactionIdxAndOutput>,
    base: int,
    total: nat,
)
    requires
        indices_are_disjoint(items),
        prefix.is_prefix_of(items),
        supply_in_range(arrived_of(items), base, total),
    ensures
        supply_in_range(arrived_of(prefix), base, total),
{
    lemma_arrived_of_prefix(prefix, items);
    assert forall|n: nat| n <= total && arrived_up_to(arrived_of(prefix), n) implies 0
        <= #[trigger] supply_after(arrived_of(prefix), base, n) <= u128::MAX by {
        assert forall|i: int| 0 <= i < n implies #[trigger] arrived_of(prefix)[i] == arrived_of(
            items,
        )[i] by {
            assert(arrived_of(prefix).contains_key(i));
        }
        assert(arrived_up_to(arrived_of(items), n)) by {
            assert forall|i: int| 0 <= i < n implies #[trigger] arrived_of(items).contains_key(
                i,
            ) by {
                assert(arrived_of(prefix).contains_key(i));
            }
        }
        lemma_supply_after_agrees(arrived_of(prefix), arrived_of(items), base, n);
    }
}

/// The first messages hold the first outputs.
proof fn lemma_items_of_prefix(messages: Seq<Vec<TransactionIdxAndOutput>>, n: int)
    requires
        0 <= n <= messages.len(),
    ensures
        all_items(messages.take(n)).is_prefix_of(all_items(messages)),
    decreases messages.len() - n,
{
    if n < messages.len() {
        lemma_items_of_prefix(messages, n + 1);
        assert(messages.take(n + 1).drop_last() =~= messages.take(n));
        assert(all_items(messages.take(n)).is_prefix_of(all_items(messages.take(n + 1))));
    } else {
        assert(messages.take(n) =~= messages);
    }
}

/// Whether `items` are the outputs of a block, as many as `expected_outputs` tells in
/// all, and the total supply stays in range with them.
pub open spec fn can_be_aggregated(
    expected_outputs: Seq<u64>,
    items: Seq<TransactionIdxAndOutput>,
    total_supply_base_val: u128,
) -> bool {
    &&& 0 < sum(expected_outputs) <= u64::MAX
    &&& sum(expected_outputs) <= usize::MAX
    &&& are_outputs_of_block(items, sum(expected_outputs))
    &&& supply_in_range(arrived_of(items), total_supply_base_val as int, sum(expected_outputs))
}

/// The number of outputs that all shards are expected to send, if it can be counted.
fn checked_total(expected_outputs: &Vec<u64>) -> (total: Option<usize>)
    ensures
        match total {
            Some(total) => total == sum(expected_outputs@) && total <= u64::MAX,
            None => sum(expected_outputs@) > u64::MAX || sum(expected_outputs@) > usize::MAX,
        },
{
    let mut total: u64 = 0;
    for i in 0..expected_outputs.len()
        invariant
            total == sum_of_first(expected_outputs@, i as nat),
    {
        proof {
            lemma_sum_of_first_grows(expected_outputs@, (i + 1) as nat, expected_outputs@.len());
        }
        match total.checked_add(expected_outputs[i]) {
            Some(more) => {
                total = more;
            },
            None => {
                return None;
            },
        }
    }
    if total <= usize::MAX as u64 {
        Some(total as usize)
    } else {
        None
    }
}

/// Whether `changes` tells, for each place of the block, whether its output is among
/// `items`, and how it changes the total supply.
spec fn are_changes_of(
    changes: Seq<Option<Option<DeltaU128>>>,
    items: Seq<TransactionIdxAndOutput>,
) -> bool {
    &&& forall|k: int| #[trigger]
        arrived_of(items).contains_key(k) <==> 0 <= k < changes.len() && changes[k] is Some
    &&& forall|k: int|
        0 <= k < changes.len() && #[trigger] changes[k] is Some ==> changes[k] == Some(
            arrived_of(items)[k].total_supply_delta,
        )
}

/// Whether no two of `items` are for the same transaction, and all are for
/// transactions of a block of `total`.
spec fn fit_in_block(items: Seq<TransactionIdxAndOutput>, total: nat) -> bool {
    &&& indices_are_disjoint(items)
    &&& forall|i: int| 0 <= i < items.len() ==> (#[trigger] items[i]).txn_idx < total
}

/// Notes the change of the total supply by one more output, unless the output does not
/// fit in the block.
fn note_change(
    changes: &mut Vec<Option<Option<DeltaU128>>>,
    item: &TransactionIdxAndOutput,
    Ghost(seen): Ghost<Seq<TransactionIdxAndOutput>>,
) -> (fits: bool)
    requires
        are_changes_of(old(changes)@, seen),
        fit_in_block(seen, old(changes)@.len()),
    ensures
        final(changes)@.len() == old(changes)@.len(),
        fits == fit_in_block(seen.push(*item), old(changes)@.len()),
        fits ==> are_changes_of(final(changes)@, seen.push(*item)),
{
    let idx = item.txn_idx as usize;
    let ghost more = seen.push(*item);
    let ghost total = changes@.len();
    proof {
        assert(more.drop_last() =~= seen);
        assert(more.last() == *item);
        lemma_arrived_of(seen);
    }
    if idx >= changes.len() {
        assert(more[seen.len() as int].txn_idx >= total);
        return false;
    }
    if changes[idx].is_some() {
        proof {
            assert(arrived_of(seen).contains_key(idx as int));
            let i = choose|i: int| 0 <= i < seen.len() && (#[trigger] seen[i]).txn_idx == idx;
            assert(more[i].txn_idx == more[seen.len() as int].txn_idx);
        }
        return false;
    }
    changes.set(idx, Some(item.txn_output.total_supply_delta));
    proof {
        assert(!arrived_of(seen).contains_key(idx as int));
        assert forall|i: int, j: int| 0 <= i < j < more.len() implies #[trigger] more[i].txn_idx
            != #[trigger] more[j].txn_idx by {
            assert(more[i] == seen[i]);
            if j < seen.len() {
                assert(more[j] == seen[j]);
            } else {
                assert(arrived_of(seen).contains_key(seen[i].txn_idx as int));
            }
        }
        assert forall|i: int| 0 <= i < more.len() implies (#[trigger] more[i]).txn_idx < total by {
            if i < seen.len() {
                assert(more[i] == seen[i]);
            }
        }
    }
    true
}

/// The changes of the total supply by the outputs in `messages`, unless they do not
/// fit in a block of `total` transactions.
fn collect_changes(messages: &Vec<Vec<TransactionIdxAndOutput>>, total: usize) -> (changes: Option<
    Vec<Option<Option<DeltaU128>>>,
>)
    ensures
        match changes {
            Some(changes) => changes@.len() == total && fit_in_block(
                all_items(messages@),
                total as nat,
            ) && are_changes_of(changes@, all_items(messages@)),
            None => !fit_in_block(all_items(messages@), total as nat),
        },
{
    let mut changes: Vec<Option<Option<DeltaU128>>> = Vec::new();
    for i in 0..total
        invariant
            changes@.len() == i,
            forall|k: int| 0 <= k < i ==> #[trigger] changes@[k] is None,
    {
        changes.push(None);
    }
    let ghost items = all_items(messages@);
    assert(all_items(messages@.take(0)) =~= Seq::<TransactionIdxAndOutput>::empty());
    for m in 0..messages.len()
        invariant
            items == all_items(messages@),
            changes@.len() == total,
            fit_in_block(all_items(messages@.take(m as int)), total as nat),
            are_changes_of(changes@, all_items(messages@.take(m as int))),
    {
        let message = &messages[m];
        let ghost before = all_items(messages@.take(m as int));
        let ghost after = all_items(messages@.take(m + 1));
        proof {
            assert(messages@.take(m + 1).drop_last() =~= messages@.take(m as int));
            assert(after == before + message@);
            lemma_items_of_prefix(messages@, m + 1);
            assert(before + message@.take(0) =~= before);
        }
        for i in 0..message.len()
            invariant
                items == all_items(messages@),
                after == before + message@,
                after.is_prefix_of(items),
                changes@.len() == total,
                fit_in_block(before + message@.take(i as int), total as nat),
                are_changes_of(changes@, before + message@.take(i as int)),
        {
            let ghost seen = before + message@.take(i as int);
            assert(before + message@.take(i + 1) =~= seen.push(message@[i as int]));
            assert(seen.push(message@[i as int]).is_prefix_of(items)) by {
                assert(seen.push(message@[i as int]) =~= items.take(seen.len() as int + 1));
            }
            if !note_change(&mut changes, &message[i], Ghost(seen)) {
                proof {
                    lemma_prefix_fits(seen.push(message@[i as int]), items, total as nat);
                }
                return None;
            }
        }
        assert(before + message@.take(message@.len() as int) =~= after);
    }
    assert(messages@.take(messages@.len() as int) =~= messages@);
    Some(changes)
}

/// The first outputs fit in a block if all do.
proof fn lemma_prefix_fits(
    prefix: Seq<TransactionIdxAndOutput>,
    items: Seq<TransactionIdxAndOutput>,
    total: nat,
)
    requires
        prefix.is_prefix_of(items),
    ensures
        fit_in_block(items, total) ==> fit_in_block(prefix, total),
{
    if fit_in_block(items, total) {
        lemma_arrived_of_prefix(prefix, items);
        assert forall|i: int| 0 <= i < prefix.len() implies (
        #[trigger] prefix[i]).txn_idx < total by {
            assert(prefix[i] == items[i]);
        }
    }
}

/// Tells whether `messages` hold the outputs of a block, as many as `expected_outputs`
/// tells in all, and the total supply stays in range with them.
pub fn are_outputs_complete(
    expected_outputs: &Vec<u64>,
    messages: &Vec<Vec<TransactionIdxAndOutput>>,
    total_supply_base_val: u128,
) -> (complete: bool)
    ensures
        complete == can_be_aggregated(
            expected_outputs@,
            all_items(messages@),
            total_supply_base_val,
        ),
{
    let ghost items = all_items(messages@);
    let ghost arrived = arrived_of(items);
    let ghost base = total_supply_base_val as int;
    let total = match checked_total(expected_outputs) {
        Some(total) => total,
        None => {
            return false;
        },
    };
    if total == 0 {
        return false;
    }
    let changes = match collect_changes(messages, total) {
        Some(changes) => changes,
        None => {
            return false;
        },
    };
    let mut supply = total_supply_base_val;
    for i in 0..total
        invariant
            total == sum(expected_outputs@),
            items == all_items(messages@),
            arrived == arrived_of(items),
            base == total_supply_base_val,
            changes@.len() == total,
            are_changes_of(changes@, items),
            arrived_up_to(arrived, i as nat),
            supply == supply_after(arrived, base, i as nat),
            forall|n: nat| n <= i ==> 0 <= #[trigger] supply_after(arrived, base, n) <= u128::MAX,
    {
        let change = match changes[i] {
            Some(change) => change,
            None => {
                assert(!arrived.contains_key(i as int));
                return false;
            },
        };
        assert(arrived.contains_key(i as int));
        assert(change == arrived[i as int].total_supply_delta);
        assert(arrived_up_to(arrived, (i + 1) as nat));
        let changed = match change {
            Some(delta) => if delta.is_positive {
                supply.checked_add(delta.delta)
            } else {
                supply.checked_sub(delta.delta)
            },
            None => Some(supply),
        };
        assert(supply_after(arrived, base, (i + 1) as nat) == supply + supply_change(
            arrived[i as int],
        ));
        match changed {
            Some(changed) => {
                supply = changed;
            },
            None => {
                assert(!supply_in_range(arrived, base, total as nat));
                return false;
            },
        }
    }
    true
}

impl RemoteExecutorClient {
    /// The outputs of a block, from the messages with outputs in the order in which
    /// they came in, with the total supply filled in.
    pub fn get_streamed_output_from_shards(
        &self,
        expected_outputs: &Vec<u64>,
        messages: Vec<Vec<TransactionIdxAndOutput>>,
        total_supply_base_val: u128,
    ) -> (results: Vec<TransactionOutput>)
        requires
            expected_outputs@.len() == self.shards().len(),
            can_be_aggregated(expected_outputs@, all_items(messages@), total_supply_base_val),
        ensures
            results@ == aggregated(
                arrived_of(all_items(messages@)),
                total_supply_base_val as int,
                sum(expected_outputs@),
            ),
    {
        let total = total_expected_outputs(expected_outputs) as usize;
        let mut aggregator = OutputAggregator::new(total, total_supply_base_val);
        let ghost base = total_supply_base_val as int;
        let ghost all_messages = messages@;
        let ghost items = all_items(all_messages);
        for message in it: messages
            invariant
                all_messages == it.seq(),
                items == all_items(all_messages),
                are_outputs_of_block(items, total as nat),
                supply_in_range(arrived_of(items), base, total as nat),
                aggregator.well_formed(),
                aggregator.total() == total,
                aggregator.base() == base,
                aggregator.arrived() == arrived_of(all_items(all_messages.take(it.index()))),
                it.index() > 0 ==> (aggregator.num_aggregated() < total
                    ==> !aggregator.arrived().contains_key(aggregator.num_aggregated() as int)),
        {
            let ghost before = all_items(all_messages.take(it.index()));
            let ghost batch = message@;
            let ghost after = all_items(all_messages.take(it.index() + 1));
            proof {
                assert(all_messages.take(it.index() + 1).drop_last() =~= all_messages.take(
                    it.index(),
                ));
                assert(after == before + batch);
                lemma_items_of_prefix(all_messages, it.index() + 1);
                assert(before + batch.take(0) =~= before);
            }
            for item in inner: message
                invariant
                    batch == inner.seq(),
                    are_outputs_of_block(items, total as nat),
                    after == before + batch,
                    after.is_prefix_of(items),
                    aggregator.well_formed(),
                    aggregator.total() == total,
                    aggregator.base() == base,
                    aggregator.arrived() == arrived_of(before + batch.take(inner.index())),
            {
                proof {
                    let seen = before + batch.take(inner.index());
                    let more = before + batch.take(inner.index() + 1);
                    assert(more.drop_last() =~= seen);
                    assert(more.last() == item);
                    assert(more.is_prefix_of(items)) by {
                        assert(more =~= items.take(more.len() as int));
                    }
                    assert(item == items[seen.len() as int]);
                    assert(seen.is_prefix_of(items)) by {
                        assert(seen =~= items.take(seen.len() as int));
                    }
                    lemma_arrived_of_prefix(seen, items);
                    lemma_arrived_of(seen);
                    if arrived_of(seen).contains_key(item.txn_idx as int) {
                        let i = choose|i: int|
                            0 <= i < seen.len() && (#[trigger] seen[i]).txn_idx == item.txn_idx;
                        assert(seen[i] == items[i]);
                        assert(items[i].txn_idx != items[seen.len() as int].txn_idx);
                    }
                }
                aggregator.store(item);
            }
            proof {
                assert(before + batch.take(batch.len() as int) =~= after);
                lemma_supply_in_range_of_prefix(after, items, base, total as nat);
            }
            aggregator.aggregate();
        }
        assert(all_messages.take(all_messages.len() as int) =~= all_messages);
        proof {
            assert(arrived_of(items).contains_key(0));
            assert(all_messages.len() > 0);
            if aggregator.num_aggregated() < total {
                assert(arrived_of(items).contains_key(aggregator.num_aggregated() as int));
            }
        }
        aggregator.into_results()
    }
}

/// The last of `results` that is of the shard `shard_id`: nothing where there is
/// none.
pub open spec fn result_of_shard<R>(results: Seq<(usize, Vec<R>)>, shard_id: int) -> Seq<R>
    decreases results.len(),
{
    if results.len() == 0 {
        Seq::empty()
    } else if results.last().0 == shard_id {
        results.last().1@
    } else {
        result_of_shard(results.drop_last(), shard_id)
    }
}

impl RemoteExecutorClient {
    /// The results of the shards, each in the place of its shard.
    pub fn get_output_from_shards<R>(&self, results: Vec<(usize, Vec<R>)>) -> (gathered: Vec<
        Vec<R>,
    >)
        requires
            forall|i: int| 0 <= i < results@.len() ==> (#[trigger] results@[i]).0 < self.shards().len(),
        ensures
            gathered@.len() == self.shards().len(),
            forall|i: int|
                0 <= i < gathered@.len() ==> #[trigger] gathered@[i]@ == result_of_shard(
                    results@,
                    i,
                ),
    {
        let ghost all = results@;
        let num_shards = self.num_shards();
        let mut gathered: Vec<Vec<R>> = Vec::new();
        for shard_id in 0..num_shards
            invariant
                gathered@.len() == shard_id,
                forall|i: int| 0 <= i < shard_id ==> #[trigger] gathered@[i]@ == Seq::<R>::empty(),
        {
            gathered.push(Vec::new());
        }
        for result in it: results
            invariant
                all == it.seq(),
                gathered@.len() == num_shards,
                forall|i: int| 0 <= i < all.len() ==> (#[trigger] all[i]).0 < num_shards,
                forall|i: int|
                    0 <= i < num_shards ==> #[trigger] gathered@[i]@ == result_of_shard(
                        all.take(it.index()),
                        i,
                    ),
        {
            assert(result == all[it.index()]);
            assert(all.take(it.index() + 1).drop_last() =~= all.take(it.index()));
            gathered.set(result.0, result.1);
        }
        assert(all.take(all.len() as int) =~= all);
        gathered
    }
}

/// Where each shard has one result, each result ends up in the place of its shard,
/// in whatever order they come.
pub proof fn each_result_is_gathered_at_its_shard<R>(results: Seq<(usize, Vec<R>)>, k: int)
    requires
        forall|i: int, j: int|
            0 <= i < j < results.len() ==> (#[trigger] results[i]).0 != (#[trigger] results[j]).0,
        0 <= k < results.len(),
    ensures
        result_of_shard(results, results[k].0 as int) == results[k].1@,
    decreases results.len(),
{
    if k < results.len() - 1 {
        let earlier = results.drop_last();
        assert forall|i: int, j: int| 0 <= i < j < earlier.len() implies (
        #[trigger] earlier[i]).0 != (#[trigger] earlier[j]).0 by {
            assert(results[i].0 != results[j].0);
        }
        each_result_is_gathered_at_its_shard(earlier, k);
        assert(results[k].0 != results[results.len() - 1].0);
    }
}

/// The order in which the outputs of a block come in does not matter: what comes of
/// them is the same.
pub proof fn arrival_order_does_not_matter(
    one: Seq<TransactionIdxAndOutput>,
    other: Seq<TransactionIdxAndOutput>,
    base: int,
    total: nat,
)
    requires
        are_outputs_of_block(one, total),
        one.to_multiset() == other.to_multiset(),
    ensures
        are_outputs_of_block(other, total),
        aggregated(arrived_of(one), base, total) == aggregated(arrived_of(other), base, total),
{
    broadcast use vstd::seq_lib::group_to_multiset_ensures;

    assert(one.no_duplicates()) by {
        assert forall|i: int, j: int|
            0 <= i < one.len() && 0 <= j < one.len() && i != j implies one[i] != one[j] by {
            if i < j {
                assert(one[i].txn_idx != one[j].txn_idx);
            } else {
                assert(one[j].txn_idx != one[i].txn_idx);
            }
        }
    }
    one.lemma_multiset_has_no_duplicates();
    other.lemma_multiset_has_no_duplicates_conv();
    assert forall|item: TransactionIdxAndOutput| one.contains(item) <==> other.contains(item) by {
        assert(one.contains(item) <==> one.to_multiset().count(item) > 0);
        assert(other.contains(item) <==> other.to_multiset().count(item) > 0);
    }
    assert forall|i: int, j: int| 0 <= i < j < other.len() implies #[trigger] other[i].txn_idx
        != #[trigger] other[j].txn_idx by {
        assert(other.contains(other[i]) && other.contains(other[j]));
        let a = choose|a: int| 0 <= a < one.len() && one[a] == other[i];
        let b = choose|b: int| 0 <= b < one.len() && one[b] == other[j];
        assert(a != b);
        if a < b {
            assert(one[a].txn_idx != one[b].txn_idx);
        } else {
            assert(one[b].txn_idx != one[a].txn_idx);
        }
    }
    lemma_arrived_of(one);
    lemma_arrived_of(other);
    assert forall|i: int| 0 <= i < other.len() implies (#[trigger] other[i]).txn_idx < total by {
        assert(other.contains(other[i]));
        let a = choose|a: int| 0 <= a < one.len() && one[a] == other[i];
        assert(one[a].txn_idx < total);
    }
    assert(arrived_of(one) =~= arrived_of(other)) by {
        assert forall|k: int| arrived_of(one).contains_key(k) implies arrived_of(
            other,
        ).contains_key(k) && arrived_of(one)[k] == arrived_of(other)[k] by {
            let i = choose|i: int| 0 <= i < one.len() && (#[trigger] one[i]).txn_idx == k;
            assert(one.contains(one[i]));
            let j = choose|j: int| 0 <= j < other.len() && other[j] == one[i];
            assert(arrived_of(other).contains_key(other[j].txn_idx as int));
            assert(arrived_of(one)[one[i].txn_idx as int] == one[i].txn_output);
        }
        assert forall|k: int| arrived_of(other).contains_key(k) implies arrived_of(
            one,
        ).contains_key(k) by {
            let i = choose|i: int| 0 <= i < other.len() && (#[trigger] other[i]).txn_idx == k;
            assert(other.contains(other[i]));
            let j = choose|j: int| 0 <= j < one.len() && one[j] == other[i];
            assert(arrived_of(one).contains_key(one[j].txn_idx as int));
        }
    }
}

/// Filling in the total supply changes nothing else in an output, and nothing at
/// all in one that has no say in it.
pub proof fn only_the_total_supply_is_filled_in(arrived: Arrived, base: int, total: nat, i: int)
    requires
        0 <= i < total,
    ensures
        ({
            let output = aggregated(arrived, base, total)[i];
            &&& output == (TransactionOutput { total_supply: output.total_supply, ..arrived[i] })
            &&& arrived[i].total_supply_delta is None ==> output == arrived[i]
        }),
{
}

/// The sum of the changes that the first `n` transactions make to the total supply.
pub open spec fn supply_changes(arrived: Arrived, n: nat) -> int
    decreases n,
{
    if n == 0 {
        0
    } else {
        supply_changes(arrived, (n - 1) as nat) + supply_change(arrived[n - 1])
    }
}

/// The total supply that is filled in is the one before the block plus the changes
/// of all transactions up to the one in question, whatever shard executed them.
pub proof fn total_supply_is_the_running_sum(arrived: Arrived, base: int, total: nat, i: int)
    requires
        0 <= i < total,
        arrived_up_to(arrived, total),
        supply_in_range(arrived, base, total),
        arrived[i].total_supply_delta is Some,
    ensures
        aggregated(arrived, base, total)[i].total_supply matches Some(supply) && supply == base
            + supply_changes(arrived, (i + 1) as nat),
{
    lemma_supply_after_is_sum(arrived, base, (i + 1) as nat);
    assert(arrived_up_to(arrived, (i + 1) as nat));
    assert(0 <= supply_after(arrived, base, (i + 1) as nat) <= u128::MAX);
}

proof fn lemma_supply_after_is_sum(arrived: Arrived, base: int, n: nat)
    ensures
        supply_after(arrived, base, n) == base + supply_changes(arrived, n),
    decreases n,
{
    if n > 0 {
        lemma_supply_after_is_sum(arrived, base, (n - 1) as nat);
    }
}

/// How far a shard is after messages with the given numbers of outputs.
pub open spec fn progress_after(expected: u64, sizes: Seq<u64>, n: nat) -> ShardProgress
    decreases n,
{
    if n == 0 {
        ShardProgress { expected, received: 0 }
    } else {
        let before = progress_after(expected, sizes, (n - 1) as nat);
        ShardProgress { expected, received: (before.received + sizes[n - 1]) as u64 }
    }
}

/// A shard has sent what its messages hold together, so it is done with the message
/// that brings their sum to what is expected.
pub proof fn progress_is_the_sum_of_the_messages(expected: u64, sizes: Seq<u64>, n: nat)
    requires
        n <= sizes.len(),
        sum_of_first(sizes, n) <= u64::MAX,
    ensures
        progress_after(expected, sizes, n).received == sum_of_first(sizes, n),
        progress_after(expected, sizes, n).expected == expected,
    decreases n,
{
    if n > 0 {
        progress_is_the_sum_of_the_messages(expected, sizes, (n - 1) as nat);
    }
}

} // verus!
