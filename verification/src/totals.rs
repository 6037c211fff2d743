//! Sums.
use vstd::prelude::*;

verus! {

/// The sum of a list of numbers.
pub open spec fn sum(numbers: Seq<nat>) -> nat
    decreases numbers.len(),
{
    if numbers.len() == 0 {
        0
    } else {
        sum(numbers.drop_last()) + numbers.last()
    }
}

/// The sum of the first `n` numbers is no more than the sum of all.
pub(crate) proof fn lemma_sum_of_prefix(numbers: Seq<nat>, n: int)
    requires
        0 <= n <= numbers.len(),
    ensures
        sum(numbers.take(n)) <= sum(numbers),
    decreases numbers.len() - n,
{
    if n < numbers.len() {
        assert(numbers.take(n + 1).drop_last() =~= numbers.take(n));
        lemma_sum_of_prefix(numbers, n + 1);
    } else {
        assert(numbers.take(n) =~= numbers);
    }
}

/// One more number adds itself to the sum.
pub(crate) proof fn lemma_sum_step(numbers: Seq<nat>, n: int)
    requires
        0 <= n < numbers.len(),
    ensures
        sum(numbers.take(n + 1)) == sum(numbers.take(n)) + numbers[n],
        sum(numbers.take(n + 1)) <= sum(numbers),
{
    assert(numbers.take(n + 1).drop_last() =~= numbers.take(n));
    lemma_sum_of_prefix(numbers, n + 1);
}

/// Raising one number raises the sum by as much.
pub(crate) proof fn lemma_sum_update(numbers: Seq<nat>, i: int, more: nat)
    requires
        0 <= i < numbers.len(),
    ensures
        sum(numbers.update(i, numbers[i] + more)) == sum(numbers) + more,
    decreases numbers.len(),
{
    let raised = numbers.update(i, numbers[i] + more);
    if i == numbers.len() - 1 {
        assert(raised.drop_last() =~= numbers.drop_last());
    } else {
        assert(raised.drop_last() =~= numbers.drop_last().update(i, numbers[i] + more));
        lemma_sum_update(numbers.drop_last(), i, more);
    }
}

/// The sizes as numbers.
pub open spec fn size_numbers(sizes: Seq<usize>) -> Seq<nat> {
    sizes.map_values(|size: usize| size as nat)
}

/// How much a list of sizes comes to.
pub fn total_size(sizes: &Vec<usize>) -> (total: usize)
    requires
        sum(size_numbers(sizes@)) <= usize::MAX,
    ensures
        total == sum(size_numbers(sizes@)),
{
    let ghost numbers = size_numbers(sizes@);
    let mut total: usize = 0;
    let mut i: usize = 0;
    while i < sizes.len()
        invariant
            i <= sizes.len(),
            numbers == size_numbers(sizes@),
            sum(numbers) <= usize::MAX,
            total == sum(numbers.take(i as int)),
        decreases sizes.len() - i,
    {
        proof {
            lemma_sum_step(numbers, i as int);
        }
        total += sizes[i];
        i += 1;
    }
    assert(numbers.take(i as int) =~= numbers);
    total
}

/// Nothing comes to nothing, and one more number raises the sum by that number.
pub proof fn law_sum_adds_up(numbers: Seq<nat>, number: nat)
    ensures
        sum(Seq::<nat>::empty()) == 0,
        sum(numbers.push(number)) == sum(numbers) + number,
{
    assert(numbers.push(number).drop_last() =~= numbers);
}

/// One more size raises the total by that size.
pub proof fn law_sizes_add_up(sizes: Seq<usize>, size: usize)
    ensures
        sum(size_numbers(Seq::<usize>::empty())) == 0,
        sum(size_numbers(sizes.push(size))) == sum(size_numbers(sizes)) + size,
{
    assert(size_numbers(Seq::<usize>::empty()) =~= Seq::<nat>::empty());
    assert(size_numbers(sizes.push(size)) =~= size_numbers(sizes).push(size as nat));
    law_sum_adds_up(size_numbers(sizes), size as nat);
}

} // verus!
