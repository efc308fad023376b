//! Accounting of memory.
use vstd::prelude::*;

verus! {

/// The sum of `parts`.
pub open spec fn total(parts: Seq<usize>) -> int
    decreases parts.len(),
{
    if parts.len() == 0 {
        0
    } else {
        total(parts.drop_last()) + parts.last()
    }
}

/// The sum is no less than each part, and than two of them.
pub proof fn lemma_total_at_least(parts: Seq<usize>, i: int, j: int)
    requires
        0 <= i < j < parts.len(),
    ensures
        total(parts) >= parts[i] + parts[j],
        total(parts) >= parts[j],
    decreases parts.len(),
{
    lemma_total_at_least_part(parts.drop_last(), i);
    if j < parts.len() - 1 {
        lemma_total_at_least(parts.drop_last(), i, j);
    }
}

proof fn lemma_total_at_least_part(parts: Seq<usize>, i: int)
    requires
        0 <= i < parts.len(),
    ensures
        total(parts) >= parts[i],
        total(parts.drop_last()) >= 0,
    decreases parts.len(),
{
    if parts.len() > 1 {
        let rest = parts.drop_last();
        lemma_total_at_least_part(rest, if i < rest.len() { i } else { 0 });
    } else {
        assert(total(parts.drop_last()) == 0);
    }
}

/// The sum of `parts`, or the largest number where the sum is larger.
pub fn total_size(parts: &[usize]) -> (size: usize)
    ensures
        size == if total(parts@) <= usize::MAX {
            total(parts@)
        } else {
            usize::MAX as int
        },
{
    let mut size: usize = 0;
    let mut idx: usize = 0;
    assert(parts@.take(0) =~= Seq::empty());
    while idx < parts.len()
        invariant
            idx <= parts@.len(),
            size == if total(parts@.take(idx as int)) <= usize::MAX {
                total(parts@.take(idx as int))
            } else {
                usize::MAX as int
            },
        decreases parts@.len() - idx,
    {
        assert(parts@.take(idx + 1).drop_last() =~= parts@.take(idx as int));
        size = size.saturating_add(parts[idx]);
        idx = idx + 1;
    }
    assert(parts@.take(idx as int) =~= parts@);
    size
}

/// The bytes of `count` elements of `size` bytes each, or the largest number where they
/// are more.
pub fn elements_size(count: usize, size: usize) -> (bytes: usize)
    ensures
        bytes == if count * size <= usize::MAX {
            count * size
        } else {
            usize::MAX as int
        },
{
    match count.checked_mul(size) {
        Some(bytes) => bytes,
        None => usize::MAX,
    }
}

/// `Vec::capacity`: room for at least the elements that are there. How much more, is
/// not stated.
#[verifier::external_body]
pub(crate) fn vec_capacity<T>(vec: &Vec<T>) -> (capacity: usize)
    ensures
        capacity >= vec@.len(),
{
    vec.capacity()
}

/// Parts that are taken together add up.
pub proof fn law_totals_add_up(first: Seq<usize>, second: Seq<usize>, part: usize)
    ensures
        total(Seq::<usize>::empty()) == 0,
        total(seq![part]) == part,
        total(first + second) == total(first) + total(second),
    decreases second.len(),
{
    reveal_with_fuel(total, 2);
    assert(seq![part].drop_last() =~= Seq::<usize>::empty());
    if second.len() == 0 {
        assert(first + second =~= first);
    } else {
        law_totals_add_up(first, second.drop_last(), part);
        assert((first + second).drop_last() =~= first + second.drop_last());
    }
}

} // verus!
