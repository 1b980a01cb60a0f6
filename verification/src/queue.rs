//! Queues of numbers, and taking an entry out of them.

use vstd::prelude::*;

verus! {

/// The test that keeps every entry but `value`.
pub open spec fn is_not(value: u64) -> spec_fn(u64) -> bool {
    |other: u64| other != value
}

/// A queue with every occurrence of `value` taken out.
pub open spec fn without(queue: Seq<u64>, value: u64) -> Seq<u64> {
    queue.filter(is_not(value))
}

/// `without` keeps exactly the entries that differ from `value`.
pub proof fn lemma_without_contains(queue: Seq<u64>, value: u64, other: u64)
    ensures
        without(queue, value).contains(other) <==> (queue.contains(other) && other != value),
    decreases queue.len(),
{
    reveal(Seq::filter);
    if queue.len() > 0 {
        let front = queue.drop_last();
        lemma_without_contains(front, value, other);
        let kept = without(front, value);
        if queue.contains(other) {
            let i = choose|i: int| 0 <= i < queue.len() && queue[i] == other;
            if i < queue.len() - 1 {
                assert(front[i] == other);
            }
        }
        if front.contains(other) {
            let i = choose|i: int| 0 <= i < front.len() && front[i] == other;
            assert(queue[i] == other);
        }
        if is_not(value)(queue.last()) {
            assert(without(queue, value) == kept.push(queue.last()));
            if kept.contains(other) {
                let i = choose|i: int| 0 <= i < kept.len() && kept[i] == other;
                assert(kept.push(queue.last())[i] == other);
            }
            if other == queue.last() {
                assert(kept.push(queue.last())[kept.len() as int] == other);
                assert(queue[queue.len() - 1] == other);
            }
        } else {
            assert(without(queue, value) == kept);
        }
    }
}

/// Takes every occurrence of `value` out of `queue`.
pub fn remove_all(queue: &mut Vec<u64>, value: u64)
    ensures
        final(queue)@ == without(old(queue)@, value),
{
    let mut kept: Vec<u64> = Vec::new();
    let mut i: usize = 0;
    proof {
        reveal(Seq::filter);
        assert(queue@.take(0) =~= Seq::<u64>::empty());
    }
    while i < queue.len()
        invariant
            0 <= i <= queue.len(),
            kept@ == without(queue@.take(i as int), value),
        decreases queue.len() - i,
    {
        let entry = queue[i];
        proof {
            reveal(Seq::filter);
            let next = queue@.take(i + 1);
            assert(next.drop_last() =~= queue@.take(i as int));
            assert(next.last() == entry);
        }
        if entry != value {
            kept.push(entry);
        }
        i = i + 1;
    }
    assert(queue@.take(queue@.len() as int) =~= queue@);
    *queue = kept;
}

} // verus!
