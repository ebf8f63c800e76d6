//! Tracking of reference pictures and of the DPB slots that hold them.

use super::dpb::select::{first_true, lemma_first_true};
use vstd::prelude::*;

verus! {

/// The references with `newest` in front, cut to the newest `max`.
pub open spec fn remembered<T>(references: Seq<T>, newest: T, max: nat) -> Seq<T> {
    let all = seq![newest] + references;
    if all.len() > max {
        all.take(max as int)
    } else {
        all
    }
}

/// Put the newest reference in front, and forget the oldest ones beyond `max`.
pub fn remember<T: Copy>(references: &mut Vec<T>, newest: T, max: usize)
    requires
        old(references)@.len() < usize::MAX,
    ensures
        final(references)@ == remembered(old(references)@, newest, max as nat),
{
    let ghost all = seq![newest] + references@;
    references.insert(0, newest);
    assert(references@ =~= all);
    while references.len() > max
        invariant
            references@.len() <= all.len(),
            references@ =~= all.take(references@.len() as int),
            all.len() >= max ==> references@.len() >= max,
            all.len() <= max ==> references@.len() == all.len(),
        decreases references@.len(),
    {
        references.pop();
    }
    assert(all.take(all.len() as int) =~= all);
}

/// Each slot occurs once.
pub open spec fn distinct(slots: Seq<u8>) -> bool {
    forall|i: int, j: int|
        0 <= i < j < slots.len() ==> #[trigger] slots[i] != #[trigger] slots[j]
}

/// The slots below `slot_count` that are not used.
pub open spec fn free_slots(used: Seq<u8>, slot_count: u8) -> Seq<bool> {
    Seq::new(slot_count as nat, |i: int| !used.contains(i as u8))
}

/// The first slot that is not used; `current` if all are.
pub open spec fn next_slot(used: Seq<u8>, slot_count: u8, current: u8) -> u8 {
    match first_true(free_slots(used, slot_count)) {
        Some(i) => i as u8,
        None => current,
    }
}

fn holds_slot(used: &Vec<u8>, slot: u8) -> (held: bool)
    ensures
        held == used@.contains(slot),
{
    let n: usize = used.len();
    let mut i: usize = 0;
    while i < n
        invariant
            i <= n,
            n == used@.len(),
            forall|j: int| 0 <= j < i ==> used@[j] != slot,
        decreases n - i,
    {
        if used[i] == slot {
            assert(used@[i as int] == slot);
            return true;
        }
        i = i + 1;
    }
    false
}

/// Find a free DPB slot for the next frame: the first that no reference uses. If
/// there is none, the current slot stays.
pub fn find_free_slot(used: &Vec<u8>, slot_count: u8, current: u8) -> (slot: u8)
    ensures
        slot == next_slot(used@, slot_count, current),
{
    let mut i: u8 = 0;
    while i < slot_count
        invariant
            i <= slot_count,
            forall|j: int| 0 <= j < i ==> !(#[trigger] free_slots(used@, slot_count)[j]),
        decreases slot_count - i,
    {
        if !holds_slot(used, i) {
            proof {
                let free = free_slots(used@, slot_count);
                assert(free[i as int]);
                lemma_first_true(free);
            }
            return i;
        }
        i = i + 1;
    }
    proof {
        lemma_first_true(free_slots(used@, slot_count));
    }
    current
}

proof fn lemma_fewer_than_slots(used: Seq<u8>, slot_count: u8)
    requires
        used.len() < slot_count,
    ensures
        exists|i: int| 0 <= i < slot_count && #[trigger] free_slots(used, slot_count)[i],
{
    let free = free_slots(used, slot_count);
    if forall|i: int| 0 <= i < slot_count ==> !(#[trigger] free[i]) {
        let numbers = used.map_values(|x: u8| x as int);
        let all = vstd::set_lib::set_int_range(0, slot_count as int);
        vstd::set_lib::lemma_int_range(0, slot_count as int);
        numbers.lemma_cardinality_of_set();
        assert(all.subset_of(numbers.to_set())) by {
            assert forall|x: int| all.contains(x) implies #[trigger] numbers.to_set().contains(
                x,
            ) by {
                assert(!free[x]);
                let j = choose|j: int| 0 <= j < used.len() && used[j] == x as u8;
                assert(numbers[j] == x);
            }
        }
        vstd::set_lib::lemma_len_subset(all, numbers.to_set());
        assert(false);
    }
}

/// With fewer references than slots, the next slot is one of the slots and holds no
/// reference.
pub proof fn law_next_slot_is_free(used: Seq<u8>, slot_count: u8, current: u8)
    requires
        used.len() < slot_count,
    ensures
        next_slot(used, slot_count, current) < slot_count,
        !used.contains(next_slot(used, slot_count, current)),
{
    let free = free_slots(used, slot_count);
    lemma_fewer_than_slots(used, slot_count);
    lemma_first_true(free);
    let i = first_true(free)->Some_0;
    assert(free[i]);
}

/// The newest reference is remembered if any is, and at most `max` are.
pub proof fn law_newest_is_remembered<T>(references: Seq<T>, newest: T, max: nat)
    ensures
        remembered(references, newest, max).len() <= max,
        max > 0 ==> remembered(references, newest, max)[0] == newest,
        forall|i: int|
            0 < i < remembered(references, newest, max).len() ==> #[trigger] remembered(
                references,
                newest,
                max,
            )[i] == references[i - 1],
{
}

/// The next slot is the lowest that no reference is in.
pub proof fn law_next_slot_is_lowest(used: Seq<u8>, slot_count: u8, current: u8, lower: u8)
    requires
        used.len() < slot_count,
        lower < next_slot(used, slot_count, current),
    ensures
        used.contains(lower),
{
    let free = free_slots(used, slot_count);
    lemma_fewer_than_slots(used, slot_count);
    lemma_first_true(free);
    assert(!free[lower as int]);
}

/// References are forgotten only beyond the limit: either all are remembered, or the
/// limit is reached.
pub proof fn law_no_reference_is_forgotten_early<T>(references: Seq<T>, newest: T, max: nat)
    ensures
        references.len() < max ==> remembered(references, newest, max).len() == references.len()
            + 1,
        references.len() >= max ==> remembered(references, newest, max).len() == max,
{
}

} // verus!
