//! Output of pictures and reuse of their slots.

use super::entry::{DpbEntry, DpbState, MarkingState};
use super::select::{
    count_true, count_upto, first_least, first_true, first_true_from, least_upto,
    lemma_count_bound, lemma_count_change, lemma_first_least,
};
use super::MAX_DPB_SIZE;
use vstd::prelude::*;

verus! {

/// `slots` with `f` applied to the first `n`.
pub open spec fn change_first(
    slots: Seq<DpbEntry>,
    n: int,
    f: spec_fn(DpbEntry) -> DpbEntry,
) -> Seq<DpbEntry> {
    Seq::new(
        slots.len(),
        |i: int|
            if i < n {
                f(slots[i])
            } else {
                slots[i]
            },
    )
}

/// Which of the first `n` slots hold a picture.
pub open spec fn in_use_flags(slots: Seq<DpbEntry>, n: int) -> Seq<bool> {
    Seq::new(n as nat, |i: int| slots[i].state == DpbState::InUse)
}

/// Which of the first `n` slots are empty.
pub open spec fn empty_flags(slots: Seq<DpbEntry>, n: int) -> Seq<bool> {
    Seq::new(n as nat, |i: int| slots[i].state == DpbState::Empty)
}

/// Which of the first `n` slots hold short-term references.
pub open spec fn short_term_flags(slots: Seq<DpbEntry>, n: int) -> Seq<bool> {
    Seq::new(n as nat, |i: int| slots[i].short_term())
}

/// Which of the first `n` slots hold long-term references.
pub open spec fn long_term_slot_flags(slots: Seq<DpbEntry>, n: int) -> Seq<bool> {
    Seq::new(n as nat, |i: int| slots[i].long_term())
}

/// The picture of a slot waits for output.
pub open spec fn waits_for_output(e: DpbEntry) -> bool {
    e.state == DpbState::InUse && e.output
}

/// POCs of the pictures that wait for output.
pub open spec fn output_keys(slots: Seq<DpbEntry>, n: int) -> Seq<Option<int>> {
    Seq::new(
        n as nat,
        |i: int|
            if waits_for_output(slots[i]) {
                Some(slots[i].pic_order_cnt as int)
            } else {
                None
            },
    )
}

/// The slot whose picture is output next: the one with the smallest POC.
pub open spec fn next_output(slots: Seq<DpbEntry>, n: int) -> Option<int> {
    first_least(output_keys(slots, n), i32::MAX as int)
}

/// A picture once it was output: its slot is free if it is no reference.
pub open spec fn after_output(e: DpbEntry) -> DpbEntry {
    DpbEntry {
        output: false,
        state: if e.marking == MarkingState::Unused {
            DpbState::Empty
        } else {
            e.state
        },
        ..e
    }
}

/// The slots after one picture was output.
pub open spec fn bumped(slots: Seq<DpbEntry>, n: int) -> Seq<DpbEntry> {
    match next_output(slots, n) {
        Some(i) => slots.update(i, after_output(slots[i])),
        None => slots,
    }
}

/// All slots hold a picture.
pub open spec fn all_in_use(slots: Seq<DpbEntry>, n: int) -> bool {
    forall|i: int| 0 <= i < n ==> (#[trigger] slots[i]).state == DpbState::InUse
}

/// No slot holds a picture.
pub open spec fn none_in_use(slots: Seq<DpbEntry>, n: int) -> bool {
    forall|i: int| 0 <= i < n ==> (#[trigger] slots[i]).state != DpbState::InUse
}

/// Which pictures can still be output.
pub open spec fn pending_flags(slots: Seq<DpbEntry>, n: int) -> Seq<bool> {
    Seq::new(
        n as nat,
        |i: int| waits_for_output(slots[i]) && slots[i].pic_order_cnt < i32::MAX,
    )
}

/// The slots after as many pictures were output as it takes to free one.
pub open spec fn room_made(slots: Seq<DpbEntry>, n: int) -> Seq<DpbEntry>
    decreases count_true(pending_flags(slots, n)),
{
    if 0 <= n <= slots.len() && all_in_use(slots, n) && next_output(slots, n) is Some {
        proof {
            lemma_bump_progress(slots, n);
        }
        room_made(bumped(slots, n), n)
    } else {
        slots
    }
}

/// Each time bumping outputs a picture, fewer pictures are left to output.
pub proof fn lemma_bump_progress(slots: Seq<DpbEntry>, n: int)
    requires
        0 <= n <= slots.len(),
        next_output(slots, n) is Some,
    ensures
        count_true(pending_flags(bumped(slots, n), n)) < count_true(pending_flags(slots, n)),
{
    let keys = output_keys(slots, n);
    lemma_first_least(keys, i32::MAX as int);
    let p = next_output(slots, n)->0;
    assert(keys[p] is Some);
    let a = pending_flags(slots, n);
    let b = pending_flags(bumped(slots, n), n);
    assert(a[p]);
    assert(!b[p]);
    assert forall|i: int| 0 <= i < n && i != p implies a[i] == b[i] by {}
    lemma_count_change(a, b, p, n as nat);
}

/// A slot that is free, or that bumping can free.
pub open spec fn can_free(e: DpbEntry) -> bool {
    ||| e.state == DpbState::Empty
    ||| (e.marking == MarkingState::Unused && (!e.output || e.pic_order_cnt < i32::MAX))
}

/// A slot that is unused for reference and not waiting for output is free.
pub open spec fn released(e: DpbEntry) -> DpbEntry {
    if e.marking == MarkingState::Unused && !e.output {
        DpbEntry { state: DpbState::Empty, ..e }
    } else {
        e
    }
}

/// A slot after a flush: no reference, output, and free.
pub open spec fn flushed(e: DpbEntry) -> DpbEntry {
    DpbEntry {
        state: DpbState::Empty,
        output: if e.state == DpbState::InUse {
            false
        } else {
            e.output
        },
        ..e.unmarked()
    }
}

/// A slot that is dropped without output.
pub open spec fn dropped(e: DpbEntry) -> DpbEntry {
    DpbEntry { state: DpbState::Empty, ..e.unmarked() }
}

/// Bumping can output every picture that waits for it.
pub open spec fn can_flush(slots: Seq<DpbEntry>, n: int) -> bool {
    forall|i: int|
        0 <= i < n && waits_for_output(#[trigger] slots[i]) ==> slots[i].pic_order_cnt < i32::MAX
}

/// Take away the reference marking of the first `n` slots.
pub(crate) fn unmark_slots(entries: &mut [DpbEntry; MAX_DPB_SIZE], n: usize)
    requires
        n <= MAX_DPB_SIZE,
    ensures
        final(entries)@ == change_first(old(entries)@, n as int, |e: DpbEntry| e.unmarked()),
{
    let ghost before = entries@;
    let mut i: usize = 0;
    while i < n
        invariant
            i <= n <= MAX_DPB_SIZE,
            before.len() == MAX_DPB_SIZE,
            entries@ =~= change_first(before, i as int, |e: DpbEntry| e.unmarked()),
        decreases n - i,
    {
        entries[i].mark_unused();
        i = i + 1;
    }
}

/// Output the next picture.
pub(crate) fn bump(entries: &mut [DpbEntry; MAX_DPB_SIZE], n: usize)
    requires
        n <= MAX_DPB_SIZE,
    ensures
        final(entries)@ == bumped(old(entries)@, n as int),
{
    // Find picture with smallest POC that needs output.
    let ghost keys = output_keys(entries@, n as int);
    let mut min_poc: i32 = i32::MAX;
    let mut min_idx: Option<usize> = None;
    let mut i: usize = 0;
    while i < n
        invariant
            i <= n <= MAX_DPB_SIZE,
            keys == output_keys(entries@, n as int),
            match (min_idx, least_upto(keys, i32::MAX as int, i as nat)) {
                (Some(p), Some(q)) => p == q && p < i && min_poc == entries@[p as int].pic_order_cnt
                    && keys[q] == Some(min_poc as int),
                (None, None) => min_poc == i32::MAX,
                _ => false,
            },
        decreases n - i,
    {
        let entry = entries[i];
        if entry.state == DpbState::InUse && entry.output && entry.pic_order_cnt < min_poc {
            min_poc = entry.pic_order_cnt;
            min_idx = Some(i);
        }
        i = i + 1;
    }
    if let Some(idx) = min_idx {
        entries[idx].output = false;
        if entries[idx].marking == MarkingState::Unused {
            entries[idx].state = DpbState::Empty;
        }
    }
}

/// Output pictures until a slot is free.
pub(crate) fn make_room(entries: &mut [DpbEntry; MAX_DPB_SIZE], n: usize)
    requires
        n <= MAX_DPB_SIZE,
        exists|i: int| 0 <= i < n && can_free(#[trigger] old(entries)@[i]),
        forall|i: int|
            0 <= i < n ==> released(#[trigger] old(entries)@[i]) == old(entries)@[i],
    ensures
        final(entries)@ == room_made(old(entries)@, n as int),
        exists|i: int| 0 <= i < n && (#[trigger] final(entries)@[i]).state == DpbState::Empty,
{
    let ghost before = entries@;
    let mut full: bool = slots_full(entries, n);
    while full
        invariant
            n <= MAX_DPB_SIZE,
            full == all_in_use(entries@, n as int),
            room_made(before, n as int) == room_made(entries@, n as int),
            exists|i: int|
                0 <= i < n && (entries@[i].state == DpbState::Empty || (
                #[trigger] entries@[i]).marking == MarkingState::Unused && entries@[i].output
                    && entries@[i].pic_order_cnt < i32::MAX),
        decreases count_true(pending_flags(entries@, n as int)),
    {
        proof {
            let w = choose|i: int|
                0 <= i < n && (entries@[i].state == DpbState::Empty || (
                #[trigger] entries@[i]).marking == MarkingState::Unused && entries@[i].output
                    && entries@[i].pic_order_cnt < i32::MAX);
            let keys = output_keys(entries@, n as int);
            assert(entries@[w].state == DpbState::InUse);
            assert(keys[w] is Some);
            lemma_first_least(keys, i32::MAX as int);
            lemma_bump_progress(entries@, n as int);
            let p = next_output(entries@, n as int)->0;
            let next = bumped(entries@, n as int);
            if p == w {
                assert(next[w].state == DpbState::Empty);
            } else {
                assert(next[w] == entries@[w]);
            }
        }
        bump(entries, n);
        full = slots_full(entries, n);
    }
    proof {
        let i = choose|i: int| 0 <= i < n && (#[trigger] entries@[i]).state != DpbState::InUse;
        assert(entries@[i].state == DpbState::Empty);
    }
}

/// Whether every slot holds a picture.
pub(crate) fn slots_full(entries: &[DpbEntry; MAX_DPB_SIZE], n: usize) -> (full: bool)
    requires
        n <= MAX_DPB_SIZE,
    ensures
        full == all_in_use(entries@, n as int),
{
    let ghost flags = in_use_flags(entries@, n as int);
    let mut count: usize = 0;
    let mut i: usize = 0;
    while i < n
        invariant
            i <= n <= MAX_DPB_SIZE,
            flags == in_use_flags(entries@, n as int),
            count == count_upto(flags, i as nat),
            count <= i,
        decreases n - i,
    {
        if entries[i].state == DpbState::InUse {
            count = count + 1;
        }
        i = i + 1;
    }
    proof {
        lemma_count_bound(flags, n as nat);
        if count == n {
            assert forall|i: int| 0 <= i < n implies (#[trigger] entries@[i]).state
                == DpbState::InUse by {
                assert(flags[i]);
            }
        } else if all_in_use(entries@, n as int) {
            assert forall|i: int| 0 <= i < n implies flags[i] by {
                assert(entries@[i].state == DpbState::InUse);
            }
        }
    }
    count >= n
}

/// Whether no slot holds a picture.
pub(crate) fn slots_empty(entries: &[DpbEntry; MAX_DPB_SIZE], n: usize) -> (empty: bool)
    requires
        n <= MAX_DPB_SIZE,
    ensures
        empty == none_in_use(entries@, n as int),
{
    let mut i: usize = 0;
    while i < n
        invariant
            i <= n <= MAX_DPB_SIZE,
            none_in_use(entries@, i as int),
        decreases n - i,
    {
        if entries[i].state == DpbState::InUse {
            return false;
        }
        i = i + 1;
    }
    true
}

/// Take away all markings and output every picture.
pub(crate) fn flush_slots(entries: &mut [DpbEntry; MAX_DPB_SIZE], n: usize)
    requires
        n <= MAX_DPB_SIZE,
        can_flush(old(entries)@, n as int),
    ensures
        final(entries)@ == change_first(old(entries)@, n as int, |e: DpbEntry| flushed(e)),
{
    let ghost before = entries@;
    // Mark all as unused.
    unmark_slots(entries, n);
    // Empty slots not needed for output.
    let mut i: usize = 0;
    while i < n
        invariant
            i <= n <= MAX_DPB_SIZE,
            before.len() == MAX_DPB_SIZE,
            forall|j: int|
                0 <= j < MAX_DPB_SIZE ==> #[trigger] entries@[j] == if j >= n {
                    before[j]
                } else if j < i && !waits_for_output(before[j]) {
                    flushed(before[j])
                } else {
                    before[j].unmarked()
                },
        decreases n - i,
    {
        let entry = entries[i];
        if entry.state == DpbState::InUse && !entry.output && entry.marking
            == MarkingState::Unused {
            entries[i].state = DpbState::Empty;
        }
        assert(entries@[i as int] == if waits_for_output(before[i as int]) {
            before[i as int].unmarked()
        } else {
            flushed(before[i as int])
        });
        i = i + 1;
    }
    // Bump until empty.
    let mut empty: bool = slots_empty(entries, n);
    while !empty
        invariant
            n <= MAX_DPB_SIZE,
            before.len() == MAX_DPB_SIZE,
            empty == none_in_use(entries@, n as int),
            can_flush(before, n as int),
            forall|j: int|
                n <= j < MAX_DPB_SIZE ==> #[trigger] entries@[j] == before[j],
            forall|j: int|
                0 <= j < n ==> #[trigger] entries@[j] == flushed(before[j]) || (waits_for_output(
                    before[j],
                ) && entries@[j] == before[j].unmarked()),
        decreases count_true(pending_flags(entries@, n as int)),
    {
        proof {
            let w = choose|w: int| 0 <= w < n && (#[trigger] entries@[w]).state == DpbState::InUse;
            let keys = output_keys(entries@, n as int);
            assert(waits_for_output(before[w]));
            assert(keys[w] is Some);
            lemma_first_least(keys, i32::MAX as int);
            lemma_bump_progress(entries@, n as int);
            let p = next_output(entries@, n as int)->0;
            assert(keys[p] is Some);
            assert(after_output(entries@[p]) == flushed(before[p]));
        }
        bump(entries, n);
        empty = slots_empty(entries, n);
    }
    assert(entries@ =~= change_first(before, n as int, |e: DpbEntry| flushed(e)));
}

/// First empty slot, or -1.
pub(crate) fn find_empty(entries: &[DpbEntry; MAX_DPB_SIZE], n: usize) -> (slot: i8)
    requires
        n <= MAX_DPB_SIZE,
    ensures
        slot as int == match first_true(empty_flags(entries@, n as int)) {
            Some(i) => i,
            None => -1,
        },
{
    let ghost flags = empty_flags(entries@, n as int);
    let mut i: usize = 0;
    while i < n
        invariant
            i <= n <= MAX_DPB_SIZE,
            flags == empty_flags(entries@, n as int),
            first_true(flags) == first_true_from(flags, i as int),
        decreases n - i,
    {
        if entries[i].state == DpbState::Empty {
            return i as i8;
        }
        i = i + 1;
    }
    -1
}


} // verus!
