//! Reference marking: which pictures stop being references.

use super::bumping::{long_term_slot_flags, released, short_term_flags};
use super::entry::{DpbEntry, DpbState, MarkingState};
use super::select::{count_true, count_upto, first_least, least_upto};
use super::MAX_DPB_SIZE;
use vstd::prelude::*;

verus! {

/// The unsigned number with the same 32 bits as `poc`.
pub open spec fn as_unsigned(poc: i32) -> int {
    if poc < 0 {
        poc + 0x1_0000_0000
    } else {
        poc as int
    }
}

pub(crate) proof fn lemma_as_unsigned(poc: i32)
    ensures
        (poc as u32) as int == as_unsigned(poc),
{
    assert((poc as u32) as i64 == (if poc < 0 {
        (poc as i64 + 0x1_0000_0000i64) as i64
    } else {
        poc as i64
    })) by (bit_vector);
}

/// POCs of the sound references with this marking, as unsigned numbers.
pub open spec fn sound_keys(slots: Seq<DpbEntry>, n: int, marking: MarkingState) -> Seq<
    Option<int>,
> {
    Seq::new(
        n as nat,
        |i: int|
            if slots[i].state == DpbState::InUse && slots[i].marking == marking
                && !slots[i].corrupted {
                Some(as_unsigned(slots[i].pic_order_cnt))
            } else {
                None
            },
    )
}

/// POCs of the corrupted pictures, as unsigned numbers.
pub open spec fn corrupted_keys(slots: Seq<DpbEntry>, n: int) -> Seq<Option<int>> {
    Seq::new(
        n as nat,
        |i: int|
            if slots[i].state == DpbState::InUse && slots[i].corrupted {
                Some(as_unsigned(slots[i].pic_order_cnt))
            } else {
                None
            },
    )
}

/// Which keys are there.
pub open spec fn some_flags(keys: Seq<Option<int>>) -> Seq<bool> {
    keys.map_values(|k: Option<int>| k is Some)
}

/// The oldest picture: the one with the smallest POC as an unsigned number.
pub open spec fn oldest(keys: Seq<Option<int>>) -> Option<int> {
    first_least(keys, u32::MAX as int)
}

/// POC of the oldest picture, the largest POC without one.
pub open spec fn oldest_poc(keys: Seq<Option<int>>) -> int {
    match oldest(keys) {
        Some(p) => keys[p]->0,
        None => u32::MAX as int,
    }
}

/// The picture that loses its marking when the DPB holds more references than
/// it may.
///
/// A corrupted picture goes first if it is older than every sound short-term
/// reference. Without long-term references in the sequence, the oldest
/// short-term reference goes next, or else the oldest long-term reference.
/// With them, the oldest long-term reference goes if more than half of the
/// references are long-term, and else the oldest short-term reference.
pub open spec fn surplus_reference(
    slots: Seq<DpbEntry>,
    n: int,
    long_term_refs_present: bool,
) -> Option<int> {
    let st = sound_keys(slots, n, MarkingState::ShortTerm);
    let lt = sound_keys(slots, n, MarkingState::LongTerm);
    let corrupted = corrupted_keys(slots, n);
    let num_st = count_true(some_flags(st));
    let num_lt = count_true(some_flags(lt));
    let num_corrupted = count_true(some_flags(corrupted));
    let total = num_st + num_lt + num_corrupted;
    if total <= n - 1 {
        None
    } else if num_corrupted > 0 && oldest_poc(corrupted) < oldest_poc(st) {
        oldest(corrupted)
    } else if long_term_refs_present {
        if num_lt > total / 2 {
            oldest(lt)
        } else if num_st > 0 {
            oldest(st)
        } else {
            None
        }
    } else if num_st > 0 {
        oldest(st)
    } else if num_lt > 0 {
        oldest(lt)
    } else {
        None
    }
}

/// The slots after the surplus reference lost its marking.
pub open spec fn surplus_unmarked(
    slots: Seq<DpbEntry>,
    n: int,
    long_term_refs_present: bool,
) -> Seq<DpbEntry> {
    match surplus_reference(slots, n, long_term_refs_present) {
        Some(i) => slots.update(i, slots[i].unmarked()),
        None => slots,
    }
}

/// The oldest of some pictures, and how many there are.
struct OldestSearch {
    count: usize,
    idx: Option<usize>,
    poc: u32,
}

impl OldestSearch {
    spec fn covers(self, keys: Seq<Option<int>>, n: nat) -> bool {
        &&& self.count == count_upto(some_flags(keys), n)
        &&& self.count <= n
        &&& match (self.idx, least_upto(keys, u32::MAX as int, n)) {
            (Some(p), Some(q)) => p == q && p < n && keys[q] == Some(self.poc as int),
            (None, None) => self.poc == u32::MAX,
            _ => false,
        }
    }

    fn new() -> (search: Self)
        ensures
            forall|keys: Seq<Option<int>>| search.covers(keys, 0),
    {
        OldestSearch { count: 0, idx: None, poc: u32::MAX }
    }

    fn step(
        &mut self,
        i: usize,
        candidate: bool,
        poc: i32,
        Ghost(keys): Ghost<Seq<Option<int>>>,
    )
        requires
            i < MAX_DPB_SIZE,
            i < keys.len(),
            old(self).covers(keys, i as nat),
            keys[i as int] == if candidate {
                Some(as_unsigned(poc))
            } else {
                None
            },
        ensures
            final(self).covers(keys, (i + 1) as nat),
    {
        proof {
            lemma_as_unsigned(poc);
        }
        if candidate {
            self.count = self.count + 1;
            if (poc as u32) < self.poc {
                self.poc = poc as u32;
                self.idx = Some(i);
            }
        }
    }
}

/// Take away the marking of the surplus reference.
pub(crate) fn unmark_surplus(
    entries: &mut [DpbEntry; MAX_DPB_SIZE],
    n: usize,
    long_term_refs_present: bool,
)
    requires
        1 <= n <= MAX_DPB_SIZE,
    ensures
        final(entries)@ == surplus_unmarked(old(entries)@, n as int, long_term_refs_present),
{
    let ghost st_keys = sound_keys(entries@, n as int, MarkingState::ShortTerm);
    let ghost lt_keys = sound_keys(entries@, n as int, MarkingState::LongTerm);
    let ghost bad_keys = corrupted_keys(entries@, n as int);
    let mut st = OldestSearch::new();
    let mut lt = OldestSearch::new();
    let mut corrupted = OldestSearch::new();
    let mut i: usize = 0;
    while i < n
        invariant
            i <= n <= MAX_DPB_SIZE,
            st_keys == sound_keys(entries@, n as int, MarkingState::ShortTerm),
            lt_keys == sound_keys(entries@, n as int, MarkingState::LongTerm),
            bad_keys == corrupted_keys(entries@, n as int),
            st.covers(st_keys, i as nat),
            lt.covers(lt_keys, i as nat),
            corrupted.covers(bad_keys, i as nat),
        decreases n - i,
    {
        let entry = entries[i];
        let in_use: bool = entry.state == DpbState::InUse;
        st.step(
            i,
            in_use && entry.marking == MarkingState::ShortTerm && !entry.corrupted,
            entry.pic_order_cnt,
            Ghost(st_keys),
        );
        lt.step(
            i,
            in_use && entry.marking == MarkingState::LongTerm && !entry.corrupted,
            entry.pic_order_cnt,
            Ghost(lt_keys),
        );
        corrupted.step(i, in_use && entry.corrupted, entry.pic_order_cnt, Ghost(bad_keys));
        i = i + 1;
    }
    let total: usize = st.count + lt.count + corrupted.count;
    if total > n - 1 {
        let victim: Option<usize> = if corrupted.count > 0 && corrupted.poc < st.poc {
            corrupted.idx
        } else if long_term_refs_present {
            if lt.count > total / 2 {
                lt.idx
            } else if st.count > 0 {
                st.idx
            } else {
                None
            }
        } else if st.count > 0 {
            st.idx
        } else if lt.count > 0 {
            lt.idx
        } else {
            None
        };
        if let Some(idx) = victim {
            entries[idx].mark_unused();
        }
    }
}

/// Slots that lose their marking because the current picture is of the same
/// temporal layer.
pub open spec fn layer_unmarked(slots: Seq<DpbEntry>, n: int, current: int) -> Seq<DpbEntry> {
    Seq::new(
        slots.len(),
        |i: int|
            if i < n && i != current && slots[i].state == DpbState::InUse && slots[i].marking
                != MarkingState::Unused && slots[i].temporal_id == slots[current].temporal_id {
                slots[i].unmarked()
            } else {
                slots[i]
            },
    )
}

/// POCs of the short-term references other than the current picture.
pub open spec fn other_short_term_keys(slots: Seq<DpbEntry>, n: int, current: int) -> Seq<
    Option<int>,
> {
    Seq::new(
        n as nat,
        |i: int|
            if slots[i].short_term() && i != current {
                Some(slots[i].pic_order_cnt as int)
            } else {
                None
            },
    )
}

/// The slots after the sliding window dropped the oldest short-term reference,
/// if there are more references than leave a slot for the current picture.
pub open spec fn window_slid(slots: Seq<DpbEntry>, n: int, current: int) -> Seq<DpbEntry> {
    let num_st = count_true(short_term_flags(slots, n));
    let num_lt = count_true(long_term_slot_flags(slots, n));
    let victim = first_least(other_short_term_keys(slots, n, current), i32::MAX as int);
    if num_st + num_lt > n - 1 && num_st > 0 && victim is Some {
        let i = victim->0;
        slots.update(i, released(slots[i].unmarked()))
    } else {
        slots
    }
}

/// Take away the marking of the other references of the current picture's layer.
pub(crate) fn unmark_layer(entries: &mut [DpbEntry; MAX_DPB_SIZE], n: usize, current: usize)
    requires
        current < n <= MAX_DPB_SIZE,
    ensures
        final(entries)@ == layer_unmarked(old(entries)@, n as int, current as int),
{
    let ghost before = entries@;
    let ghost target = layer_unmarked(before, n as int, current as int);
    let temporal_id: i32 = entries[current].temporal_id;
    let mut i: usize = 0;
    while i < n
        invariant
            i <= n <= MAX_DPB_SIZE,
            current < n,
            before.len() == MAX_DPB_SIZE,
            temporal_id == before[current as int].temporal_id,
            target == layer_unmarked(before, n as int, current as int),
            forall|j: int|
                0 <= j < MAX_DPB_SIZE ==> #[trigger] entries@[j] == if j < i {
                    target[j]
                } else {
                    before[j]
                },
        decreases n - i,
    {
        let entry = entries[i];
        if entry.state == DpbState::InUse && entry.marking != MarkingState::Unused
            && entry.temporal_id == temporal_id && i != current {
            entries[i].mark_unused();
        }
        i = i + 1;
    }
    assert(entries@ =~= target);
}

/// Number of short-term references.
pub(crate) fn count_short_term(entries: &[DpbEntry; MAX_DPB_SIZE], n: usize) -> (count: u32)
    requires
        n <= MAX_DPB_SIZE,
    ensures
        count == count_true(short_term_flags(entries@, n as int)),
        count <= n,
{
    let ghost flags = short_term_flags(entries@, n as int);
    let mut count: u32 = 0;
    let mut i: usize = 0;
    while i < n
        invariant
            i <= n <= MAX_DPB_SIZE,
            flags == short_term_flags(entries@, n as int),
            count == count_upto(flags, i as nat),
            count <= i,
        decreases n - i,
    {
        if entries[i].is_short_term_reference() {
            count = count + 1;
        }
        i = i + 1;
    }
    count
}

/// Number of long-term references.
pub(crate) fn count_long_term(entries: &[DpbEntry; MAX_DPB_SIZE], n: usize) -> (count: u32)
    requires
        n <= MAX_DPB_SIZE,
    ensures
        count == count_true(long_term_slot_flags(entries@, n as int)),
        count <= n,
{
    let ghost flags = long_term_slot_flags(entries@, n as int);
    let mut count: u32 = 0;
    let mut i: usize = 0;
    while i < n
        invariant
            i <= n <= MAX_DPB_SIZE,
            flags == long_term_slot_flags(entries@, n as int),
            count == count_upto(flags, i as nat),
            count <= i,
        decreases n - i,
    {
        if entries[i].is_long_term_reference() {
            count = count + 1;
        }
        i = i + 1;
    }
    count
}

/// Drop the oldest short-term reference if there are too many references.
pub(crate) fn slide_window(entries: &mut [DpbEntry; MAX_DPB_SIZE], n: usize, current: usize)
    requires
        current < n <= MAX_DPB_SIZE,
    ensures
        final(entries)@ == window_slid(old(entries)@, n as int, current as int),
{
    let num_short_term: u32 = count_short_term(entries, n);
    let num_long_term: u32 = count_long_term(entries, n);
    // Reserve one slot for current.
    let max_refs: u32 = n as u32 - 1;
    if num_short_term + num_long_term > max_refs && num_short_term > 0 {
        // Find short-term ref with lowest POC (oldest in display order).
        let ghost keys = other_short_term_keys(entries@, n as int, current as int);
        let mut oldest_idx: Option<usize> = None;
        let mut lowest_poc: i32 = i32::MAX;
        let mut i: usize = 0;
        while i < n
            invariant
                i <= n <= MAX_DPB_SIZE,
                keys == other_short_term_keys(entries@, n as int, current as int),
                match (oldest_idx, least_upto(keys, i32::MAX as int, i as nat)) {
                    (Some(p), Some(q)) => p == q && p < i && keys[q] == Some(lowest_poc as int),
                    (None, None) => lowest_poc == i32::MAX,
                    _ => false,
                },
            decreases n - i,
        {
            let e = entries[i];
            if e.is_short_term_reference() && i != current && e.pic_order_cnt < lowest_poc {
                lowest_poc = e.pic_order_cnt;
                oldest_idx = Some(i);
            }
            i = i + 1;
        }
        if let Some(idx) = oldest_idx {
            entries[idx].mark_unused();
            if !entries[idx].output {
                entries[idx].state = DpbState::Empty;
            }
        }
    }
}

} // verus!
