//! H.265 reference picture sets: coding them, and finding their pictures.

use super::entry::{DpbEntry, DpbState, MarkingState};
use super::marking::{as_unsigned, lemma_as_unsigned};
use super::reference_lists::{as_signed, lemma_as_signed};
use super::select::{
    first_true, first_true_from, lemma_present_from, lemma_present_len, lemma_sort_orders,
    lemma_sort_permutes, present, present_upto, sort_ranked, unranked,
};
use super::types::{slots_padded, ShortTermRefPicSet};
use super::{MAX_DPB_SIZE, MAX_REF_LIST_SIZE};
use vstd::prelude::*;

verus! {

/// Sum of the first `k` distances of a reference picture set.
pub open spec fn distance(minus1: Seq<u8>, k: nat) -> int
    decreases k,
{
    if k == 0 {
        0
    } else {
        distance(minus1, (k - 1) as nat) + minus1[k - 1] + 1
    }
}

/// POC of reference `i` of one side of a reference picture set.
pub open spec fn rps_poc(current_poc: i32, minus1: Seq<u8>, after: bool, i: int) -> int {
    if after {
        current_poc + distance(minus1, (i + 1) as nat)
    } else {
        current_poc - distance(minus1, (i + 1) as nat)
    }
}

/// Bit `i` of the flags of a short-term reference picture set.
pub open spec fn used_bit(flags: u16, i: int) -> bool {
    (flags >> (i as u16)) & 1u16 != 0
}

/// POCs of the references of one side that the current picture uses.
pub open spec fn used_pocs(
    current_poc: i32,
    minus1: Seq<u8>,
    after: bool,
    flags: u16,
    num: nat,
) -> Seq<i32> {
    present(
        Seq::new(
            num,
            |i: int|
                if used_bit(flags, i) {
                    Some(rps_poc(current_poc, minus1, after, i) as i32)
                } else {
                    None
                },
        ),
    )
}

/// POC LSBs of the long-term references that the current picture uses.
pub open spec fn used_lsbs(lsbs: Seq<u32>, flags: u32, num: nat) -> Seq<i32> {
    present(
        Seq::new(
            num,
            |i: int|
                if (flags >> (i as u32)) & 1u32 != 0 {
                    Some(as_signed(lsbs[i]) as i32)
                } else {
                    None
                },
        ),
    )
}

/// Slot of the short-term reference with this POC, or -1.
pub open spec fn short_term_slot(slots: Seq<DpbEntry>, n: int, poc: i32) -> i8 {
    match first_true(
        Seq::new(n as nat, |d: int| slots[d].short_term() && slots[d].pic_order_cnt == poc),
    ) {
        Some(d) => d as i8,
        None => -1i8,
    }
}

/// Slot of the reference with this POC LSB, or -1.
pub open spec fn long_term_slot(slots: Seq<DpbEntry>, n: int, max_poc_lsb: i32, lsb: i32) -> i8 {
    match first_true(
        Seq::new(
            n as nat,
            |d: int|
                slots[d].state == DpbState::InUse && slots[d].marking != MarkingState::Unused && (
                slots[d].pic_order_cnt & (max_poc_lsb - 1) as i32) == lsb,
        ),
    ) {
        Some(d) => d as i8,
        None => -1i8,
    }
}

/// Slots of short-term references by POC.
pub open spec fn short_term_slots(slots: Seq<DpbEntry>, n: int, pocs: Seq<i32>) -> Seq<i8> {
    pocs.map_values(|poc: i32| short_term_slot(slots, n, poc))
}

/// Slots of references by POC LSB.
pub open spec fn long_term_slots(
    slots: Seq<DpbEntry>,
    n: int,
    max_poc_lsb: i32,
    lsbs: Seq<i32>,
) -> Seq<i8> {
    lsbs.map_values(|lsb: i32| long_term_slot(slots, n, max_poc_lsb, lsb))
}

/// The slots after every picture that is in none of the three lists lost its
/// marking.
pub open spec fn unlisted_unmarked(
    slots: Seq<DpbEntry>,
    n: int,
    before: Seq<i8>,
    after: Seq<i8>,
    lt: Seq<i8>,
) -> Seq<DpbEntry> {
    Seq::new(
        slots.len(),
        |i: int|
            if i < n && slots[i].marking != MarkingState::Unused && !before.contains(i as i8)
                && !after.contains(i as i8) && !lt.contains(i as i8) {
                slots[i].unmarked()
            } else {
                slots[i]
            },
    )
}

/// POCs of one side of a reference picture set that the current picture uses.
pub(crate) fn collect_used_pocs(
    current_poc: i32,
    minus1: &[u8; MAX_DPB_SIZE],
    after: bool,
    flags: u16,
    num: usize,
) -> (pocs: Vec<i32>)
    requires
        num <= MAX_DPB_SIZE,
        forall|i: int|
            0 <= i < num ==> i32::MIN <= #[trigger] rps_poc(current_poc, minus1@, after, i)
                <= i32::MAX,
    ensures
        pocs@ == used_pocs(current_poc, minus1@, after, flags, num as nat),
        pocs@.len() <= num,
{
    let ghost items = Seq::new(
        num as nat,
        |i: int|
            if used_bit(flags, i) {
                Some(rps_poc(current_poc, minus1@, after, i) as i32)
            } else {
                None
            },
    );
    let mut pocs: Vec<i32> = Vec::new();
    let mut dist: i32 = 0;
    let mut i: usize = 0;
    while i < num
        invariant
            i <= num <= MAX_DPB_SIZE,
            dist == distance(minus1@, i as nat),
            0 <= dist <= 256 * i,
            items == Seq::new(
                num as nat,
                |i: int|
                    if used_bit(flags, i) {
                        Some(rps_poc(current_poc, minus1@, after, i) as i32)
                    } else {
                        None
                    },
            ),
            pocs@ == present_upto(items, i as nat),
            forall|i: int|
                0 <= i < num ==> i32::MIN <= #[trigger] rps_poc(current_poc, minus1@, after, i)
                    <= i32::MAX,
        decreases num - i,
    {
        dist = dist + minus1[i] as i32 + 1;
        assert(i32::MIN <= rps_poc(current_poc, minus1@, after, i as int) <= i32::MAX);
        let poc: i32 = if after {
            current_poc + dist
        } else {
            current_poc - dist
        };
        if (flags >> i) & 1 != 0 {
            pocs.push(poc);
        }
        i = i + 1;
    }
    proof {
        lemma_present_len(items, num as nat);
    }
    pocs
}

/// POC LSBs of the long-term references that the current picture uses.
pub(crate) fn collect_used_lsbs(lsbs: &[u32], flags: u32, num: usize) -> (used: Vec<i32>)
    requires
        num <= lsbs@.len(),
        num <= 32,
    ensures
        used@ == used_lsbs(lsbs@, flags, num as nat),
        used@.len() <= num,
{
    let ghost items = Seq::new(
        num as nat,
        |i: int|
            if (flags >> (i as u32)) & 1u32 != 0 {
                Some(as_signed(lsbs@[i]) as i32)
            } else {
                None
            },
    );
    let mut used: Vec<i32> = Vec::new();
    let mut i: usize = 0;
    while i < num
        invariant
            i <= num <= 32,
            num <= lsbs@.len(),
            items == Seq::new(
                num as nat,
                |i: int|
                    if (flags >> (i as u32)) & 1u32 != 0 {
                        Some(as_signed(lsbs@[i]) as i32)
                    } else {
                        None
                    },
            ),
            used@ == present_upto(items, i as nat),
        decreases num - i,
    {
        proof {
            lemma_as_signed(lsbs@[i as int]);
        }
        if (flags >> i) & 1 != 0 {
            used.push(lsbs[i] as i32);
        }
        i = i + 1;
    }
    proof {
        lemma_present_len(items, num as nat);
    }
    used
}

/// Slot of the short-term reference with this POC, or -1.
pub(crate) fn find_short_term(entries: &[DpbEntry; MAX_DPB_SIZE], n: usize, poc: i32) -> (slot: i8)
    requires
        n <= MAX_DPB_SIZE,
    ensures
        slot == short_term_slot(entries@, n as int, poc),
        -1 <= slot < n,
{
    let ghost flags = Seq::new(
        n as nat,
        |d: int| entries@[d].short_term() && entries@[d].pic_order_cnt == poc,
    );
    let mut d: usize = 0;
    while d < n
        invariant
            d <= n <= MAX_DPB_SIZE,
            flags == Seq::new(
                n as nat,
                |d: int| entries@[d].short_term() && entries@[d].pic_order_cnt == poc,
            ),
            first_true(flags) == first_true_from(flags, d as int),
        decreases n - d,
    {
        if entries[d].is_short_term_reference() && entries[d].pic_order_cnt == poc {
            return d as i8;
        }
        d = d + 1;
    }
    -1
}

/// Slot of the reference with this POC LSB, or -1.
pub(crate) fn find_by_lsb(
    entries: &[DpbEntry; MAX_DPB_SIZE],
    n: usize,
    max_poc_lsb: i32,
    lsb: i32,
) -> (slot: i8)
    requires
        n <= MAX_DPB_SIZE,
        max_poc_lsb >= 1,
    ensures
        slot == long_term_slot(entries@, n as int, max_poc_lsb, lsb),
        -1 <= slot < n,
{
    let mask: i32 = max_poc_lsb - 1;
    let ghost flags = Seq::new(
        n as nat,
        |d: int|
            entries@[d].state == DpbState::InUse && entries@[d].marking != MarkingState::Unused && (
            entries@[d].pic_order_cnt & (max_poc_lsb - 1) as i32) == lsb,
    );
    let mut d: usize = 0;
    while d < n
        invariant
            d <= n <= MAX_DPB_SIZE,
            mask == max_poc_lsb - 1,
            flags == Seq::new(
                n as nat,
                |d: int|
                    entries@[d].state == DpbState::InUse && entries@[d].marking
                        != MarkingState::Unused && (entries@[d].pic_order_cnt & (max_poc_lsb
                        - 1) as i32) == lsb,
            ),
            first_true(flags) == first_true_from(flags, d as int),
        decreases n - d,
    {
        let entry = entries[d];
        if entry.state == DpbState::InUse && entry.marking != MarkingState::Unused && (
        entry.pic_order_cnt & mask) == lsb {
            return d as i8;
        }
        d = d + 1;
    }
    -1
}

/// Note the slots that a list names.
pub(crate) fn note_slots(in_use: &mut [bool; MAX_DPB_SIZE], list: &Vec<i8>)
    requires
        forall|k: int| 0 <= k < list@.len() ==> -1 <= #[trigger] list@[k] < MAX_DPB_SIZE,
    ensures
        forall|d: int|
            0 <= d < MAX_DPB_SIZE ==> #[trigger] final(in_use)@[d] == (old(in_use)@[d]
                || list@.contains(d as i8)),
{
    let ghost before = in_use@;
    let mut i: usize = 0;
    while i < list.len()
        invariant
            i <= list@.len(),
            forall|k: int| 0 <= k < list@.len() ==> -1 <= #[trigger] list@[k] < MAX_DPB_SIZE,
            forall|d: int|
                0 <= d < MAX_DPB_SIZE ==> #[trigger] in_use@[d] == (before[d] || list@.take(
                    i as int,
                ).contains(d as i8)),
        decreases list@.len() - i,
    {
        let ghost so_far = list@.take(i as int);
        let ghost next = list@.take(i + 1);
        assert(next =~= so_far.push(list@[i as int]));
        proof {
            assert forall|x: i8| #[trigger] next.contains(x) == (so_far.contains(x)
                || list@[i as int] == x) by {
                if so_far.contains(x) {
                    let k = choose|k: int| 0 <= k < so_far.len() && so_far[k] == x;
                    assert(next[k] == x);
                }
                if list@[i as int] == x {
                    assert(next[i as int] == x);
                }
            }
        }
        if list[i] >= 0 {
            in_use[list[i] as usize] = true;
        }
        i = i + 1;
    }
    assert(list@.take(i as int) =~= list@);
}

/// Write slots into a list that holds none yet.
pub(crate) fn store_slots(out: &mut [i8; MAX_REF_LIST_SIZE], slots: &Vec<i8>)
    requires
        slots@.len() <= MAX_REF_LIST_SIZE,
        old(out)@ == slots_padded(Seq::empty()),
    ensures
        final(out)@ == slots_padded(slots@),
{
    let mut i: usize = 0;
    while i < slots.len()
        invariant
            i <= slots@.len() <= MAX_REF_LIST_SIZE,
            out@ =~= slots_padded(slots@.take(i as int)),
        decreases slots@.len() - i,
    {
        out[i] = slots[i];
        i = i + 1;
    }
    assert(slots@.take(i as int) =~= slots@);
}


/// A sound short-term reference that a picture of this temporal layer may use.
pub open spec fn rps_eligible(e: DpbEntry, temporal_id: i32) -> bool {
    e.short_term() && !e.corrupted && e.temporal_id <= temporal_id
}

/// POC distances of the references before the current picture, ranked by
/// descending POC.
pub open spec fn negative_refs(
    slots: Seq<DpbEntry>,
    n: int,
    current_poc: i32,
    temporal_id: i32,
) -> Seq<Option<(i64, i32)>> {
    Seq::new(
        n as nat,
        |i: int|
            if rps_eligible(slots[i], temporal_id) && slots[i].pic_order_cnt < current_poc {
                Some(
                    (
                        (-slots[i].pic_order_cnt) as i64,
                        (slots[i].pic_order_cnt - current_poc) as i32,
                    ),
                )
            } else {
                None
            },
    )
}

/// POC distances of the references after the current picture, ranked by
/// ascending POC.
pub open spec fn positive_refs(
    slots: Seq<DpbEntry>,
    n: int,
    current_poc: i32,
    temporal_id: i32,
    multiple_refs: bool,
) -> Seq<Option<(i64, i32)>> {
    Seq::new(
        n as nat,
        |i: int|
            if multiple_refs && rps_eligible(slots[i], temporal_id) && slots[i].pic_order_cnt
                > current_poc {
                Some(
                    (
                        slots[i].pic_order_cnt as i64,
                        (slots[i].pic_order_cnt - current_poc) as i32,
                    ),
                )
            } else {
                None
            },
    )
}

/// Distances in order of rank.
pub open spec fn nearest_first(items: Seq<Option<(i64, i32)>>) -> Seq<i32> {
    unranked(sort_ranked(present(items)))
}

/// Number of references beyond those that leave a slot for the current picture.
pub open spec fn rps_surplus(n: int, refs: nat) -> nat {
    if n >= 1 && refs > n - 1 {
        (refs - (n - 1)) as nat
    } else {
        0
    }
}

/// References before the current picture that go into the set: the surplus is
/// taken from the far end.
pub open spec fn kept_negative(n: int, neg: Seq<i32>, pos: Seq<i32>) -> Seq<i32> {
    let surplus = rps_surplus(n, neg.len() + pos.len());
    if surplus <= neg.len() {
        neg.take(neg.len() - surplus)
    } else {
        Seq::empty()
    }
}

/// References after the current picture that go into the set: they make up
/// for the surplus that the references before it do not.
pub open spec fn kept_positive(n: int, neg: Seq<i32>, pos: Seq<i32>) -> Seq<i32> {
    let surplus = rps_surplus(n, neg.len() + pos.len());
    if surplus <= neg.len() {
        pos
    } else {
        pos.take(pos.len() - (surplus - neg.len()))
    }
}

/// The low eight bits of `x`.
pub open spec fn low_byte(x: int) -> u8 {
    (x % 256) as u8
}

/// Distances between successive references before the current picture, minus 1.
pub open spec fn coded_negative(deltas: Seq<i32>) -> Seq<u8> {
    Seq::new(
        MAX_DPB_SIZE as nat,
        |i: int|
            if i < deltas.len() {
                let prev = if i == 0 {
                    0int
                } else {
                    deltas[i - 1] as int
                };
                low_byte(prev - deltas[i] - 1)
            } else {
                0u8
            },
    )
}

/// Distances between successive references after the current picture, minus 1.
pub open spec fn coded_positive(deltas: Seq<i32>) -> Seq<u8> {
    Seq::new(
        MAX_DPB_SIZE as nat,
        |i: int|
            if i < deltas.len() {
                let prev = if i == 0 {
                    0int
                } else {
                    deltas[i - 1] as int
                };
                low_byte(deltas[i] - prev - 1)
            } else {
                0u8
            },
    )
}

/// The number whose `k` lowest bits are set.
pub open spec fn low_ones(k: int) -> u16 {
    ((1u32 << (k as u32)) - 1) as u16
}

/// Flags of `len` references of which `num_ref` are active.
pub open spec fn active_flags(len: nat, num_ref: u32) -> u16 {
    if num_ref < len {
        low_ones(num_ref as int)
    } else {
        low_ones(len as int)
    }
}

/// The set holds references at these POC distances.
pub open spec fn codes(
    rps: ShortTermRefPicSet,
    neg: Seq<i32>,
    pos: Seq<i32>,
    num_ref_l0: u32,
    num_ref_l1: u32,
) -> bool {
    &&& rps.num_negative_pics == neg.len()
    &&& rps.num_positive_pics == pos.len()
    &&& rps.delta_poc_s0_minus1@ =~= coded_negative(neg)
    &&& rps.delta_poc_s1_minus1@ =~= coded_positive(pos)
    &&& rps.used_by_curr_pic_s0_flag == active_flags(neg.len(), num_ref_l0)
    &&& rps.used_by_curr_pic_s1_flag == active_flags(pos.len(), num_ref_l1)
}

pub(crate) proof fn lemma_low_byte(x: i32)
    ensures
        (x as u8) == low_byte(x as int),
{
    lemma_as_unsigned(x);
    let u = x as u32;
    assert(x as u8 == (x as u32) as u8) by (bit_vector);
    assert(u as u8 == u % 256) by (bit_vector);
    assert(as_unsigned(x) % 256 == x as int % 256);
}

pub(crate) proof fn lemma_set_low_bit(i: u16)
    requires
        i < 16,
    ensures
        low_ones(i as int) | (1u16 << i) == low_ones(i + 1),
{
    let k = i as u32;
    assert(k < 16 ==> ((((1u32 << k) - 1) as u16) | (1u16 << k)) == (((1u32 << ((k + 1) as u32))
        - 1) as u16)) by (bit_vector);
    assert(1u16 << i == 1u16 << k);
}

/// Bit `i` of `low_ones(k)` is set exactly when `i` is below `k`.
pub proof fn lemma_low_ones_bits(k: int, i: int)
    requires
        0 <= k <= 16,
        0 <= i < 16,
    ensures
        used_bit(low_ones(k), i) <==> i < k,
{
    let kk = k as u32;
    let ii = i as u16;
    assert(kk <= 16 && ii < 16 ==> ((((((1u32 << kk) - 1) as u16) >> ii) & 1u16 != 0) == ((
    ii as u32) < kk))) by (bit_vector);
}

/// Write one side of a reference picture set.
pub(crate) fn code_side(
    deltas: &Vec<(i64, i32)>,
    len: usize,
    num_ref: u32,
    after: bool,
    out: &mut [u8; MAX_DPB_SIZE],
) -> (flags: u16)
    requires
        len <= deltas@.len(),
        len <= MAX_DPB_SIZE,
        old(out)@ == Seq::new(MAX_DPB_SIZE as nat, |i: int| 0u8),
        forall|i: int|
            0 <= i < len ==> if after {
                (#[trigger] deltas@[i]).1 > 0
            } else {
                deltas@[i].1 < 0
            },
        forall|i: int, j: int|
            0 <= i < j < len ==> if after {
                (#[trigger] deltas@[i]).1 <= (#[trigger] deltas@[j]).1
            } else {
                deltas@[i].1 >= deltas@[j].1
            },
        len > 0 ==> deltas@[0].1 > i32::MIN,
    ensures
        flags == active_flags(len as nat, num_ref),
        final(out)@ == if after {
            coded_positive(unranked(deltas@).take(len as int))
        } else {
            coded_negative(unranked(deltas@).take(len as int))
        },
{
    let ghost ds = unranked(deltas@).take(len as int);
    let mut flags: u16 = 0;
    let mut prev: i32 = 0;
    let mut i: usize = 0;
    proof {
        assert(1u32 << 0u32 == 1) by (bit_vector);
    }
    while i < len
        invariant
            i <= len <= MAX_DPB_SIZE,
            len <= deltas@.len(),
            ds == unranked(deltas@).take(len as int),
            prev == (if i == 0 {
                0i32
            } else {
                ds[i - 1]
            }),
            flags == active_flags(i as nat, num_ref),
            forall|i: int|
                0 <= i < len ==> if after {
                    (#[trigger] deltas@[i]).1 > 0
                } else {
                    deltas@[i].1 < 0
                },
            forall|i: int, j: int|
                0 <= i < j < len ==> if after {
                    (#[trigger] deltas@[i]).1 <= (#[trigger] deltas@[j]).1
                } else {
                    deltas@[i].1 >= deltas@[j].1
                },
            len > 0 ==> deltas@[0].1 > i32::MIN,
            forall|k: int|
                0 <= k < MAX_DPB_SIZE ==> #[trigger] out@[k] == if k >= i {
                    0u8
                } else if after {
                    coded_positive(ds)[k]
                } else {
                    coded_negative(ds)[k]
                },
        decreases len - i,
    {
        let delta: i32 = deltas[i].1;
        assert(ds[i as int] == delta);
        if i > 0 {
            assert(ds[i - 1] == deltas@[i - 1].1);
        }
        let gap: i32 = if after {
            delta - prev - 1
        } else {
            prev - delta - 1
        };
        proof {
            lemma_low_byte(gap);
        }
        out[i] = gap as u8;
        if i < num_ref as usize {
            proof {
                lemma_set_low_bit(i as u16);
            }
            flags = flags | (1u16 << i);
        }
        prev = delta;
        i = i + 1;
    }
    flags
}

/// References before (or after) the current picture come out nearest first.
pub(crate) proof fn lemma_ranks_match_deltas(items: Seq<Option<(i64, i32)>>, current_poc: i32, negative: bool)
    requires
        forall|i: int|
            0 <= i < items.len() && (#[trigger] items[i]) is Some ==> ({
                let x = items[i]->0;
                &&& x.0 == if negative {
                    -(x.1 + current_poc)
                } else {
                    x.1 + current_poc
                }
                &&& if negative {
                    x.1 < 0
                } else {
                    x.1 > 0
                }
            }),
    ensures
        ({
            let s = sort_ranked(present(items));
            &&& forall|k: int|
                0 <= k < s.len() ==> if negative {
                    (#[trigger] s[k]).1 < 0
                } else {
                    s[k].1 > 0
                }
            &&& forall|i: int, j: int|
                0 <= i < j < s.len() ==> if negative {
                    (#[trigger] s[i]).1 >= (#[trigger] s[j]).1
                } else {
                    s[i].1 <= s[j].1
                }
        }),
{
    broadcast use vstd::seq_lib::group_to_multiset_ensures;

    let p = present(items);
    let s = sort_ranked(p);
    lemma_sort_permutes(p);
    lemma_sort_orders(p);
    assert forall|k: int| 0 <= k < s.len() implies ({
        let x = #[trigger] s[k];
        &&& x.0 == if negative {
            -(x.1 + current_poc)
        } else {
            x.1 + current_poc
        }
        &&& if negative {
            x.1 < 0
        } else {
            x.1 > 0
        }
    }) by {
        assert(s.contains(s[k]));
        assert(s.to_multiset().contains(s[k]));
        assert(p.contains(s[k]));
        let j = choose|j: int| 0 <= j < p.len() && p[j] == s[k];
        lemma_present_from(items, items.len(), j);
    }
}

} // verus!
