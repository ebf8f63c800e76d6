//! What holds of the H.265 DPB from one operation to the next.

use super::bumping::{
    all_in_use, bumped, can_free, change_first, lemma_bump_progress, long_term_slot_flags,
    next_output, output_keys, pending_flags, released, room_made, short_term_flags,
};
use super::entry::{DpbEntry, DpbState, MarkingState};
use super::h265::{
    after_picture_end, after_picture_start, can_start, chosen_slot, prepared, DpbModel,
};
use super::marking::{layer_unmarked, other_short_term_keys, window_slid};
use super::rps::{
    active_flags, coded_negative, coded_positive, codes, distance, lemma_low_ones_bits, rps_poc,
    used_bit, used_pocs,
};
use super::select::{
    count_true, count_upto, lemma_count_bound, lemma_count_change, lemma_count_fewer,
    lemma_first_least, lemma_first_true, present_upto,
};
use super::types::{PictureStartInfo, ShortTermRefPicSet};
use super::{PictureType, MAX_DPB_SIZE};
use vstd::prelude::*;

verus! {

/// The slot holds a reference.
pub open spec fn is_reference(e: DpbEntry) -> bool {
    e.short_term() || e.long_term()
}

/// Bumping leaves references where they are; at most it outputs them.
pub proof fn law_room_keeps_references(slots: Seq<DpbEntry>, n: int)
    requires
        0 <= n <= slots.len(),
    ensures
        room_made(slots, n).len() == slots.len(),
        forall|i: int|
            0 <= i < n && is_reference(#[trigger] slots[i]) ==> room_made(slots, n)[i] == (DpbEntry {
                output: room_made(slots, n)[i].output,
                ..slots[i]
            }),
    decreases count_true(pending_flags(slots, n)),
{
    if all_in_use(slots, n) && next_output(slots, n) is Some {
        lemma_bump_progress(slots, n);
        lemma_first_least(output_keys(slots, n), i32::MAX as int);
        let next = bumped(slots, n);
        law_room_keeps_references(next, n);
        assert forall|i: int| 0 <= i < n && is_reference(#[trigger] slots[i]) implies room_made(
            slots,
            n,
        )[i] == (DpbEntry { output: room_made(slots, n)[i].output, ..slots[i] }) by {
            assert(is_reference(next[i]));
        }
    }
}

/// Starting a picture that is not an IDR picture keeps every reference: its
/// slot stays in use with the same picture, and is not given to the new one.
pub proof fn law_start_keeps_references(m: DpbModel, info: PictureStartInfo, next: DpbModel)
    requires
        m.well_formed(),
        info.pic_type != PictureType::Idr,
        can_start(m, info),
        after_picture_start(m, info, next),
    ensures
        forall|i: int|
            0 <= i < m.size && is_reference(#[trigger] m.slots[i]) ==> i != next.current
                && next.slots[i] == (DpbEntry { output: next.slots[i].output, ..m.slots[i] }),
{
    let cleaned = change_first(m.slots, m.size, |e: DpbEntry| released(e));
    law_room_keeps_references(cleaned, m.size);
    let ready = prepared(m, info);
    lemma_first_true(super::bumping::empty_flags(ready, m.size));
    assert forall|i: int| 0 <= i < m.size && is_reference(#[trigger] m.slots[i]) implies i
        != next.current && next.slots[i] == (DpbEntry {
        output: next.slots[i].output,
        ..m.slots[i]
    }) by {
        assert(cleaned[i] == m.slots[i]);
        assert(is_reference(cleaned[i]));
        assert(ready[i].state == DpbState::InUse);
        let slot = chosen_slot(ready, m.size);
        if slot >= 0 {
            assert(super::bumping::empty_flags(ready, m.size)[slot]);
        }
    }
}

/// Starting an IDR picture takes every reference away.
pub proof fn law_idr_start_drops_references(m: DpbModel, info: PictureStartInfo, next: DpbModel)
    requires
        m.well_formed(),
        info.pic_type == PictureType::Idr,
        can_start(m, info),
        after_picture_start(m, info, next),
    ensures
        next.short_term_refs() == 0,
        next.long_term_refs() == 0,
{
    let ready = prepared(m, info);
    lemma_first_true(super::bumping::empty_flags(ready, m.size));
    let st = short_term_flags(next.slots, next.size);
    let lt = long_term_slot_flags(next.slots, next.size);
    assert forall|i: int| 0 <= i < next.size implies !st[i] && !lt[i] by {
        assert(ready[i].marking == MarkingState::Unused);
        assert(next.slots[i].marking == MarkingState::Unused);
    }
    lemma_count_bound(st, next.size as nat);
    lemma_count_bound(lt, next.size as nat);
}

/// While references leave a slot for the next picture, they still do after a
/// reference picture was added: the sliding window drops the oldest short-term
/// reference if need be. It has one to drop unless long-term references take
/// all other slots.
pub proof fn law_window_leaves_a_slot(m: DpbModel)
    requires
        m.well_formed(),
        m.current >= 0,
        m.slots[m.current].state == DpbState::InUse,
        m.slots[m.current].marking == MarkingState::Unused,
        m.short_term_refs() + m.long_term_refs() <= m.size - 1,
        m.long_term_refs() <= m.size - 2,
        forall|i: int|
            0 <= i < m.size && (#[trigger] m.slots[i]).short_term() ==> m.slots[i].pic_order_cnt
                < i32::MAX,
    ensures
        ({
            let next = after_picture_end(m, true);
            next.short_term_refs() + next.long_term_refs() <= m.size - 1
        }),
{
    let n = m.size;
    let nn = n as nat;
    let cur = m.current;
    let layered = if m.layers > 1 {
        layer_unmarked(m.slots, n, cur)
    } else {
        m.slots
    };
    let marked = layered.update(
        cur,
        DpbEntry { marking: MarkingState::ShortTerm, ..layered[cur] },
    );
    let st0 = short_term_flags(m.slots, n);
    let lt0 = long_term_slot_flags(m.slots, n);
    let st1 = short_term_flags(layered, n);
    let lt1 = long_term_slot_flags(layered, n);
    let st2 = short_term_flags(marked, n);
    let lt2 = long_term_slot_flags(marked, n);
    lemma_count_fewer(st0, st1, nn);
    lemma_count_fewer(lt0, lt1, nn);
    lemma_count_change(st1, st2, cur, nn);
    lemma_count_change(lt1, lt2, cur, nn);
    let keys = other_short_term_keys(marked, n, cur);
    lemma_first_least(keys, i32::MAX as int);
    if count_true(st2) + count_true(lt2) > n - 1 {
        // Another short-term reference stands beside the current picture.
        let others = Seq::new(nn, |i: int| st2[i] && i != cur);
        lemma_count_change(st2, others, cur, nn);
        lemma_count_bound(others, nn);
        let w = choose|w: int| 0 <= w < n && others[w];
        assert(keys[w] is Some);
        assert(layered[w] == m.slots[w]);
        let victim = super::select::first_least(keys, i32::MAX as int);
        assert(victim is Some);
        let v = victim->0;
        assert(keys[v] is Some);
        let slid = window_slid(marked, n, cur);
        let st3 = short_term_flags(slid, n);
        let lt3 = long_term_slot_flags(slid, n);
        lemma_count_change(st2, st3, v, nn);
        lemma_count_change(lt2, lt3, v, nn);
    }
}

/// While references leave a slot, the next picture can be started.
pub proof fn law_free_slot_lets_start(m: DpbModel, info: PictureStartInfo)
    requires
        m.well_formed(),
        m.short_term_refs() + m.long_term_refs() <= m.size - 1,
        forall|i: int|
            0 <= i < m.size && (#[trigger] m.slots[i]).state == DpbState::InUse
                ==> m.slots[i].pic_order_cnt < i32::MAX,
    ensures
        can_start(m, info),
{
    let n = m.size as nat;
    let st = short_term_flags(m.slots, m.size);
    let lt = long_term_slot_flags(m.slots, m.size);
    if forall|i: int| 0 <= i < m.size ==> !can_free(#[trigger] m.slots[i]) {
        assert forall|i: int| 0 <= i < n implies st[i] != lt[i] by {
            assert(!can_free(m.slots[i]));
        }
        lemma_count_split(st, lt, n);
        assert(false);
    }
}

proof fn lemma_count_split(a: Seq<bool>, b: Seq<bool>, n: nat)
    requires
        n <= a.len(),
        n <= b.len(),
        forall|i: int| 0 <= i < n ==> a[i] != b[i],
    ensures
        count_upto(a, n) + count_upto(b, n) == n,
    decreases n,
{
    if n > 0 {
        lemma_count_split(a, b, (n - 1) as nat);
    }
}

/// Distances can be coded without loss: each reference is further away than
/// the one before it, by no more than 256.
pub open spec fn codable(deltas: Seq<i32>, after: bool) -> bool {
    &&& deltas.len() <= MAX_DPB_SIZE
    &&& forall|i: int|
        0 <= i < deltas.len() ==> {
            let prev = if i == 0 {
                0int
            } else {
                deltas[i - 1] as int
            };
            let gap = if after {
                (#[trigger] deltas[i]) - prev
            } else {
                prev - deltas[i]
            };
            1 <= gap <= 256
        }
}

proof fn lemma_distance_decodes(coded: Seq<u8>, deltas: Seq<i32>, after: bool, k: nat)
    requires
        codable(deltas, after),
        coded == if after {
            coded_positive(deltas)
        } else {
            coded_negative(deltas)
        },
        1 <= k <= deltas.len(),
    ensures
        distance(coded, k) == if after {
            deltas[k - 1] as int
        } else {
            -deltas[k - 1]
        },
    decreases k,
{
    let prev = if k == 1 {
        0int
    } else {
        deltas[k - 2] as int
    };
    assert(deltas[k - 1] == deltas[k - 1]);
    if k > 1 {
        lemma_distance_decodes(coded, deltas, after, (k - 1) as nat);
    } else {
        assert(distance(coded, 0) == 0);
    }
    let gap = if after {
        deltas[k - 1] - prev
    } else {
        prev - deltas[k - 1]
    };
    assert(1 <= gap <= 256);
    assert((gap - 1) % 256 == gap - 1);
    assert(coded[k - 1] == gap - 1);
}

/// A reference picture set gives back the pictures that were coded into it:
/// reference `i` before (or after) the current picture has its POC, and the
/// pictures that are used are the nearest ones, as many as were asked for.
pub proof fn law_rps_gives_back_pocs(
    rps: ShortTermRefPicSet,
    neg: Seq<i32>,
    pos: Seq<i32>,
    num_ref_l0: u32,
    num_ref_l1: u32,
    current_poc: i32,
)
    requires
        codes(rps, neg, pos, num_ref_l0, num_ref_l1),
        codable(neg, false),
        codable(pos, true),
        forall|i: int| 0 <= i < neg.len() ==> i32::MIN <= current_poc + #[trigger] neg[i],
        forall|i: int| 0 <= i < pos.len() ==> current_poc + #[trigger] pos[i] <= i32::MAX,
    ensures
        forall|i: int|
            0 <= i < neg.len() ==> #[trigger] rps_poc(
                current_poc,
                rps.delta_poc_s0_minus1@,
                false,
                i,
            ) == current_poc + neg[i],
        forall|i: int|
            0 <= i < pos.len() ==> #[trigger] rps_poc(
                current_poc,
                rps.delta_poc_s1_minus1@,
                true,
                i,
            ) == current_poc + pos[i],
        used_pocs(
            current_poc,
            rps.delta_poc_s0_minus1@,
            false,
            rps.used_by_curr_pic_s0_flag,
            rps.num_negative_pics as nat,
        ) == nearest_pocs(current_poc, neg, num_ref_l0),
        used_pocs(
            current_poc,
            rps.delta_poc_s1_minus1@,
            true,
            rps.used_by_curr_pic_s1_flag,
            rps.num_positive_pics as nat,
        ) == nearest_pocs(current_poc, pos, num_ref_l1),
{
    assert forall|i: int| 0 <= i < neg.len() implies #[trigger] rps_poc(
        current_poc,
        rps.delta_poc_s0_minus1@,
        false,
        i,
    ) == current_poc + neg[i] by {
        lemma_distance_decodes(rps.delta_poc_s0_minus1@, neg, false, (i + 1) as nat);
    }
    assert forall|i: int| 0 <= i < pos.len() implies #[trigger] rps_poc(
        current_poc,
        rps.delta_poc_s1_minus1@,
        true,
        i,
    ) == current_poc + pos[i] by {
        lemma_distance_decodes(rps.delta_poc_s1_minus1@, pos, true, (i + 1) as nat);
    }
    lemma_used_are_nearest(current_poc, rps.delta_poc_s0_minus1@, false, neg, num_ref_l0, neg.len());
    lemma_used_are_nearest(current_poc, rps.delta_poc_s1_minus1@, true, pos, num_ref_l1, pos.len());
}

/// POCs of the first `num_ref` references.
pub open spec fn nearest_pocs(current_poc: i32, deltas: Seq<i32>, num_ref: u32) -> Seq<i32> {
    Seq::new(
        if num_ref < deltas.len() {
            num_ref as nat
        } else {
            deltas.len()
        },
        |i: int| (current_poc + deltas[i]) as i32,
    )
}

proof fn lemma_used_are_nearest(
    current_poc: i32,
    coded: Seq<u8>,
    after: bool,
    deltas: Seq<i32>,
    num_ref: u32,
    k: nat,
)
    requires
        k <= deltas.len() <= MAX_DPB_SIZE,
        forall|i: int|
            0 <= i < deltas.len() ==> #[trigger] rps_poc(current_poc, coded, after, i)
                == current_poc + deltas[i],
    ensures
        ({
            let flags = active_flags(deltas.len(), num_ref);
            let items = Seq::new(
                deltas.len(),
                |i: int|
                    if used_bit(flags, i) {
                        Some(rps_poc(current_poc, coded, after, i) as i32)
                    } else {
                        None
                    },
            );
            present_upto(items, k) == nearest_pocs(current_poc, deltas.take(k as int), num_ref)
        }),
        k == deltas.len() ==> used_pocs(
            current_poc,
            coded,
            after,
            active_flags(deltas.len(), num_ref),
            deltas.len(),
        ) == nearest_pocs(current_poc, deltas, num_ref),
    decreases k,
{
    let flags = active_flags(deltas.len(), num_ref);
    let items = Seq::new(
        deltas.len(),
        |i: int|
            if used_bit(flags, i) {
                Some(rps_poc(current_poc, coded, after, i) as i32)
            } else {
                None
            },
    );
    if k > 0 {
        lemma_used_are_nearest(current_poc, coded, after, deltas, num_ref, (k - 1) as nat);
        let active = if num_ref < deltas.len() {
            num_ref as int
        } else {
            deltas.len() as int
        };
        lemma_low_ones_bits(active, k - 1);
        assert(rps_poc(current_poc, coded, after, k - 1) == current_poc + deltas[k - 1]);
    }
    assert(present_upto(items, k) =~= nearest_pocs(current_poc, deltas.take(k as int), num_ref));
    if k == deltas.len() {
        assert(deltas.take(k as int) =~= deltas);
    }
}

/// Where references take all slots but that of the current picture, and it becomes one, the
/// sliding window drops the short-term reference with the lowest picture order count. Its
/// slot is free unless it still waits for output; all others stay as they are.
pub proof fn law_window_drops_the_oldest(m: DpbModel, j: int) -> (i: int)
    requires
        m.well_formed(),
        m.layers <= 1,
        m.current >= 0,
        m.slots[m.current].state == DpbState::InUse,
        m.slots[m.current].marking == MarkingState::Unused,
        m.short_term_refs() + m.long_term_refs() == m.size - 1,
        0 <= j < m.size,
        m.slots[j].short_term(),
        m.slots[j].pic_order_cnt < i32::MAX,
    ensures
        ({
            let next = after_picture_end(m, true);
            &&& 0 <= i < m.size
            &&& i != m.current
            &&& m.slots[i].short_term()
            &&& m.slots[i].pic_order_cnt <= m.slots[j].pic_order_cnt
            &&& next.slots[i].marking == MarkingState::Unused
            &&& next.slots[i].bottom_field_marking == MarkingState::Unused
            &&& next.slots[i].output == m.slots[i].output
            &&& next.slots[i].state == DpbState::Empty <==> !m.slots[i].output
            &&& next.slots[m.current].short_term()
            &&& forall|k: int|
                0 <= k < m.slots.len() && k != i && k != m.current ==> #[trigger] next.slots[k]
                    == m.slots[k]
        }),
{
    let n = m.size;
    let cur = m.current;
    let marked = m.slots.update(
        cur,
        DpbEntry { marking: MarkingState::ShortTerm, ..m.slots[cur] },
    );
    let st0 = short_term_flags(m.slots, n);
    let lt0 = long_term_slot_flags(m.slots, n);
    let st = short_term_flags(marked, n);
    let lt = long_term_slot_flags(marked, n);
    lemma_count_change(st0, st, cur, n as nat);
    lemma_count_change(lt0, lt, cur, n as nat);
    let keys = other_short_term_keys(marked, n, cur);
    lemma_first_least(keys, i32::MAX as int);
    assert(keys[j] is Some);
    super::select::first_least(keys, i32::MAX as int)->0
}

} // verus!
