//! What becomes of the pictures in the H.265 DPB.

use super::bumping::{
    all_in_use, bumped, change_first, empty_flags, lemma_bump_progress, next_output, output_keys,
    pending_flags, room_made, waits_for_output,
};
use super::entry::{DpbEntry, DpbState, MarkingState};
use super::h265::{
    after_marking, after_picture_end, after_picture_start, fresh, long_term_mask, prepared,
    sequence_begun, DpbModel,
};
use super::marking::{
    as_unsigned, corrupted_keys, layer_unmarked, oldest, sound_keys, some_flags, surplus_reference,
};
use super::rps::{long_term_slot, short_term_slot, unlisted_unmarked};
use super::select::{
    count_true, count_upto, lemma_count_bound, lemma_first_least, lemma_first_true,
};
use super::types::{DpbConfig, PictureStartInfo};
use super::{PictureType, MAX_DPB_SIZE};
use vstd::arithmetic::power2::{
    lemma2_to64, lemma_pow2_adds, lemma_pow2_pos, lemma_pow2_strictly_increases, pow2,
};
use vstd::prelude::*;

verus! {

/// Pictures are output by ascending picture order count: the one that is output next waits
/// for it, no other that waits has a lower count, and of equal ones it is the first. There
/// is none only if none waits whose count is below the largest number.
pub proof fn law_lowest_count_is_output_first(slots: Seq<DpbEntry>, n: int, j: int)
    requires
        0 <= j < n <= slots.len(),
    ensures
        match next_output(slots, n) {
            Some(i) => {
                &&& 0 <= i < n
                &&& slots[i].state == DpbState::InUse
                &&& slots[i].output
                &&& slots[j].state == DpbState::InUse && slots[j].output
                    ==> slots[i].pic_order_cnt <= slots[j].pic_order_cnt
                &&& j < i && slots[j].state == DpbState::InUse && slots[j].output
                    ==> slots[i].pic_order_cnt < slots[j].pic_order_cnt
            },
            None => !(slots[j].state == DpbState::InUse && slots[j].output
                && slots[j].pic_order_cnt < i32::MAX),
        },
{
    let keys = output_keys(slots, n);
    lemma_first_least(keys, i32::MAX as int);
    assert(keys[j] is Some <==> waits_for_output(slots[j]));
    if next_output(slots, n) is Some {
        let i = next_output(slots, n)->Some_0;
        assert(keys[i] is Some);
    }
}

/// Output changes the picture that is output alone: it no longer waits, and its slot is
/// free exactly if it is no reference.
pub proof fn law_output_frees_what_is_no_reference(slots: Seq<DpbEntry>, n: int, j: int)
    requires
        0 <= n <= slots.len(),
        0 <= j < slots.len(),
    ensures
        bumped(slots, n).len() == slots.len(),
        next_output(slots, n) != Some(j) ==> bumped(slots, n)[j] == slots[j],
        next_output(slots, n) == Some(j) ==> {
            let after = bumped(slots, n)[j];
            &&& !after.output
            &&& after.state == DpbState::Empty <==> slots[j].marking == MarkingState::Unused
            &&& after.state == DpbState::InUse <==> slots[j].marking != MarkingState::Unused
            &&& after == (DpbEntry { output: after.output, state: after.state, ..slots[j] })
        },
{
    lemma_first_least(output_keys(slots, n), i32::MAX as int);
    if next_output(slots, n) is Some {
        let i = next_output(slots, n)->Some_0;
        assert(output_keys(slots, n)[i] is Some);
    }
}

/// Room is made only where there is none, and then until there is or nothing is left to
/// output.
pub proof fn law_room_is_made_where_needed(slots: Seq<DpbEntry>, n: int)
    requires
        0 <= n <= slots.len(),
    ensures
        (exists|i: int| 0 <= i < n && (#[trigger] slots[i]).state != DpbState::InUse)
            ==> room_made(slots, n) == slots,
        all_in_use(room_made(slots, n), n) ==> next_output(room_made(slots, n), n) is None,
        room_made(slots, n).len() == slots.len(),
    decreases count_true(pending_flags(slots, n)),
{
    if all_in_use(slots, n) && next_output(slots, n) is Some {
        lemma_bump_progress(slots, n);
        lemma_first_least(output_keys(slots, n), i32::MAX as int);
        law_room_is_made_where_needed(bumped(slots, n), n);
    }
}

/// An IDR picture finds all slots free and no reference. Unless earlier pictures are to be
/// dropped, none of those in use is left waiting for output.
pub proof fn law_idr_clears_the_buffer(m: DpbModel, info: PictureStartInfo, i: int)
    requires
        m.well_formed(),
        info.pic_type == PictureType::Idr,
        0 <= i < m.size,
    ensures
        prepared(m, info)[i].state == DpbState::Empty,
        prepared(m, info)[i].marking == MarkingState::Unused,
        prepared(m, info)[i].bottom_field_marking == MarkingState::Unused,
        !info.no_output_of_prior_pics_flag && m.slots[i].state == DpbState::InUse ==> !prepared(
            m,
            info,
        )[i].output,
        prepared(m, info)[i].pic_order_cnt == m.slots[i].pic_order_cnt,
        prepared(m, info)[i].frame_id == m.slots[i].frame_id,
{
}

/// A picture is started in the first slot that is free, which then holds what the DPB was
/// told of it. It records the picture order counts of all slots, and which of them were
/// long-term references. Other slots are as they were prepared. An IDR picture leaves its
/// timestamp.
pub proof fn law_started_picture_is_held(
    m: DpbModel,
    info: PictureStartInfo,
    next: DpbModel,
    j: int,
)
    requires
        m.well_formed(),
        after_picture_start(m, info, next),
        0 <= j < MAX_DPB_SIZE,
    ensures
        ({
            let ready = prepared(m, info);
            let held = next.slots[next.current];
            &&& next.well_formed()
            &&& next.size == m.size
            &&& next.current >= 0 ==> {
                &&& next.current < m.size
                &&& ready[next.current].state == DpbState::Empty
                &&& j < next.current ==> ready[j].state != DpbState::Empty
                &&& held.state == DpbState::InUse
                &&& held.pic_order_cnt == info.pic_order_cnt
                &&& held.frame_id == info.frame_id
                &&& held.pic_type == info.pic_type
                &&& held.output == info.pic_output_flag
                &&& held.temporal_id == info.temporal_id
                &&& !held.corrupted
                &&& held.marking == ready[next.current].marking
                &&& held.ref_pic_order_cnt@[j] == if j < m.size {
                    ready[j].pic_order_cnt
                } else {
                    0i32
                }
                &&& (held.long_term_ref_pic >> (j as u32)) & 1u32 == 1u32 <==> j < m.size
                    && ready[j].marking == MarkingState::LongTerm
                &&& j != next.current ==> next.slots[j] == ready[j]
                &&& next.last_idr_timestamp == if info.pic_type == PictureType::Idr {
                    info.timestamp
                } else {
                    m.last_idr_timestamp
                }
            }
            &&& next.current < 0 ==> j < m.size ==> ready[j].state != DpbState::Empty
        }),
{
    let ready = prepared(m, info);
    let flags = empty_flags(ready, m.size);
    lemma_first_true(flags);
    if j < m.size {
        assert(flags[j] == (ready[j].state == DpbState::Empty));
    }
    assert(ready.len() == MAX_DPB_SIZE) by {
        if info.pic_type != PictureType::Idr {
            law_room_is_made_where_needed(
                change_first(m.slots, m.size, |e: DpbEntry| super::bumping::released(e)),
                m.size,
            );
        }
    }
    if next.current >= 0 {
        assert(flags[next.current]);
        lemma_mask(ready, m.size as nat, j as u32);
    }
}

proof fn lemma_mask(slots: Seq<DpbEntry>, n: nat, j: u32)
    requires
        n <= 16,
        j < 16,
    ensures
        (long_term_mask(slots, n) >> j) & 1u32 == 1u32 <==> j < n && slots[j as int].marking
            == MarkingState::LongTerm,
    decreases n,
{
    if n == 0 {
        assert((0u32 >> j) & 1u32 == 0u32) by (bit_vector);
    } else {
        lemma_mask(slots, (n - 1) as nat, j);
        let before = long_term_mask(slots, (n - 1) as nat);
        let k = (n - 1) as u32;
        assert((((before | (1u32 << k)) >> j) & 1u32 == 1u32) == ((before >> j) & 1u32 == 1u32 || k
            == j)) by (bit_vector)
            requires
                k < 16,
                j < 16,
        ;
    }
}

/// A picture that ended is a short-term reference exactly if it is to be one. The DPB has no
/// current picture to end before one was started.
pub proof fn law_ended_picture_is_marked(m: DpbModel, is_reference: bool)
    requires
        m.well_formed(),
        m.current >= 0 ==> m.slots[m.current].state == DpbState::InUse,
    ensures
        ({
            let next = after_picture_end(m, is_reference);
            &&& next.current == m.current
            &&& next.size == m.size
            &&& m.current < 0 ==> next == m
            &&& m.current >= 0 ==> {
                &&& next.slots[m.current].marking == MarkingState::ShortTerm <==> is_reference
                &&& next.slots[m.current].marking == MarkingState::Unused <==> !is_reference
                &&& next.slots[m.current].state == DpbState::InUse
                &&& next.slots[m.current].pic_order_cnt == m.slots[m.current].pic_order_cnt
            }
        }),
{
    if m.current >= 0 {
        let layered = if m.layers > 1 {
            layer_unmarked(m.slots, m.size, m.current)
        } else {
            m.slots
        };
        let marked = layered.update(
            m.current,
            DpbEntry {
                marking: if is_reference {
                    MarkingState::ShortTerm
                } else {
                    MarkingState::Unused
                },
                ..layered[m.current]
            },
        );
        let keys = super::marking::other_short_term_keys(marked, m.size, m.current);
        lemma_first_least(keys, i32::MAX as int);
    }
}

/// With temporal layers, a picture takes the marking of the other references of its layer,
/// and of nothing else.
pub proof fn law_layer_keeps_one_reference(
    slots: Seq<DpbEntry>,
    n: int,
    current: int,
    i: int,
)
    requires
        0 <= current < n <= slots.len(),
        0 <= i < slots.len(),
    ensures
        ({
            let after = layer_unmarked(slots, n, current)[i];
            let replaced = i < n && i != current && (slots[i].short_term()
                || slots[i].long_term()) && slots[i].temporal_id == slots[current].temporal_id;
            &&& replaced ==> after.marking == MarkingState::Unused && after.bottom_field_marking
                == MarkingState::Unused && after.pic_order_cnt == slots[i].pic_order_cnt
                && after.state == slots[i].state && after.output == slots[i].output
            &&& !replaced ==> after == slots[i]
        }),
{
}

/// A picture has a marking that can be taken, or is corrupted.
pub open spec fn can_go(e: DpbEntry) -> bool {
    e.state == DpbState::InUse && (e.corrupted || e.marking == MarkingState::ShortTerm || e.marking
        == MarkingState::LongTerm)
}

/// A sound reference with this marking.
pub open spec fn is_sound(e: DpbEntry, marking: MarkingState) -> bool {
    e.state == DpbState::InUse && e.marking == marking && !e.corrupted
}

/// Number of sound long-term references.
pub open spec fn sound_long_term(slots: Seq<DpbEntry>, n: int) -> nat {
    count_true(Seq::new(n as nat, |i: int| is_sound(slots[i], MarkingState::LongTerm)))
}

proof fn lemma_kinds_add_up(slots: Seq<DpbEntry>, n: int, k: nat)
    requires
        k <= n <= slots.len(),
    ensures
        ({
            let st = some_flags(sound_keys(slots, n, MarkingState::ShortTerm));
            let lt = some_flags(sound_keys(slots, n, MarkingState::LongTerm));
            let corrupted = some_flags(corrupted_keys(slots, n));
            let all = Seq::new(n as nat, |i: int| can_go(slots[i]));
            count_upto(st, k) + count_upto(lt, k) + count_upto(corrupted, k) == count_upto(all, k)
        }),
    decreases k,
{
    if k > 0 {
        lemma_kinds_add_up(slots, n, (k - 1) as nat);
    }
}

/// Of pictures that are references or corrupted, one loses its marking exactly if they take
/// all slots, unless the oldest count is the largest number. A corrupted picture goes if it
/// is older than every sound short-term reference. Without long-term references in the
/// sequence, a long-term reference goes only if there is no sound short-term reference;
/// with them, it goes exactly if more than half of the slots hold such. The one that goes
/// is the oldest of its kind, by its count as an unsigned number.
pub proof fn law_surplus_is_the_oldest_of_its_kind(
    slots: Seq<DpbEntry>,
    n: int,
    long_term_refs_present: bool,
    j: int,
)
    requires
        0 <= j < n <= slots.len(),
    ensures
        !can_go(slots[j]) ==> surplus_reference(slots, n, long_term_refs_present) is None,
        surplus_reference(slots, n, long_term_refs_present) matches Some(i) ==> {
            let age = as_unsigned(slots[i].pic_order_cnt);
            let other = as_unsigned(slots[j].pic_order_cnt);
            let sound = !slots[i].corrupted;
            let long_term = sound && slots[i].marking == MarkingState::LongTerm;
            let half = (n / 2) as nat;
            &&& 0 <= i < n
            &&& can_go(slots[i])
            &&& !sound && slots[j].state == DpbState::InUse && slots[j].corrupted ==> age <= other
            &&& !sound && is_sound(slots[j], MarkingState::ShortTerm) ==> age < other
            &&& sound && is_sound(slots[j], slots[i].marking) ==> age <= other
            &&& sound && !long_term && slots[j].state == DpbState::InUse && slots[j].corrupted
                ==> age <= other
            &&& !long_term_refs_present && long_term ==> !is_sound(
                slots[j],
                MarkingState::ShortTerm,
            )
            &&& long_term_refs_present && long_term ==> sound_long_term(slots, n) > half
            &&& long_term_refs_present && sound && !long_term ==> sound_long_term(slots, n) <= half
        },
        (forall|k: int|
            0 <= k < n ==> can_go(#[trigger] slots[k]) && as_unsigned(slots[k].pic_order_cnt)
                < u32::MAX) && (long_term_refs_present ==> exists|k: int|
            0 <= k < n && #[trigger] is_sound(slots[k], MarkingState::ShortTerm))
            ==> surplus_reference(slots, n, long_term_refs_present) is Some,
{
    let st = sound_keys(slots, n, MarkingState::ShortTerm);
    let lt = sound_keys(slots, n, MarkingState::LongTerm);
    let corrupted = corrupted_keys(slots, n);
    let all = Seq::new(n as nat, |i: int| can_go(slots[i]));
    lemma_first_least(st, u32::MAX as int);
    lemma_first_least(lt, u32::MAX as int);
    lemma_first_least(corrupted, u32::MAX as int);
    lemma_kinds_add_up(slots, n, n as nat);
    lemma_count_bound(all, n as nat);
    lemma_count_bound(some_flags(st), n as nat);
    lemma_count_bound(some_flags(lt), n as nat);
    lemma_count_bound(some_flags(corrupted), n as nat);
    assert(some_flags(lt) =~= Seq::new(
        n as nat,
        |i: int| is_sound(slots[i], MarkingState::LongTerm),
    ));
    assert(all[j] == can_go(slots[j]));
    assert(st[j] is Some <==> is_sound(slots[j], MarkingState::ShortTerm));
    assert(lt[j] is Some <==> is_sound(slots[j], MarkingState::LongTerm));
    assert(corrupted[j] is Some <==> slots[j].state == DpbState::InUse && slots[j].corrupted);
    assert(some_flags(st)[j] == (st[j] is Some));
    assert(some_flags(corrupted)[j] == (corrupted[j] is Some));
    if surplus_reference(slots, n, long_term_refs_present) is Some {
        let i = surplus_reference(slots, n, long_term_refs_present)->Some_0;
        assert(st[i] is Some || lt[i] is Some || corrupted[i] is Some);
        assert(some_flags(corrupted)[i] == (corrupted[i] is Some));
    }
    if forall|k: int|
        0 <= k < n ==> can_go(#[trigger] slots[k]) && as_unsigned(slots[k].pic_order_cnt)
            < u32::MAX {
        assert(forall|k: int| 0 <= k < n ==> all[k]);
        if long_term_refs_present && exists|k: int|
            0 <= k < n && #[trigger] is_sound(slots[k], MarkingState::ShortTerm) {
            let k = choose|k: int|
                0 <= k < n && #[trigger] is_sound(slots[k], MarkingState::ShortTerm);
            assert(some_flags(st)[k]);
        }
        lemma_kind_has_oldest(st, slots);
        lemma_kind_has_oldest(lt, slots);
        lemma_kind_has_oldest(corrupted, slots);
        let num_st = count_true(some_flags(st));
        let num_lt = count_true(some_flags(lt));
        let num_corrupted = count_true(some_flags(corrupted));
        assert(num_st + num_lt + num_corrupted == n);
        if num_corrupted > 0 && num_st == 0 {
            assert(oldest(st) is None) by {
                if oldest(st) is Some {
                    assert(some_flags(st)[oldest(st)->Some_0]);
                }
            }
        }
    }
}

/// Among keys below the largest number that are there, there is an oldest one.
proof fn lemma_kind_has_oldest(keys: Seq<Option<int>>, slots: Seq<DpbEntry>)
    requires
        keys.len() <= slots.len(),
        forall|k: int|
            0 <= k < keys.len() && (#[trigger] keys[k]) is Some ==> keys[k]->0 == as_unsigned(
                slots[k].pic_order_cnt,
            ),
        forall|k: int|
            0 <= k < keys.len() ==> as_unsigned((#[trigger] slots[k]).pic_order_cnt) < u32::MAX,
    ensures
        count_true(some_flags(keys)) > 0 ==> oldest(keys) is Some,
{
    lemma_first_least(keys, u32::MAX as int);
    lemma_count_bound(some_flags(keys), keys.len());
    if count_true(some_flags(keys)) > 0 && oldest(keys) is None {
        assert forall|k: int| 0 <= k < keys.len() implies !some_flags(keys)[k] by {
            if keys[k] is Some {
                assert(as_unsigned(slots[k].pic_order_cnt) < u32::MAX);
            }
        }
    }
}

/// Marking before an IDR picture takes every marking away. After an intra picture a refresh
/// is pending: the first picture behind it in output order takes the marking of all others
/// but it. While no refresh is due and a picture has one reference only, marking changes
/// nothing in the slots.
pub proof fn law_marking(
    m: DpbModel,
    current_poc: i32,
    pic_type: PictureType,
    long_term_refs_present: bool,
    i: int,
)
    requires
        m.well_formed(),
        0 <= i < m.size,
    ensures
        ({
            let next = after_marking(m, current_poc, pic_type, long_term_refs_present);
            let idr = pic_type == PictureType::Idr;
            let refreshing = !idr && m.refresh_pending && current_poc > m.cra_poc;
            &&& idr ==> next.slots[i].marking == MarkingState::Unused
                && next.slots[i].bottom_field_marking == MarkingState::Unused
            &&& idr ==> next.refresh_pending == m.refresh_pending && next.cra_poc == m.cra_poc
            &&& refreshing && m.slots[i].pic_order_cnt != m.cra_poc ==> next.slots[i].marking
                == MarkingState::Unused
            &&& !idr && !m.multiple_refs && (!refreshing || m.slots[i].pic_order_cnt == m.cra_poc)
                ==> next.slots[i] == m.slots[i]
            &&& pic_type == PictureType::I ==> next.refresh_pending && next.cra_poc == current_poc
            &&& !idr && pic_type != PictureType::I ==> next.cra_poc == m.cra_poc
                && next.refresh_pending == (m.refresh_pending && current_poc <= m.cra_poc)
            &&& next.slots[i].state == m.slots[i].state
            &&& next.slots[i].output == m.slots[i].output
            &&& next.slots[i].pic_order_cnt == m.slots[i].pic_order_cnt
            &&& next.slots[i].marking != m.slots[i].marking ==> next.slots[i].marking
                == MarkingState::Unused
        }),
{    let refreshing = m.refresh_pending && current_poc > m.cra_poc;
    let refreshed = if refreshing {
        change_first(
            m.slots,
            m.size,
            |e: DpbEntry|
                if e.pic_order_cnt != m.cra_poc {
                    e.unmarked()
                } else {
                    e
                },
        )
    } else {
        m.slots
    };
    if pic_type != PictureType::Idr {
        law_surplus_is_the_oldest_of_its_kind(refreshed, m.size, long_term_refs_present, i);
    }
}

/// A picture order count is found in a slot that holds a short-term reference with it, the
/// first one; it is not found only if there is none.
pub proof fn law_short_term_reference_is_found(slots: Seq<DpbEntry>, n: int, poc: i32, j: int)
    requires
        0 <= j < n <= MAX_DPB_SIZE,
        n <= slots.len(),
    ensures
        ({
            let d = short_term_slot(slots, n, poc);
            &&& -1 <= d < n
            &&& d >= 0 ==> slots[d as int].state == DpbState::InUse && slots[d as int].marking
                == MarkingState::ShortTerm && slots[d as int].pic_order_cnt == poc
            &&& d < 0 || j < d ==> !(slots[j].state == DpbState::InUse && slots[j].marking
                == MarkingState::ShortTerm && slots[j].pic_order_cnt == poc)
        }),
{
    let flags = Seq::new(
        n as nat,
        |d: int| slots[d].short_term() && slots[d].pic_order_cnt == poc,
    );
    lemma_first_true(flags);
    assert(flags[j] == (slots[j].short_term() && slots[j].pic_order_cnt == poc));
}

/// A count LSB is found in a slot that holds a reference, of either term, whose picture
/// order count has it, the first one; it is not found only if there is none.
pub proof fn law_long_term_reference_is_found(
    slots: Seq<DpbEntry>,
    n: int,
    max_poc_lsb: i32,
    lsb: i32,
    j: int,
)
    requires
        0 <= j < n <= MAX_DPB_SIZE,
        n <= slots.len(),
    ensures
        ({
            let d = long_term_slot(slots, n, max_poc_lsb, lsb);
            let mask = (max_poc_lsb - 1) as i32;
            &&& -1 <= d < n
            &&& d >= 0 ==> (slots[d as int].short_term() || slots[d as int].long_term())
                && slots[d as int].pic_order_cnt & mask == lsb
            &&& d < 0 || j < d ==> !((slots[j].short_term() || slots[j].long_term())
                && slots[j].pic_order_cnt & mask == lsb)
        }),
{
    let flags = Seq::new(
        n as nat,
        |d: int|
            slots[d].state == DpbState::InUse && slots[d].marking != MarkingState::Unused && (
            slots[d].pic_order_cnt & (max_poc_lsb - 1) as i32) == lsb,
    );
    lemma_first_true(flags);
    assert(flags[j] == (slots[j].state == DpbState::InUse && slots[j].marking
        != MarkingState::Unused && (slots[j].pic_order_cnt & (max_poc_lsb - 1) as i32) == lsb));
}

/// Applying a reference picture set leaves the pictures in its lists as they are, and all
/// others are no references any more.
pub proof fn law_set_keeps_what_it_lists(
    slots: Seq<DpbEntry>,
    n: int,
    before: Seq<i8>,
    after: Seq<i8>,
    lt: Seq<i8>,
    i: int,
)
    requires
        0 <= i < n <= slots.len(),
        n <= MAX_DPB_SIZE,
    ensures
        ({
            let left = unlisted_unmarked(slots, n, before, after, lt)[i];
            let is_listed = before.contains(i as i8) || after.contains(i as i8) || lt.contains(
                i as i8,
            );
            &&& is_listed ==> left == slots[i]
            &&& !is_listed ==> left.marking == MarkingState::Unused
            &&& left.state == slots[i].state
            &&& left.output == slots[i].output
            &&& left.pic_order_cnt == slots[i].pic_order_cnt
        }),
{
}

/// A picture other than an IDR picture first frees the slots of pictures that are no
/// references and do not wait for output. If there is such a slot, nothing else changes.
pub proof fn law_start_frees_what_is_done_with(
    m: DpbModel,
    info: PictureStartInfo,
    i: int,
    j: int,
)
    requires
        m.well_formed(),
        info.pic_type != PictureType::Idr,
        0 <= i < m.size,
        m.slots[i].marking == MarkingState::Unused,
        !m.slots[i].output,
        0 <= j < m.size,
    ensures
        prepared(m, info)[i].state == DpbState::Empty,
        m.slots[j].marking != MarkingState::Unused || m.slots[j].output ==> prepared(m, info)[j]
            == m.slots[j],
{
    let freed = change_first(m.slots, m.size, |e: DpbEntry| super::bumping::released(e));
    assert(freed[i].state == DpbState::Empty);
    law_room_is_made_where_needed(freed, m.size);
}

/// A sequence starts with as many empty slots as it was configured with, 16 at most, without
/// a current picture, and with the range of picture order counts that was configured.
pub proof fn law_sequence_starts_as_configured(
    m: DpbModel,
    config: DpbConfig,
    next: DpbModel,
    i: int,
)
    requires
        sequence_begun(m, config, next),
        config.dpb_size <= 127,
        config.log2_max_pic_order_cnt_lsb_minus4 <= 12,
        0 <= i < 16,
    ensures
        next.size == if config.dpb_size <= 16 {
            config.dpb_size as int
        } else {
            16int
        },
        next.current == -1,
        next.multiple_refs == config.use_multiple_references,
        next.layers == config.num_temporal_layers,
        next.max_poc_lsb == 16 * pow2(config.log2_max_pic_order_cnt_lsb_minus4 as nat),
        next.long_term_flags == 0,
        !next.refresh_pending,
        next.slots.len() == 16,
        next.slots[i].state == DpbState::Empty,
        next.slots[i].marking == MarkingState::Unused,
        next.slots[i].bottom_field_marking == MarkingState::Unused,
        !next.slots[i].output,
        !next.slots[i].corrupted,
        next.slots[i].pic_order_cnt == 0,
        next.slots[i].frame_num == 0,
        next.slots[i].temporal_id == 0,
        next.slots[i].long_term_frame_idx == 0,
{
    lemma2_to64();
    lemma_pow2_adds(4, config.log2_max_pic_order_cnt_lsb_minus4 as nat);
    lemma_small_power(config.log2_max_pic_order_cnt_lsb_minus4 as nat);
}

proof fn lemma_small_power(n: nat)
    requires
        n <= 12,
    ensures
        1 <= pow2(n) <= 0x1000,
{
    lemma2_to64();
    if n < 12 {
        lemma_pow2_strictly_increases(n, 12);
    }
    lemma_pow2_pos(n);
}

/// A new DPB has no slots and no current picture.
pub proof fn law_new_buffer_has_no_slots(m: DpbModel, i: int)
    requires
        fresh(m),
        0 <= i < 16,
    ensures
        m.size == 0,
        m.current == -1,
        m.layers == 1,
        m.max_poc_lsb == 16,
        m.multiple_refs,
        m.long_term_flags == 0,
        !m.refresh_pending,
        m.last_idr_timestamp == 0,
        m.slots[i].state == DpbState::Empty,
        m.slots[i].marking == MarkingState::Unused,
        !m.slots[i].output,
{
}

} // verus!
