//! What stands in reference picture lists.

use super::entry::{DpbEntry, DpbState, MarkingState};
use super::h265::{lists_set_up, DpbModel};
use super::reference_lists::{
    active_minus1, b_after, b_before, b_frame_list0, capped, entries_in, h265_list0, h265_list1,
    in_rank_order, lemma_listed_repeats, list_length, listed, p_frame_list, p_short_term,
    ranked_long_term, rps_candidates, slot_candidate, ReferenceList, ReferencePicture,
};
use super::select::{
    lemma_present_from, lemma_sort_permutes, present, present_upto, sort_ranked, unranked,
};
use super::types::RefPicSet;
use super::PictureType;
use vstd::prelude::*;

verus! {

/// A slot in use with this marking, in the frame or in its bottom field.
pub open spec fn marked_as(e: DpbEntry, marking: MarkingState) -> bool {
    e.state == DpbState::InUse && (e.marking == marking || e.bottom_field_marking == marking)
}

/// The list entry tells of the picture in its slot, which is one of the first `n`.
pub open spec fn tells_its_slot(picture: ReferencePicture, dpb: Seq<DpbEntry>, n: nat) -> bool {
    let e = dpb[picture.dpb_index as int];
    &&& 0 <= picture.dpb_index < n
    &&& picture.poc == e.pic_order_cnt
    &&& picture.frame_num == e.frame_num
    &&& picture.is_long_term ==> marked_as(e, MarkingState::LongTerm)
        && picture.long_term_pic_num == e.long_term_frame_idx && picture.pic_num == 0
    &&& !picture.is_long_term ==> marked_as(e, MarkingState::ShortTerm)
        && picture.long_term_pic_num == 0
}

/// The list has an entry for a slot.
pub open spec fn lists_slot(list: Seq<ReferencePicture>, slot: int, is_long_term: bool) -> bool {
    exists|k: int|
        0 <= k < list.len() && (#[trigger] list[k]).dpb_index == slot && list[k].is_long_term
            == is_long_term
}

proof fn lemma_present_covers<T>(items: Seq<Option<T>>, n: nat, i: int)
    requires
        0 <= i < n <= items.len(),
        items[i] is Some,
    ensures
        present_upto(items, n).contains(items[i]->Some_0),
    decreases n,
{
    let all = present_upto(items, n);
    if i == n - 1 {
        assert(all[all.len() - 1] == items[i]->Some_0);
    } else {
        lemma_present_covers(items, (n - 1) as nat, i);
        let before = present_upto(items, (n - 1) as nat);
        let k = choose|k: int| 0 <= k < before.len() && before[k] == items[i]->Some_0;
        assert(all[k] == before[k]);
    }
}

pub(crate) proof fn lemma_sorted_covers<T>(items: Seq<Option<(i64, T)>>, i: int)
    requires
        0 <= i < items.len(),
        items[i] is Some,
    ensures
        unranked(sort_ranked(present(items))).contains(items[i]->Some_0.1),
{
    broadcast use vstd::seq_lib::group_to_multiset_ensures;

    let x = items[i]->Some_0;
    lemma_present_covers(items, items.len(), i);
    lemma_sort_permutes(present(items));
    let sorted = sort_ranked(present(items));
    assert(present(items).to_multiset().contains(x));
    assert(sorted.to_multiset().contains(x));
    assert(sorted.contains(x));
    let k = choose|k: int| 0 <= k < sorted.len() && sorted[k] == x;
    assert(unranked(sorted)[k] == x.1);
}

pub(crate) proof fn lemma_sorted_entry<T>(items: Seq<Option<(i64, T)>>, k: int) -> (i: int)
    requires
        0 <= k < unranked(sort_ranked(present(items))).len(),
    ensures
        0 <= i < items.len(),
        items[i] is Some,
        items[i]->Some_0.1 == unranked(sort_ranked(present(items)))[k],
{
    broadcast use vstd::seq_lib::group_to_multiset_ensures;

    let sorted = sort_ranked(present(items));
    lemma_sort_permutes(present(items));
    assert(sorted.contains(sorted[k]));
    assert(sorted.to_multiset().contains(sorted[k]));
    assert(present(items).contains(sorted[k]));
    let j = choose|j: int| 0 <= j < present(items).len() && present(items)[j] == sorted[k];
    lemma_present_from(items, items.len(), j);
    choose|i: int| 0 <= i < items.len() && #[trigger] items[i] == Some(sorted[k])
}

/// The number of DPB slots that a size asks for, which are all if it is negative or more
/// than there are.
pub proof fn law_size_of_a_search(dpb_size: i8)
    ensures
        0 <= dpb_size <= 16 ==> entries_in(dpb_size) == dpb_size,
        dpb_size < 0 || dpb_size > 16 ==> entries_in(dpb_size) == 16,
{
}

/// L0 of a P-frame lists the references of the DPB and no others: each entry tells of the
/// picture in its slot, and every slot that holds a reference has an entry. A picture number
/// is the frame number; one above that of the current frame is lowered by the range.
pub proof fn law_p_frame_list_holds_the_references(
    dpb: Seq<DpbEntry>,
    dpb_size: i8,
    current: u32,
    max_frame_num: u32,
    i: int,
    k: int,
)
    requires
        0 <= i < entries_in(dpb_size),
        current < 0x8000_0000,
        max_frame_num < 0x8000_0000,
        forall|j: int|
            0 <= j < entries_in(dpb_size) ==> (#[trigger] dpb[j]).frame_num < 0x8000_0000,
    ensures
        ({
            let list = p_frame_list(dpb, dpb_size, current, max_frame_num);
            let n = entries_in(dpb_size);
            &&& 0 <= k < list.len() ==> {
                &&& tells_its_slot(list[k], dpb, n)
                &&& !list[k].is_long_term ==> list[k].pic_num == if list[k].frame_num > current {
                    list[k].frame_num - max_frame_num
                } else {
                    list[k].frame_num as int
                }
            }
            &&& lists_slot(list, i, false) <==> marked_as(dpb[i], MarkingState::ShortTerm)
            &&& lists_slot(list, i, true) <==> marked_as(dpb[i], MarkingState::LongTerm)
        }),
{
    let n = entries_in(dpb_size);
    let st = p_short_term(dpb, n, current, max_frame_num);
    let lt = ranked_long_term(dpb, n);
    let shorts = in_rank_order(st);
    let longs = in_rank_order(lt);
    let list = p_frame_list(dpb, dpb_size, current, max_frame_num);
    assert forall|l: int| 0 <= l < list.len() implies tells_its_slot(#[trigger] list[l], dpb, n)
        && (!list[l].is_long_term ==> list[l].pic_num == if list[l].frame_num > current {
        list[l].frame_num - max_frame_num
    } else {
        list[l].frame_num as int
    }) by {
        if l < shorts.len() {
            let j = lemma_sorted_entry(st, l);
            assert(list[l] == shorts[l]);
            assert(dpb[j].frame_num < 0x8000_0000);
        } else {
            let j = lemma_sorted_entry(lt, l - shorts.len());
            assert(list[l] == longs[l - shorts.len()]);
        }
    }
    if marked_as(dpb[i], MarkingState::ShortTerm) {
        assert(st[i] is Some);
        lemma_sorted_covers(st, i);
        let l = choose|l: int| 0 <= l < shorts.len() && shorts[l] == st[i]->Some_0.1;
        assert(list[l].dpb_index == i);
    }
    if marked_as(dpb[i], MarkingState::LongTerm) {
        assert(lt[i] is Some);
        lemma_sorted_covers(lt, i);
        let l = choose|l: int| 0 <= l < longs.len() && longs[l] == lt[i]->Some_0.1;
        assert(list[shorts.len() + l].dpb_index == i);
    }
}

/// L0 of a B-frame, and with it L1, lists the references of the DPB other than a short-term
/// one at the same place in output order, and no others.
pub proof fn law_b_frame_list_holds_the_references(
    dpb: Seq<DpbEntry>,
    dpb_size: i8,
    poc: i32,
    i: int,
    k: int,
)
    requires
        0 <= i < entries_in(dpb_size),
    ensures
        ({
            let list = b_frame_list0(dpb, dpb_size, poc);
            let n = entries_in(dpb_size);
            &&& 0 <= k < list.len() ==> {
                &&& tells_its_slot(list[k], dpb, n)
                &&& !list[k].is_long_term ==> list[k].pic_num
                    == dpb[list[k].dpb_index as int].top_pic_num
            }
            &&& lists_slot(list, i, false) <==> marked_as(dpb[i], MarkingState::ShortTerm)
                && dpb[i].pic_order_cnt != poc
            &&& lists_slot(list, i, true) <==> marked_as(dpb[i], MarkingState::LongTerm)
        }),
{
    let n = entries_in(dpb_size);
    let before = b_before(dpb, n, poc);
    let after = b_after(dpb, n, poc);
    let lt = ranked_long_term(dpb, n);
    let a = in_rank_order(before);
    let b = in_rank_order(after);
    let c = in_rank_order(lt);
    let list = b_frame_list0(dpb, dpb_size, poc);
    assert forall|l: int| 0 <= l < list.len() implies tells_its_slot(#[trigger] list[l], dpb, n)
        && (!list[l].is_long_term ==> list[l].pic_num == dpb[list[l].dpb_index as int].top_pic_num
        && list[l].poc != poc) by {
        if l < a.len() {
            let j = lemma_sorted_entry(before, l);
            assert(list[l] == a[l]);
        } else if l < a.len() + b.len() {
            let j = lemma_sorted_entry(after, l - a.len());
            assert(list[l] == b[l - a.len()]);
        } else {
            let j = lemma_sorted_entry(lt, l - a.len() - b.len());
            assert(list[l] == c[l - a.len() - b.len()]);
        }
    }
    if marked_as(dpb[i], MarkingState::ShortTerm) && dpb[i].pic_order_cnt < poc {
        assert(before[i] is Some);
        lemma_sorted_covers(before, i);
        let l = choose|l: int| 0 <= l < a.len() && a[l] == before[i]->Some_0.1;
        assert(list[l].dpb_index == i);
    }
    if marked_as(dpb[i], MarkingState::ShortTerm) && dpb[i].pic_order_cnt > poc {
        assert(after[i] is Some);
        lemma_sorted_covers(after, i);
        let l = choose|l: int| 0 <= l < b.len() && b[l] == after[i]->Some_0.1;
        assert(list[a.len() + l].dpb_index == i);
    }
    if marked_as(dpb[i], MarkingState::LongTerm) {
        assert(lt[i] is Some);
        lemma_sorted_covers(lt, i);
        let l = choose|l: int| 0 <= l < c.len() && c[l] == lt[i]->Some_0.1;
        assert(list[a.len() + b.len() + l].dpb_index == i);
    }
}

/// The first `count` entries of a part of a reference picture set name slots of a DPB of
/// this size, and the others name none.
pub open spec fn names_slots(part: Seq<i8>, count: nat, dpb_size: i8) -> bool {
    &&& count <= part.len()
    &&& forall|i: int| 0 <= i < count ==> 0 <= #[trigger] part[i] < dpb_size
    &&& forall|i: int| count <= i < part.len() ==> #[trigger] part[i] < 0
}

proof fn lemma_slots_present(part: Seq<i8>, count: nat, dpb_size: i8, is_long_term: bool, n: nat)
    requires
        names_slots(part, count, dpb_size),
        n <= part.len(),
    ensures
        present_upto(part.map_values(|x: i8| slot_candidate(x, is_long_term)), n) =~= Seq::new(
            if n < count {
                n
            } else {
                count
            },
            |i: int| (part[i], is_long_term),
        ),
    decreases n,
{
    if n > 0 {
        lemma_slots_present(part, count, dpb_size, is_long_term, (n - 1) as nat);
        if n - 1 < count {
            assert(0 <= part[n - 1]);
        } else {
            assert(part[n - 1] < 0);
        }
    }
}

/// The slot that stands at a place of three parts of a reference picture set, one after the
/// other.
pub open spec fn slot_in_turn(
    first: Seq<i8>,
    first_count: nat,
    second: Seq<i8>,
    second_count: nat,
    third: Seq<i8>,
    place: int,
) -> i8 {
    if place < first_count {
        first[place]
    } else if place < first_count + second_count {
        second[place - first_count]
    } else {
        third[place - first_count - second_count]
    }
}

proof fn lemma_candidates_in_turn(
    first: Seq<i8>,
    first_count: nat,
    second: Seq<i8>,
    second_count: nat,
    third: Seq<i8>,
    third_count: nat,
    dpb_size: i8,
)
    requires
        names_slots(first, first_count, dpb_size),
        names_slots(second, second_count, dpb_size),
        names_slots(third, third_count, dpb_size),
    ensures
        ({
            let cands = rps_candidates(first, second, third);
            &&& cands.len() == first_count + second_count + third_count
            &&& forall|p: int|
                0 <= p < cands.len() ==> {
                    &&& (#[trigger] cands[p]).0 == slot_in_turn(
                        first,
                        first_count,
                        second,
                        second_count,
                        third,
                        p,
                    )
                    &&& cands[p].1 == (p >= first_count + second_count)
                    &&& 0 <= cands[p].0 < dpb_size
                }
        }),
{
    lemma_slots_present(first, first_count, dpb_size, false, first.len());
    lemma_slots_present(second, second_count, dpb_size, false, second.len());
    lemma_slots_present(third, third_count, dpb_size, true, third.len());
}

/// A list of an H.265 picture goes through the parts of the reference picture set in turn,
/// and starts over until it has as many entries as are active, or all references, up to its
/// capacity. Each entry tells of the picture in its slot.
pub open spec fn goes_in_turn(
    list: Seq<ReferencePicture>,
    dpb: Seq<DpbEntry>,
    first: Seq<i8>,
    first_count: nat,
    second: Seq<i8>,
    second_count: nat,
    third: Seq<i8>,
    third_count: nat,
    active: int,
) -> bool {
    let total = first_count + second_count + third_count;
    let wanted = if active > total {
        active
    } else {
        total as int
    };
    &&& list.len() == if wanted > 32 {
        32
    } else {
        wanted
    }
    &&& forall|r: int|
        0 <= r < list.len() ==> {
            let place = r % (total as int);
            let slot = slot_in_turn(first, first_count, second, second_count, third, place);
            let e = dpb[slot as int];
            &&& (#[trigger] list[r]).dpb_index == slot
            &&& list[r].poc == e.pic_order_cnt
            &&& list[r].frame_num == e.frame_num
            &&& list[r].is_long_term == (place >= first_count + second_count)
            &&& list[r].is_long_term ==> list[r].long_term_pic_num == e.long_term_frame_idx
                && list[r].pic_num == 0
            &&& !list[r].is_long_term ==> list[r].long_term_pic_num == 0 && list[r].pic_num
                == e.top_pic_num
        }
}

proof fn lemma_goes_in_turn(
    dpb: Seq<DpbEntry>,
    dpb_size: i8,
    first: Seq<i8>,
    first_count: nat,
    second: Seq<i8>,
    second_count: nat,
    third: Seq<i8>,
    third_count: nat,
    minus1: int,
)
    requires
        names_slots(first, first_count, dpb_size),
        names_slots(second, second_count, dpb_size),
        names_slots(third, third_count, dpb_size),
        first_count + second_count + third_count > 0,
        minus1 >= 0,
    ensures
        ({
            let cands = rps_candidates(first, second, third);
            goes_in_turn(
                capped(
                    listed(
                        dpb,
                        dpb_size,
                        cands,
                        list_length(minus1, cands.len()),
                    ),
                ),
                dpb,
                first,
                first_count,
                second,
                second_count,
                third,
                third_count,
                minus1 + 1,
            )
        }),
{
    let cands = rps_candidates(first, second, third);
    lemma_candidates_in_turn(
        first,
        first_count,
        second,
        second_count,
        third,
        third_count,
        dpb_size,
    );
    let n = list_length(minus1, cands.len());
    lemma_listed_repeats(dpb, dpb_size, cands, n);
    let all = listed(dpb, dpb_size, cands, n);
    let list = capped(all);
    assert forall|r: int| 0 <= r < list.len() implies {
        let place = r % (cands.len() as int);
        let slot = slot_in_turn(first, first_count, second, second_count, third, place);
        let e = dpb[slot as int];
        &&& (#[trigger] list[r]).dpb_index == slot
        &&& list[r].poc == e.pic_order_cnt
        &&& list[r].frame_num == e.frame_num
        &&& list[r].is_long_term == (place >= first_count + second_count)
        &&& list[r].is_long_term ==> list[r].long_term_pic_num == e.long_term_frame_idx
            && list[r].pic_num == 0
        &&& !list[r].is_long_term ==> list[r].long_term_pic_num == 0 && list[r].pic_num
            == e.top_pic_num
    } by {
        let place = r % (cands.len() as int);
        vstd::arithmetic::div_mod::lemma_mod_bound(r, cands.len() as int);
        assert(list[r] == all[r]);
        assert(0 <= cands[place].0 < dpb_size);
    }
}

/// L0 of a P or B picture goes through the references before the picture, those after it,
/// and the long-term references; L1 of a B picture goes through those after it first. Other
/// pictures have no references.
pub proof fn law_lists_go_through_the_set(
    dpb: Seq<DpbEntry>,
    dpb_size: i8,
    pic_type: PictureType,
    before: Seq<i8>,
    before_count: nat,
    after: Seq<i8>,
    after_count: nat,
    lt: Seq<i8>,
    lt_count: nat,
    minus1: int,
)
    requires
        names_slots(before, before_count, dpb_size),
        names_slots(after, after_count, dpb_size),
        names_slots(lt, lt_count, dpb_size),
        before_count + after_count + lt_count > 0,
        minus1 >= 0,
    ensures
        ({
            let l0 = h265_list0(
                dpb,
                dpb_size,
                pic_type,
                rps_candidates(before, after, lt),
                minus1,
            );
            let l1 = h265_list1(
                dpb,
                dpb_size,
                pic_type,
                rps_candidates(after, before, lt),
                minus1,
            );
            &&& pic_type == PictureType::P || pic_type == PictureType::B ==> goes_in_turn(
                l0,
                dpb,
                before,
                before_count,
                after,
                after_count,
                lt,
                lt_count,
                minus1 + 1,
            )
            &&& pic_type == PictureType::Idr || pic_type == PictureType::I ==> l0.len() == 0
            &&& pic_type == PictureType::B ==> goes_in_turn(
                l1,
                dpb,
                after,
                after_count,
                before,
                before_count,
                lt,
                lt_count,
                minus1 + 1,
            )
            &&& pic_type != PictureType::B ==> l1.len() == 0
        }),
{
    lemma_goes_in_turn(
        dpb,
        dpb_size,
        before,
        before_count,
        after,
        after_count,
        lt,
        lt_count,
        minus1,
    );
    lemma_goes_in_turn(
        dpb,
        dpb_size,
        after,
        after_count,
        before,
        before_count,
        lt,
        lt_count,
        minus1,
    );
}

/// As many references are active as are asked for, but at least one, and where that is
/// limited no more than there are, if there are any.
pub proof fn law_active_count(num_ref: u32, limited: bool, available: nat)
    requires
        num_ref <= 256,
        available <= 256,
    ensures
        ({
            let active = active_minus1(num_ref, limited, available) + 1;
            let asked = if num_ref == 0 {
                1int
            } else {
                num_ref as int
            };
            &&& !limited ==> active == asked
            &&& limited && asked <= available ==> active == asked
            &&& limited && 0 < available < asked ==> active == available
            &&& limited && available == 0 ==> active == 1
        }),
{
}

/// The lists of a picture go through its reference picture set, L0 through the references
/// before the picture first, and L1, which only a B picture has, through those after it. As
/// many are active as were asked for; where a picture may have several references, no more
/// than the part that the list starts with has.
pub proof fn law_lists_of_a_set(
    m: DpbModel,
    pic_type: PictureType,
    set: RefPicSet,
    num_ref_l0: u32,
    num_ref_l1: u32,
    l0: ReferenceList,
    l1: ReferenceList,
)
    requires
        m.well_formed(),
        lists_set_up(m, pic_type, set, num_ref_l0, num_ref_l1, l0, l1),
        names_slots(set.st_curr_before@, set.num_st_curr_before as nat, m.size as i8),
        names_slots(set.st_curr_after@, set.num_st_curr_after as nat, m.size as i8),
        names_slots(set.lt_curr@, set.num_lt_curr as nat, m.size as i8),
        set.num_st_curr_before + set.num_st_curr_after + set.num_lt_curr > 0,
        1 <= num_ref_l0 <= 16,
        1 <= num_ref_l1 <= 16,
    ensures
        ({
            let before = set.num_st_curr_before as nat;
            let after = set.num_st_curr_after as nat;
            let b = pic_type == PictureType::B;
            let active0 = l0.num_ref_idx_active_minus1 + 1;
            let active1 = l1.num_ref_idx_active_minus1 + 1;
            &&& pic_type == PictureType::P || b ==> goes_in_turn(
                l0@,
                m.slots,
                set.st_curr_before@,
                before,
                set.st_curr_after@,
                after,
                set.lt_curr@,
                set.num_lt_curr as nat,
                active0,
            )
            &&& b ==> goes_in_turn(
                l1@,
                m.slots,
                set.st_curr_after@,
                after,
                set.st_curr_before@,
                before,
                set.lt_curr@,
                set.num_lt_curr as nat,
                active1,
            )
            &&& pic_type == PictureType::Idr || pic_type == PictureType::I ==> l0@.len() == 0
            &&& !b ==> l1@.len() == 0
            &&& active0 == if m.multiple_refs && 0 < before < num_ref_l0 {
                before as int
            } else if m.multiple_refs && before == 0 {
                1int
            } else {
                num_ref_l0 as int
            }
            &&& active1 == if m.multiple_refs && b && 0 < after < num_ref_l1 {
                after as int
            } else if m.multiple_refs && b && after == 0 {
                1int
            } else {
                num_ref_l1 as int
            }
        }),
{
    let before = set.st_curr_before@;
    let after = set.st_curr_after@;
    let lt = set.lt_curr@;
    let size = m.size as i8;
    let b = pic_type == PictureType::B;
    lemma_slots_present(before, set.num_st_curr_before as nat, size, false, before.len());
    lemma_slots_present(after, set.num_st_curr_after as nat, size, false, after.len());
    let minus1_l0 = l0.num_ref_idx_active_minus1 as int;
    let minus1_l1 = l1.num_ref_idx_active_minus1 as int;
    law_active_count(num_ref_l0, m.multiple_refs, set.num_st_curr_before as nat);
    law_active_count(num_ref_l1, m.multiple_refs && b, set.num_st_curr_after as nat);
    law_lists_go_through_the_set(
        m.slots,
        size,
        pic_type,
        before,
        set.num_st_curr_before as nat,
        after,
        set.num_st_curr_after as nat,
        lt,
        set.num_lt_curr as nat,
        minus1_l0,
    );
    law_lists_go_through_the_set(
        m.slots,
        size,
        pic_type,
        before,
        set.num_st_curr_before as nat,
        after,
        set.num_st_curr_after as nat,
        lt,
        set.num_lt_curr as nat,
        minus1_l1,
    );
    let pics0 = h265_list0(m.slots, size, pic_type, rps_candidates(before, after, lt), minus1_l0);
    let pics1 = h265_list1(m.slots, size, pic_type, rps_candidates(after, before, lt), minus1_l1);
    assert(l0@ =~= pics0);
    assert(l1@ =~= pics1);
}

} // verus!
