//! Reference picture sets that are built from the DPB and applied to it.

use super::entry::{DpbEntry, DpbState, MarkingState};
use super::h265::{set_applied, DpbModel};
use super::laws::{codable, law_rps_gives_back_pocs, nearest_pocs};
use super::list_laws::{lemma_sorted_covers, lemma_sorted_entry};
use super::picture_laws::{law_long_term_reference_is_found, law_short_term_reference_is_found};
use super::rps::{
    codes, distance, kept_negative, kept_positive, lemma_ranks_match_deltas, long_term_slots,
    nearest_first, negative_refs, positive_refs, rps_eligible, rps_poc, short_term_slot,
    short_term_slots, used_bit, used_lsbs, used_pocs,
};
use super::select::{
    lemma_first_true, lemma_present_from, lemma_present_len, lemma_sort_permutes, present,
    present_upto, sort_ranked,
};
use super::types::{RefPicSet, ShortTermRefPicSet};
use super::{MAX_DPB_SIZE, MAX_REF_LIST_SIZE};
use vstd::prelude::*;

verus! {

/// No two short-term references have the same POC.
pub open spec fn distinct_pocs(slots: Seq<DpbEntry>, n: int) -> bool {
    forall|i: int, j: int|
        0 <= i < j < n && (#[trigger] slots[i]).short_term() && (#[trigger] slots[j]).short_term()
            ==> slots[i].pic_order_cnt != slots[j].pic_order_cnt
}

/// Each reference is at most 256 further away than the one before it, and the first
/// at most 256 away from the current picture.
pub open spec fn close(deltas: Seq<i32>, after: bool) -> bool {
    forall|i: int|
        0 <= i < deltas.len() ==> {
            let prev = if i == 0 {
                0int
            } else {
                deltas[i - 1] as int
            };
            let gap = if after {
                (#[trigger] deltas[i]) - prev
            } else {
                prev - deltas[i]
            };
            gap <= 256
        }
}

/// POC distances of the references before a picture, nearest first.
pub open spec fn distances_before(m: DpbModel, poc: i32, temporal_id: i32) -> Seq<i32> {
    nearest_first(negative_refs(m.slots, m.size, poc, temporal_id))
}

/// POC distances of the references after a picture, nearest first.
pub open spec fn distances_after(m: DpbModel, poc: i32, temporal_id: i32) -> Seq<i32> {
    nearest_first(positive_refs(m.slots, m.size, poc, temporal_id, m.multiple_refs))
}

/// The slots of one side of a set: as many as are used, all found, with distinct
/// short-term references whose POCs lead away from the current picture.
pub open spec fn found_in_full(
    m: DpbModel,
    poc: i32,
    slots: Seq<i8>,
    used: int,
    after: bool,
) -> bool {
    &&& slots.len() == used
    &&& forall|k: int|
        0 <= k < slots.len() ==> {
            &&& 0 <= #[trigger] slots[k] < m.size
            &&& m.slots[slots[k] as int].short_term()
            &&& if after {
                m.slots[slots[k] as int].pic_order_cnt > poc
            } else {
                m.slots[slots[k] as int].pic_order_cnt < poc
            }
        }
    &&& forall|k: int, l: int|
        0 <= k < l < slots.len() ==> {
            &&& #[trigger] slots[k] != #[trigger] slots[l]
            &&& if after {
                m.slots[slots[k] as int].pic_order_cnt < m.slots[slots[l] as int].pic_order_cnt
            } else {
                m.slots[slots[k] as int].pic_order_cnt > m.slots[slots[l] as int].pic_order_cnt
            }
        }
}

proof fn lemma_present_distinct<T>(items: Seq<Option<T>>, n: nat)
    requires
        n <= items.len(),
        forall|i: int, j: int|
            0 <= i < j < items.len() && (#[trigger] items[i]) is Some && (#[trigger] items[j]) is Some
                ==> items[i] != items[j],
    ensures
        present_upto(items, n).no_duplicates(),
    decreases n,
{
    if n > 0 {
        let before = present_upto(items, (n - 1) as nat);
        lemma_present_distinct(items, (n - 1) as nat);
        if items[n - 1] is Some {
            assert forall|k: int| 0 <= k < before.len() implies #[trigger] before[k]
                != items[n - 1]->0 by {
                lemma_present_from(items, (n - 1) as nat, k);
                let i = choose|i: int| 0 <= i < n - 1 && #[trigger] items[i] == Some(before[k]);
                assert(items[i] != items[n - 1]);
            }
        }
    }
}

/// A short-term reference with this POC stands in a slot.
spec fn stands(slots: Seq<DpbEntry>, n: int, poc: int) -> bool {
    exists|i: int|
        0 <= i < n && (#[trigger] slots[i]).short_term() && slots[i].pic_order_cnt == poc
}

/// One side of a set, with the rank and the distance of each reference.
spec fn one_side(
    items: Seq<Option<(i64, i32)>>,
    slots: Seq<DpbEntry>,
    n: int,
    poc: i32,
    after: bool,
) -> bool {
    &&& items.len() == n
    &&& forall|i: int|
        0 <= i < n && (#[trigger] items[i]) is Some ==> ({
            let x = items[i]->0;
            &&& slots[i].short_term()
            &&& x.1 == slots[i].pic_order_cnt - poc
            &&& x.0 == if after {
                x.1 + poc
            } else {
                -(x.1 + poc)
            }
            &&& if after {
                x.1 > 0
            } else {
                x.1 < 0
            }
        })
}

/// The references of one side stand in slots, and each is further away than the one
/// before it.
proof fn lemma_nearest(
    items: Seq<Option<(i64, i32)>>,
    slots: Seq<DpbEntry>,
    n: int,
    poc: i32,
    after: bool,
)
    requires
        0 <= n <= slots.len(),
        one_side(items, slots, n, poc, after),
        distinct_pocs(slots, n),
    ensures
        ({
            let d = nearest_first(items);
            &&& d.len() <= n
            &&& forall|k: int|
                0 <= k < d.len() ==> stands(slots, n, poc + #[trigger] d[k])
            &&& forall|k: int|
                0 <= k < d.len() ==> if after {
                    #[trigger] d[k] > 0
                } else {
                    d[k] < 0
                }
            &&& forall|k: int, l: int|
                0 <= k < l < d.len() ==> if after {
                    #[trigger] d[k] < #[trigger] d[l]
                } else {
                    d[k] > d[l]
                }
        }),
{
    broadcast use vstd::seq_lib::group_to_multiset_ensures;

    let p = present(items);
    let s = sort_ranked(p);
    let d = nearest_first(items);
    assert forall|i: int, j: int|
        0 <= i < j < items.len() && (#[trigger] items[i]) is Some && (
        #[trigger] items[j]) is Some implies items[i] != items[j] by {
        assert(slots[i].pic_order_cnt != slots[j].pic_order_cnt);
    }
    lemma_present_distinct(items, items.len());
    lemma_present_len(items, items.len());
    lemma_sort_permutes(p);
    p.lemma_multiset_has_no_duplicates();
    s.lemma_multiset_has_no_duplicates_conv();
    lemma_ranks_match_deltas(items, poc, !after);
    assert(s.len() == p.len());
    assert(d.len() == s.len());
    assert forall|k: int| 0 <= k < s.len() implies exists|i: int|
        0 <= i < n && #[trigger] items[i] == Some(#[trigger] s[k]) by {
        assert(s.to_multiset().contains(s[k]));
        assert(p.contains(s[k]));
        let j = choose|j: int| 0 <= j < p.len() && p[j] == s[k];
        lemma_present_from(items, items.len(), j);
    }
    assert forall|k: int| 0 <= k < d.len() implies stands(slots, n, poc + #[trigger] d[k]) by {
        let i = choose|i: int| 0 <= i < n && #[trigger] items[i] == Some(s[k]);
        assert(items[i] is Some);
        assert(d[k] == s[k].1);
        assert(slots[i].short_term());
    }
    assert forall|k: int, l: int| 0 <= k < l < d.len() implies if after {
        #[trigger] d[k] < #[trigger] d[l]
    } else {
        d[k] > d[l]
    } by {
        let i = choose|i: int| 0 <= i < n && #[trigger] items[i] == Some(s[k]);
        let j = choose|j: int| 0 <= j < n && #[trigger] items[j] == Some(s[l]);
        assert(items[i] is Some && items[j] is Some);
        assert(s[k] != s[l]);
        assert(s[k].1 != s[l].1);
    }
    assert forall|k: int| 0 <= k < d.len() implies if after {
        #[trigger] d[k] > 0
    } else {
        d[k] < 0
    } by {
        assert(d[k] == s[k].1);
    }
}

/// These are POC distances of references that stand in slots, each further away than the
/// one before it.
spec fn leads_away(m: DpbModel, poc: i32, all: Seq<i32>, after: bool) -> bool {
    &&& all.len() <= m.size
    &&& forall|k: int|
        0 <= k < all.len() ==> stands(m.slots, m.size, poc + #[trigger] all[k])
    &&& forall|k: int|
        0 <= k < all.len() ==> if after {
            #[trigger] all[k] > 0
        } else {
            all[k] < 0
        }
    &&& forall|k: int, l: int|
        0 <= k < l < all.len() ==> if after {
            #[trigger] all[k] < #[trigger] all[l]
        } else {
            all[k] > all[l]
        }
}

proof fn lemma_side_is_found(
    m: DpbModel,
    poc: i32,
    all: Seq<i32>,
    kept: Seq<i32>,
    num_ref: u32,
    after: bool,
)
    requires
        m.well_formed(),
        kept.len() <= all.len(),
        forall|k: int| 0 <= k < kept.len() ==> #[trigger] kept[k] == all[k],
        leads_away(m, poc, all, after),
    ensures
        found_in_full(
            m,
            poc,
            short_term_slots(m.slots, m.size, nearest_pocs(poc, kept, num_ref)),
            if num_ref < kept.len() {
                num_ref as int
            } else {
                kept.len() as int
            },
            after,
        ),
{
    let pocs = nearest_pocs(poc, kept, num_ref);
    let slots = short_term_slots(m.slots, m.size, pocs);
    assert forall|k: int| 0 <= k < slots.len() implies 0 <= #[trigger] slots[k] < m.size
        && m.slots[slots[k] as int].short_term() && m.slots[slots[k] as int].pic_order_cnt
        == poc + all[k] by {
        assert(kept[k] == all[k]);
        assert(stands(m.slots, m.size, poc + all[k]));
        let w = choose|i: int|
            0 <= i < m.size && (#[trigger] m.slots[i]).short_term() && m.slots[i].pic_order_cnt
                == poc + all[k];
        let wanted = pocs[k];
        assert(m.slots[w].pic_order_cnt == wanted);
        let flags = Seq::new(
            m.size as nat,
            |d: int| m.slots[d].short_term() && m.slots[d].pic_order_cnt == wanted,
        );
        lemma_first_true(flags);
        assert(flags[w]);
        assert(slots[k] == short_term_slot(m.slots, m.size, wanted));
    }
    assert forall|k: int, l: int| 0 <= k < l < slots.len() implies {
        &&& #[trigger] slots[k] != #[trigger] slots[l]
        &&& if after {
            m.slots[slots[k] as int].pic_order_cnt < m.slots[slots[l] as int].pic_order_cnt
        } else {
            m.slots[slots[k] as int].pic_order_cnt > m.slots[slots[l] as int].pic_order_cnt
        }
    } by {
        assert(if after {
            all[k] < all[l]
        } else {
            all[k] > all[l]
        });
    }
}

proof fn lemma_codable(all: Seq<i32>, kept: Seq<i32>, after: bool)
    requires
        kept.len() <= all.len() <= MAX_DPB_SIZE,
        forall|k: int| 0 <= k < kept.len() ==> #[trigger] kept[k] == all[k],
        close(all, after),
        forall|k: int|
            0 <= k < all.len() ==> if after {
                #[trigger] all[k] > 0
            } else {
                all[k] < 0
            },
        forall|k: int, l: int|
            0 <= k < l < all.len() ==> if after {
                #[trigger] all[k] < #[trigger] all[l]
            } else {
                all[k] > all[l]
            },
    ensures
        codable(kept, after),
{
    assert forall|i: int| 0 <= i < kept.len() implies {
        let prev = if i == 0 {
            0int
        } else {
            kept[i - 1] as int
        };
        let gap = if after {
            (#[trigger] kept[i]) - prev
        } else {
            prev - kept[i]
        };
        1 <= gap <= 256
    } by {
        assert(kept[i] == all[i]);
        if i > 0 {
            assert(kept[i - 1] == all[i - 1]);
            assert(if after {
                all[i - 1] < all[i]
            } else {
                all[i - 1] > all[i]
            });
        }
    }
}

/// The short-term references can be coded without loss in a set for a picture at `poc`:
/// their POCs are distinct, and no two successive ones too far apart.
pub open spec fn references_codable(m: DpbModel, poc: i32, temporal_id: i32) -> bool {
    &&& m.well_formed()
    &&& distinct_pocs(m.slots, m.size)
    &&& forall|i: int|
        0 <= i < m.size && rps_eligible(#[trigger] m.slots[i], temporal_id) ==> i32::MIN
            <= m.slots[i].pic_order_cnt - poc <= i32::MAX
    &&& close(distances_before(m, poc, temporal_id), false)
    &&& close(distances_after(m, poc, temporal_id), true)
}

/// The set is the one that is built from the DPB for a picture at `poc`.
pub open spec fn built(
    m: DpbModel,
    poc: i32,
    temporal_id: i32,
    num_ref_l0: u32,
    num_ref_l1: u32,
    rps: ShortTermRefPicSet,
) -> bool {
    let neg = distances_before(m, poc, temporal_id);
    let pos = distances_after(m, poc, temporal_id);
    codes(
        rps,
        kept_negative(m.size, neg, pos),
        kept_positive(m.size, neg, pos),
        num_ref_l0,
        num_ref_l1,
    )
}

proof fn lemma_sides(m: DpbModel, poc: i32, temporal_id: i32)
    requires
        references_codable(m, poc, temporal_id),
    ensures
        ({
            let neg = distances_before(m, poc, temporal_id);
            let pos = distances_after(m, poc, temporal_id);
            let kept_neg = kept_negative(m.size, neg, pos);
            let kept_pos = kept_positive(m.size, neg, pos);
            &&& leads_away(m, poc, neg, false)
            &&& leads_away(m, poc, pos, true)
            &&& codable(kept_neg, false)
            &&& codable(kept_pos, true)
            &&& forall|i: int|
                0 <= i < kept_neg.len() ==> i32::MIN <= poc + #[trigger] kept_neg[i] <= i32::MAX
            &&& forall|i: int|
                0 <= i < kept_pos.len() ==> i32::MIN <= poc + #[trigger] kept_pos[i] <= i32::MAX
        }),
{
    let neg_items = negative_refs(m.slots, m.size, poc, temporal_id);
    let pos_items = positive_refs(m.slots, m.size, poc, temporal_id, m.multiple_refs);
    let neg = distances_before(m, poc, temporal_id);
    let pos = distances_after(m, poc, temporal_id);
    let kept_neg = kept_negative(m.size, neg, pos);
    let kept_pos = kept_positive(m.size, neg, pos);
    assert(one_side(neg_items, m.slots, m.size, poc, false)) by {
        assert forall|i: int| 0 <= i < m.size && (#[trigger] neg_items[i]) is Some implies ({
            let x = neg_items[i]->0;
            &&& m.slots[i].short_term()
            &&& x.1 == m.slots[i].pic_order_cnt - poc
            &&& x.0 == -(x.1 + poc)
            &&& x.1 < 0
        }) by {
            assert(rps_eligible(m.slots[i], temporal_id));
        }
    }
    assert(one_side(pos_items, m.slots, m.size, poc, true)) by {
        assert forall|i: int| 0 <= i < m.size && (#[trigger] pos_items[i]) is Some implies ({
            let x = pos_items[i]->0;
            &&& m.slots[i].short_term()
            &&& x.1 == m.slots[i].pic_order_cnt - poc
            &&& x.0 == x.1 + poc
            &&& x.1 > 0
        }) by {
            assert(rps_eligible(m.slots[i], temporal_id));
        }
    }
    lemma_nearest(neg_items, m.slots, m.size, poc, false);
    lemma_nearest(pos_items, m.slots, m.size, poc, true);
    assert(leads_away(m, poc, neg, false));
    assert(leads_away(m, poc, pos, true));
    lemma_codable(neg, kept_neg, false);
    lemma_codable(pos, kept_pos, true);
    assert forall|i: int| 0 <= i < kept_neg.len() implies i32::MIN <= poc + #[trigger] kept_neg[i]
        <= i32::MAX by {
        assert(kept_neg[i] == neg[i]);
        assert(stands(m.slots, m.size, poc + neg[i]));
    }
    assert forall|i: int| 0 <= i < kept_pos.len() implies i32::MIN <= poc + #[trigger] kept_pos[i]
        <= i32::MAX by {
        assert(kept_pos[i] == pos[i]);
        assert(stands(m.slots, m.size, poc + pos[i]));
    }
}

/// A reference picture set that is built from the DPB can be applied to it: its POCs
/// have 32 bits.
pub proof fn law_built_set_can_be_applied(
    m: DpbModel,
    poc: i32,
    temporal_id: i32,
    num_ref_l0: u32,
    num_ref_l1: u32,
    rps: ShortTermRefPicSet,
)
    requires
        references_codable(m, poc, temporal_id),
        built(m, poc, temporal_id, num_ref_l0, num_ref_l1, rps),
    ensures
        rps.num_negative_pics <= MAX_DPB_SIZE,
        rps.num_positive_pics <= MAX_DPB_SIZE,
        forall|i: int|
            0 <= i < rps.num_negative_pics ==> i32::MIN <= #[trigger] rps_poc(
                poc,
                rps.delta_poc_s0_minus1@,
                false,
                i,
            ) <= i32::MAX,
        forall|i: int|
            0 <= i < rps.num_positive_pics ==> i32::MIN <= #[trigger] rps_poc(
                poc,
                rps.delta_poc_s1_minus1@,
                true,
                i,
            ) <= i32::MAX,
{
    let neg = distances_before(m, poc, temporal_id);
    let pos = distances_after(m, poc, temporal_id);
    let kept_neg = kept_negative(m.size, neg, pos);
    let kept_pos = kept_positive(m.size, neg, pos);
    lemma_sides(m, poc, temporal_id);
    law_rps_gives_back_pocs(rps, kept_neg, kept_pos, num_ref_l0, num_ref_l1, poc);
    assert forall|i: int| 0 <= i < rps.num_negative_pics implies i32::MIN <= #[trigger] rps_poc(
        poc,
        rps.delta_poc_s0_minus1@,
        false,
        i,
    ) <= i32::MAX by {
        assert(i32::MIN <= poc + kept_neg[i] <= i32::MAX);
    }
    assert forall|i: int| 0 <= i < rps.num_positive_pics implies i32::MIN <= #[trigger] rps_poc(
        poc,
        rps.delta_poc_s1_minus1@,
        true,
        i,
    ) <= i32::MAX by {
        assert(i32::MIN <= poc + kept_pos[i] <= i32::MAX);
    }
}

/// A reference picture set that is built from the DPB is found in the DPB in full: on
/// each side as many pictures as are in the set and were asked for, none of them
/// missing, in distinct slots, with POCs that lead away from the current picture.
/// Long-term references do not matter.
pub proof fn law_built_set_is_found_in_full(
    m: DpbModel,
    poc: i32,
    temporal_id: i32,
    num_ref_l0: u32,
    num_ref_l1: u32,
    rps: ShortTermRefPicSet,
    set: RefPicSet,
    long_term: Seq<i8>,
)
    requires
        references_codable(m, poc, temporal_id),
        built(m, poc, temporal_id, num_ref_l0, num_ref_l1, rps),
        set.holds(
            short_term_slots(
                m.slots,
                m.size,
                used_pocs(
                    poc,
                    rps.delta_poc_s0_minus1@,
                    false,
                    rps.used_by_curr_pic_s0_flag,
                    rps.num_negative_pics as nat,
                ),
            ),
            short_term_slots(
                m.slots,
                m.size,
                used_pocs(
                    poc,
                    rps.delta_poc_s1_minus1@,
                    true,
                    rps.used_by_curr_pic_s1_flag,
                    rps.num_positive_pics as nat,
                ),
            ),
            long_term,
        ),
    ensures
        found_in_full(
            m,
            poc,
            set.st_curr_before@.take(set.num_st_curr_before as int),
            if num_ref_l0 < rps.num_negative_pics {
                num_ref_l0 as int
            } else {
                rps.num_negative_pics as int
            },
            false,
        ),
        found_in_full(
            m,
            poc,
            set.st_curr_after@.take(set.num_st_curr_after as int),
            if num_ref_l1 < rps.num_positive_pics {
                num_ref_l1 as int
            } else {
                rps.num_positive_pics as int
            },
            true,
        ),
{
    let neg = distances_before(m, poc, temporal_id);
    let pos = distances_after(m, poc, temporal_id);
    let kept_neg = kept_negative(m.size, neg, pos);
    let kept_pos = kept_positive(m.size, neg, pos);
    lemma_sides(m, poc, temporal_id);
    law_rps_gives_back_pocs(rps, kept_neg, kept_pos, num_ref_l0, num_ref_l1, poc);
    lemma_side_is_found(m, poc, neg, kept_neg, num_ref_l0, false);
    lemma_side_is_found(m, poc, pos, kept_pos, num_ref_l1, true);
    let before = short_term_slots(m.slots, m.size, nearest_pocs(poc, kept_neg, num_ref_l0));
    let after = short_term_slots(m.slots, m.size, nearest_pocs(poc, kept_pos, num_ref_l1));
    assert(set.st_curr_before@.take(set.num_st_curr_before as int) =~= before);
    assert(set.st_curr_after@.take(set.num_st_curr_after as int) =~= after);
}

/// The slot holds a sound short-term reference that a picture of a temporal layer may use.
pub open spec fn usable_in_layer(e: DpbEntry, temporal_id: i32) -> bool {
    &&& e.state == DpbState::InUse
    &&& e.marking == MarkingState::ShortTerm
    &&& !e.corrupted
    &&& e.temporal_id <= temporal_id
}

proof fn lemma_deltas(items: Seq<Option<(i64, i32)>>, i: int, d: i32)
    requires
        0 <= i < items.len(),
    ensures
        items[i] is Some ==> nearest_first(items).contains(items[i]->Some_0.1),
        nearest_first(items).contains(d) ==> exists|j: int|
            0 <= j < items.len() && (#[trigger] items[j]) is Some && items[j]->Some_0.1 == d,
{
    if items[i] is Some {
        lemma_sorted_covers(items, i);
    }
    if nearest_first(items).contains(d) {
        let k = choose|k: int| 0 <= k < nearest_first(items).len() && nearest_first(items)[k] == d;
        let j = lemma_sorted_entry(items, k);
        assert(items[j] is Some);
    }
}

/// The references that a set is built from are the sound short-term references before the
/// picture, and those after it if it may have several, of its temporal layer or a lower
/// one; of each, its distance.
pub proof fn law_set_is_built_from_all_references(
    m: DpbModel,
    poc: i32,
    temporal_id: i32,
    i: int,
    d: i32,
)
    requires
        m.well_formed(),
        0 <= i < m.size,
        forall|j: int|
            0 <= j < m.size ==> i32::MIN <= (#[trigger] m.slots[j]).pic_order_cnt - poc <= i32::MAX,
    ensures
        ({
            let before = distances_before(m, poc, temporal_id);
            let after = distances_after(m, poc, temporal_id);
            let distance = (m.slots[i].pic_order_cnt - poc) as i32;
            let usable = usable_in_layer(m.slots[i], temporal_id);
            &&& usable && m.slots[i].pic_order_cnt < poc ==> before.contains(distance)
            &&& usable && m.slots[i].pic_order_cnt > poc && m.multiple_refs ==> after.contains(
                distance,
            )
            &&& before.contains(d) ==> d < 0 && exists|j: int|
                0 <= j < m.size && usable_in_layer(#[trigger] m.slots[j], temporal_id)
                    && m.slots[j].pic_order_cnt == poc + d
            &&& after.contains(d) ==> d > 0 && m.multiple_refs && exists|j: int|
                0 <= j < m.size && usable_in_layer(#[trigger] m.slots[j], temporal_id)
                    && m.slots[j].pic_order_cnt == poc + d
        }),
{
    let before = negative_refs(m.slots, m.size, poc, temporal_id);
    let after = positive_refs(m.slots, m.size, poc, temporal_id, m.multiple_refs);
    lemma_deltas(before, i, d);
    lemma_deltas(after, i, d);
    assert(i32::MIN <= m.slots[i].pic_order_cnt - poc <= i32::MAX);
    if nearest_first(before).contains(d) {
        let j = choose|j: int|
            0 <= j < before.len() && (#[trigger] before[j]) is Some && before[j]->Some_0.1 == d;
        assert(usable_in_layer(m.slots[j], temporal_id));
        assert(i32::MIN <= m.slots[j].pic_order_cnt - poc <= i32::MAX);
    }
    if nearest_first(after).contains(d) {
        let j = choose|j: int|
            0 <= j < after.len() && (#[trigger] after[j]) is Some && after[j]->Some_0.1 == d;
        assert(usable_in_layer(m.slots[j], temporal_id));
        assert(i32::MIN <= m.slots[j].pic_order_cnt - poc <= i32::MAX);
    }
}

/// References that leave a slot for the picture all go into its set. Otherwise the set
/// holds as many as do: those before the picture that are farthest go first, and those
/// after it only once none before it is left.
pub proof fn law_set_drops_the_farthest(n: int, before: Seq<i32>, after: Seq<i32>, i: int)
    requires
        n >= 1,
    ensures
        ({
            let kept_before = kept_negative(n, before, after);
            let kept_after = kept_positive(n, before, after);
            let total = before.len() + after.len();
            &&& total <= n - 1 ==> kept_before == before && kept_after == after
            &&& total > n - 1 ==> kept_before.len() + kept_after.len() == n - 1
            &&& kept_after.len() < after.len() ==> kept_before.len() == 0
            &&& 0 <= i < kept_before.len() ==> kept_before[i] == before[i]
            &&& 0 <= i < kept_after.len() ==> kept_after[i] == after[i]
        }),
{
    assert(before.take(before.len() as int) =~= before);
}

proof fn lemma_distance_grows(minus1: Seq<u8>, k: nat)
    ensures
        distance(minus1, k) >= k,
    decreases k,
{
    if k > 0 {
        lemma_distance_grows(minus1, (k - 1) as nat);
    }
}

/// A picture that is used on one side of the current one lies on that side.
proof fn lemma_side_of(
    poc: i32,
    minus1: Seq<u8>,
    after: bool,
    flags: u16,
    num: nat,
    k: int,
)
    requires
        forall|i: int|
            0 <= i < num ==> i32::MIN <= #[trigger] rps_poc(poc, minus1, after, i) <= i32::MAX,
        0 <= k < used_pocs(poc, minus1, after, flags, num).len(),
    ensures
        after ==> used_pocs(poc, minus1, after, flags, num)[k] > poc,
        !after ==> used_pocs(poc, minus1, after, flags, num)[k] < poc,
{
    let items = Seq::new(
        num,
        |i: int|
            if used_bit(flags, i) {
                Some(rps_poc(poc, minus1, after, i) as i32)
            } else {
                None
            },
    );
    lemma_present_from(items, num, k);
    let i = choose|i: int|
        0 <= i < num && #[trigger] items[i] == Some(present_upto(items, num)[k]);
    lemma_distance_grows(minus1, (i + 1) as nat);
    assert(i32::MIN <= rps_poc(poc, minus1, after, i) <= i32::MAX);
}

/// The slots that applying a set lists before the current picture hold short-term references
/// with lower picture order counts, those that it lists after it hold ones with higher
/// counts, and those of long-term references hold references. The pictures in them stay as
/// they are.
pub proof fn law_applied_set_lists_each_side(
    m: DpbModel,
    poc: i32,
    rps: ShortTermRefPicSet,
    num_long_term_pics: u32,
    long_term_poc_lsb: Seq<u32>,
    used_by_curr_pic_lt: u32,
    set: RefPicSet,
    next: DpbModel,
    k: int,
)
    requires
        m.well_formed(),
        set_applied(
            m,
            poc,
            rps,
            num_long_term_pics,
            long_term_poc_lsb,
            used_by_curr_pic_lt,
            set,
            next,
        ),
        forall|i: int|
            0 <= i < rps.num_negative_pics ==> i32::MIN <= #[trigger] rps_poc(
                poc,
                rps.delta_poc_s0_minus1@,
                false,
                i,
            ) <= i32::MAX,
        forall|i: int|
            0 <= i < rps.num_positive_pics ==> i32::MIN <= #[trigger] rps_poc(
                poc,
                rps.delta_poc_s1_minus1@,
                true,
                i,
            ) <= i32::MAX,
        0 <= k < MAX_REF_LIST_SIZE,
        m.size > 0,
    ensures
        ({
            let before = set.st_curr_before@[k];
            let after = set.st_curr_after@[k];
            let lt = set.lt_curr@[k];
            &&& k < set.num_st_curr_before && before >= 0 ==> {
                &&& m.slots[before as int].short_term()
                &&& m.slots[before as int].pic_order_cnt < poc
                &&& next.slots[before as int] == m.slots[before as int]
            }
            &&& k < set.num_st_curr_after && after >= 0 ==> {
                &&& m.slots[after as int].short_term()
                &&& m.slots[after as int].pic_order_cnt > poc
                &&& next.slots[after as int] == m.slots[after as int]
            }
            &&& k < set.num_lt_curr && lt >= 0 ==> {
                &&& m.slots[lt as int].short_term() || m.slots[lt as int].long_term()
                &&& next.slots[lt as int] == m.slots[lt as int]
            }
            &&& k >= set.num_st_curr_before ==> before == -1
            &&& k >= set.num_st_curr_after ==> after == -1
            &&& k >= set.num_lt_curr ==> lt == -1
        }),
{
    let before_pocs = used_pocs(
        poc,
        rps.delta_poc_s0_minus1@,
        false,
        rps.used_by_curr_pic_s0_flag,
        rps.num_negative_pics as nat,
    );
    let after_pocs = used_pocs(
        poc,
        rps.delta_poc_s1_minus1@,
        true,
        rps.used_by_curr_pic_s1_flag,
        rps.num_positive_pics as nat,
    );
    let num_lt = if num_long_term_pics < long_term_poc_lsb.len() {
        num_long_term_pics as nat
    } else {
        long_term_poc_lsb.len()
    };
    let lsbs = used_lsbs(long_term_poc_lsb, used_by_curr_pic_lt, num_lt);
    let before = short_term_slots(m.slots, m.size, before_pocs);
    let after = short_term_slots(m.slots, m.size, after_pocs);
    let lt = long_term_slots(m.slots, m.size, m.max_poc_lsb, lsbs);
    if k < before.len() {
        lemma_side_of(
            poc,
            rps.delta_poc_s0_minus1@,
            false,
            rps.used_by_curr_pic_s0_flag,
            rps.num_negative_pics as nat,
            k,
        );
        law_short_term_reference_is_found(m.slots, m.size, before_pocs[k], 0);
        assert(before.contains(before[k]));
    }
    if k < after.len() {
        lemma_side_of(
            poc,
            rps.delta_poc_s1_minus1@,
            true,
            rps.used_by_curr_pic_s1_flag,
            rps.num_positive_pics as nat,
            k,
        );
        law_short_term_reference_is_found(m.slots, m.size, after_pocs[k], 0);
        assert(after.contains(after[k]));
    }
    if k < lt.len() {
        law_long_term_reference_is_found(m.slots, m.size, m.max_poc_lsb, lsbs[k], 0);
        assert(lt.contains(lt[k]));
    }
}

} // verus!
