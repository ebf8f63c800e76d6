//! What holds of the DPB over any run of pictures.

use super::bumping::{
    all_in_use, bumped, change_first, dropped, empty_flags, flushed, lemma_bump_progress,
    long_term_slot_flags, next_output, none_in_use, output_keys, pending_flags, released,
    room_made, short_term_flags,
};
use super::entry::{DpbEntry, DpbState, MarkingState};
use super::h265::{
    after_picture_end, after_picture_start, can_start, chosen_slot, prepared, sequence_begun,
    DpbModel,
};
use super::laws::{law_free_slot_lets_start, law_window_leaves_a_slot};
use super::marking::other_short_term_keys;
use super::select::{
    count_true, lemma_count_bound, lemma_count_fewer, lemma_first_least, lemma_first_true,
};
use super::types::{DpbConfig, PictureStartInfo};
use super::{PictureType, MAX_DPB_SIZE};
use vstd::arithmetic::power2::pow2;
use vstd::prelude::*;

verus! {

/// What can be observed of a DPB after a sequence was started depends on the
/// configuration only: it has the slots that were asked for, as far as there are so
/// many, all of them empty, and no references.
pub proof fn law_sequence_start_forgets(m: DpbModel, config: DpbConfig, next: DpbModel)
    requires
        sequence_begun(m, config, next),
        config.dpb_size <= 127,
        config.log2_max_pic_order_cnt_lsb_minus4 <= 26,
    ensures
        next.well_formed(),
        next.size == if config.dpb_size < MAX_DPB_SIZE {
            config.dpb_size as int
        } else {
            MAX_DPB_SIZE as int
        },
        none_in_use(next.slots, next.size),
        next.current == -1,
        next.short_term_refs() == 0,
        next.long_term_refs() == 0,
        next.long_term_flags == 0,
        next.max_poc_lsb == pow2((config.log2_max_pic_order_cnt_lsb_minus4 + 4) as nat),
{
    let n = next.size as nat;
    let st = short_term_flags(next.slots, next.size);
    let lt = long_term_slot_flags(next.slots, next.size);
    assert forall|i: int| 0 <= i < n implies !st[i] && !lt[i] by {
        assert(next.slots[i].blank());
    }
    lemma_count_bound(st, n);
    lemma_count_bound(lt, n);
    assert forall|i: int| 0 <= i < n implies (#[trigger] next.slots[i]).state
        != DpbState::InUse by {
        assert(next.slots[i].blank());
    }
    vstd::arithmetic::power2::lemma2_to64();
    let shift = (config.log2_max_pic_order_cnt_lsb_minus4 + 4) as nat;
    if shift < 30 {
        vstd::arithmetic::power2::lemma_pow2_strictly_increases(shift, 30);
    }
    if shift > 4 {
        vstd::arithmetic::power2::lemma_pow2_strictly_increases(4, shift);
    }
}

/// A DPB whose references are short-term and leave a slot for the next picture.
pub open spec fn ready(m: DpbModel, size: int) -> bool {
    &&& m.well_formed()
    &&& m.size == size
    &&& 1 <= size
    &&& m.layers == 1
    &&& forall|i: int|
        0 <= i < size ==> {
            &&& (#[trigger] m.slots[i]).marking != MarkingState::LongTerm
            &&& m.slots[i].state == DpbState::Empty ==> m.slots[i].marking == MarkingState::Unused
            &&& m.slots[i].pic_order_cnt < i32::MAX
        }
    &&& size >= 2 ==> m.short_term_refs() <= size - 1
}

proof fn lemma_room(slots: Seq<DpbEntry>, n: int)
    requires
        0 <= n <= slots.len(),
    ensures
        room_made(slots, n).len() == slots.len(),
        forall|i: int|
            0 <= i < slots.len() ==> {
                let after = #[trigger] room_made(slots, n)[i];
                &&& after.marking == slots[i].marking
                &&& after.pic_order_cnt == slots[i].pic_order_cnt
                &&& after.state == slots[i].state || (after.state == DpbState::Empty
                    && after.marking == MarkingState::Unused)
            },
    decreases count_true(pending_flags(slots, n)),
{
    if all_in_use(slots, n) && next_output(slots, n) is Some {
        lemma_bump_progress(slots, n);
        lemma_first_least(output_keys(slots, n), i32::MAX as int);
        lemma_room(bumped(slots, n), n);
        assert forall|i: int| 0 <= i < slots.len() implies {
            let after = #[trigger] room_made(slots, n)[i];
            &&& after.marking == slots[i].marking
            &&& after.pic_order_cnt == slots[i].pic_order_cnt
            &&& after.state == slots[i].state || (after.state == DpbState::Empty && after.marking
                == MarkingState::Unused)
        } by {
            let after = room_made(bumped(slots, n), n)[i];
            assert(after.marking == bumped(slots, n)[i].marking);
        }
    }
}

/// The slots after a picture was started: markings stay as they were (or are all
/// taken away by an IDR picture), and the slot of the picture has none.
proof fn lemma_start(m: DpbModel, info: PictureStartInfo, next: DpbModel)
    requires
        ready(m, m.size),
        info.pic_order_cnt < i32::MAX,
        can_start(m, info),
        after_picture_start(m, info, next),
    ensures
        next.well_formed(),
        next.size == m.size,
        next.layers == 1,
        next.current >= 0,
        next.slots[next.current].state == DpbState::InUse,
        next.slots[next.current].marking == MarkingState::Unused,
        forall|i: int|
            0 <= i < m.size ==> {
                &&& (#[trigger] next.slots[i]).marking != MarkingState::LongTerm
                &&& next.slots[i].state == DpbState::Empty ==> next.slots[i].marking
                    == MarkingState::Unused
                &&& next.slots[i].pic_order_cnt < i32::MAX
                &&& next.slots[i].short_term() ==> m.slots[i].short_term()
            },
        m.size >= 2 ==> next.short_term_refs() <= m.size - 1,
        next.long_term_refs() == 0,
{
    let n = m.size;
    let slots = prepared(m, info);
    let slot = chosen_slot(slots, n);
    let cleaned = change_first(m.slots, n, |e: DpbEntry| released(e));
    if info.pic_type != PictureType::Idr {
        lemma_room(cleaned, n);
        lemma_room_frees(m);
    } else {
        assert(empty_flags(slots, n)[0]);
    }
    lemma_first_true(empty_flags(slots, n));
    assert(empty_flags(slots, n)[slot]);
    assert forall|i: int| 0 <= i < n implies {
        &&& (#[trigger] next.slots[i]).marking != MarkingState::LongTerm
        &&& next.slots[i].state == DpbState::Empty ==> next.slots[i].marking
            == MarkingState::Unused
        &&& next.slots[i].pic_order_cnt < i32::MAX
        &&& next.slots[i].short_term() ==> m.slots[i].short_term()
    } by {
        assert(m.slots[i].marking != MarkingState::LongTerm);
        if info.pic_type != PictureType::Idr {
            assert(cleaned[i] == released(m.slots[i]));
            assert(slots[i] == room_made(cleaned, n)[i]);
        } else if info.no_output_of_prior_pics_flag {
            assert(slots[i] == dropped(m.slots[i]));
        } else {
            assert(slots[i] == flushed(m.slots[i]));
        }
    }
    let before = short_term_flags(m.slots, n);
    let after = short_term_flags(next.slots, n);
    lemma_count_fewer(before, after, n as nat);
    let long = long_term_slot_flags(next.slots, n);
    assert forall|i: int| 0 <= i < n implies !(#[trigger] long[i]) by {
        assert(next.slots[i].marking != MarkingState::LongTerm);
    }
    lemma_count_bound(long, n as nat);
}

/// Bumping ends with an empty slot if one can be freed.
proof fn lemma_room_ends(slots: Seq<DpbEntry>, n: int, w: int)
    requires
        0 <= w < n <= slots.len(),
        slots[w].marking == MarkingState::Unused,
        slots[w].state == DpbState::Empty || (slots[w].output && slots[w].pic_order_cnt < i32::MAX),
    ensures
        !all_in_use(room_made(slots, n), n),
    decreases count_true(pending_flags(slots, n)),
{
    lemma_first_least(output_keys(slots, n), i32::MAX as int);
    if all_in_use(slots, n) {
        assert(slots[w].state == DpbState::InUse);
        assert(output_keys(slots, n)[w] is Some);
        lemma_bump_progress(slots, n);
        let next = bumped(slots, n);
        if next_output(slots, n) == Some(w) {
            assert(next[w].state == DpbState::Empty);
        } else {
            assert(next[w] == slots[w]);
        }
        lemma_room_ends(next, n, w);
    }
}

proof fn lemma_room_frees(m: DpbModel)
    requires
        m.well_formed(),
        exists|i: int| 0 <= i < m.size && super::bumping::can_free(#[trigger] m.slots[i]),
        forall|i: int|
            0 <= i < m.size ==> ((#[trigger] m.slots[i]).state == DpbState::Empty ==> m.slots[i].marking
                == MarkingState::Unused),
    ensures
        ({
            let cleaned = change_first(m.slots, m.size, |e: DpbEntry| released(e));
            exists|i: int| 0 <= i < m.size && empty_flags(room_made(cleaned, m.size), m.size)[i]
        }),
{
    let cleaned = change_first(m.slots, m.size, |e: DpbEntry| released(e));
    let w = choose|i: int| 0 <= i < m.size && super::bumping::can_free(#[trigger] m.slots[i]);
    assert(cleaned[w] == released(m.slots[w]));
    lemma_room_ends(cleaned, m.size, w);
    let made = room_made(cleaned, m.size);
    let e = choose|i: int| 0 <= i < m.size && (#[trigger] made[i]).state != DpbState::InUse;
    assert(empty_flags(made, m.size)[e]);
}

pub(crate) proof fn lemma_can_start(m: DpbModel, size: int, info: PictureStartInfo)
    requires
        ready(m, size),
        size >= 2 || info.pic_type == PictureType::Idr,
    ensures
        can_start(m, info),
{
    if size >= 2 {
        let long = long_term_slot_flags(m.slots, size);
        assert forall|i: int| 0 <= i < size implies !(#[trigger] long[i]) by {
            assert(m.slots[i].marking != MarkingState::LongTerm);
        }
        lemma_count_bound(long, size as nat);
        law_free_slot_lets_start(m, info);
    }
}

/// A picture that ends changes the marking of its own slot, and takes away at most that
/// of one other: the short-term reference with the lowest POC, if the picture is a
/// reference.
pub open spec fn window_keeps_newest(started: DpbModel, is_reference: bool, ended: DpbModel) -> bool {
    &&& ended.current == started.current
    &&& ended.slots[ended.current].marking == if is_reference {
        MarkingState::ShortTerm
    } else {
        MarkingState::Unused
    }
    &&& forall|i: int|
        0 <= i < started.size && i != started.current && (#[trigger] ended.slots[i]).marking
            != started.slots[i].marking ==> {
            &&& is_reference
            &&& started.slots[i].short_term()
            &&& ended.slots[i].marking == MarkingState::Unused
            &&& forall|j: int|
                0 <= j < started.size && j != started.current && (
                #[trigger] started.slots[j]).short_term() ==> {
                    &&& started.slots[i].pic_order_cnt <= started.slots[j].pic_order_cnt
                    &&& j != i ==> ended.slots[j] == started.slots[j]
                }
        }
}

proof fn lemma_end(m: DpbModel, is_reference: bool, size: int)
    requires
        m.well_formed(),
        m.size == size,
        size >= 1,
        m.layers == 1,
        m.current >= 0,
        m.slots[m.current].state == DpbState::InUse,
        m.slots[m.current].marking == MarkingState::Unused,
        forall|i: int|
            0 <= i < size ==> {
                &&& (#[trigger] m.slots[i]).marking != MarkingState::LongTerm
                &&& m.slots[i].state == DpbState::Empty ==> m.slots[i].marking
                    == MarkingState::Unused
                &&& m.slots[i].pic_order_cnt < i32::MAX
            },
        size >= 2 ==> m.short_term_refs() <= size - 1,
        m.long_term_refs() == 0,
    ensures
        ready(after_picture_end(m, is_reference), size),
        window_keeps_newest(m, is_reference, after_picture_end(m, is_reference)),
{
    let next = after_picture_end(m, is_reference);
    let marked = m.slots.update(
        m.current,
        DpbEntry {
            marking: if is_reference {
                MarkingState::ShortTerm
            } else {
                MarkingState::Unused
            },
            ..m.slots[m.current]
        },
    );
    if is_reference {
        if size >= 2 {
            law_window_leaves_a_slot(m);
        }
    } else {
        assert(next.slots =~= m.slots);
    }
    lemma_first_least(other_short_term_keys(marked, size, m.current), i32::MAX as int);
    assert forall|i: int| 0 <= i < size implies {
        &&& (#[trigger] next.slots[i]).marking != MarkingState::LongTerm
        &&& next.slots[i].state == DpbState::Empty ==> next.slots[i].marking
            == MarkingState::Unused
        &&& next.slots[i].pic_order_cnt < i32::MAX
    } by {
        assert(m.slots[i].marking != MarkingState::LongTerm);
    }
    assert forall|i: int|
        0 <= i < size && i != m.current && (#[trigger] next.slots[i]).marking
            != m.slots[i].marking implies {
        &&& is_reference
        &&& m.slots[i].short_term()
        &&& next.slots[i].marking == MarkingState::Unused
        &&& forall|j: int|
            0 <= j < size && j != m.current && (#[trigger] m.slots[j]).short_term() ==> {
                &&& m.slots[i].pic_order_cnt <= m.slots[j].pic_order_cnt
                &&& j != i ==> next.slots[j] == m.slots[j]
            }
    } by {
        let keys = other_short_term_keys(marked, size, m.current);
        assert(keys[i] is Some);
        assert forall|j: int|
            0 <= j < size && j != m.current && (#[trigger] m.slots[j]).short_term() implies {
            &&& m.slots[i].pic_order_cnt <= m.slots[j].pic_order_cnt
            &&& j != i ==> next.slots[j] == m.slots[j]
        } by {
            assert(marked[j] == m.slots[j]);
            assert(keys[j] is Some);
        }
    }
}

/// While references are short-term and leave a slot, the next picture can be started and
/// gets one, and after it ended they still do.
pub proof fn law_picture_leaves_a_slot(
    m: DpbModel,
    size: int,
    info: PictureStartInfo,
    started: DpbModel,
    is_reference: bool,
)
    requires
        ready(m, size),
        size >= 2 || info.pic_type == PictureType::Idr,
        info.pic_order_cnt < i32::MAX,
        after_picture_start(m, info, started),
    ensures
        can_start(m, info),
        started.current >= 0,
        ready(after_picture_end(started, is_reference), size),
        window_keeps_newest(started, is_reference, after_picture_end(started, is_reference)),
{
    lemma_can_start(m, size, info);
    lemma_start(m, info, started);
    lemma_end(started, is_reference, size);
}

/// One picture of a run: it is started and ended.
pub struct PictureRun {
    /// What the DPB is told when the picture starts.
    pub info: PictureStartInfo,
    /// The DPB after the start.
    pub started: DpbModel,
    /// Whether the picture is a reference.
    pub is_reference: bool,
}

impl PictureRun {
    /// The DPB after the end of the picture.
    pub open spec fn ended(self) -> DpbModel {
        after_picture_end(self.started, self.is_reference)
    }
}

/// The DPB before picture `k` of a run.
pub open spec fn before_picture(first: DpbModel, pictures: Seq<PictureRun>, k: int) -> DpbModel {
    if k <= 0 {
        first
    } else {
        pictures[k - 1].ended()
    }
}

/// Each picture of a run follows the one before it. Their POCs are not the greatest
/// number there is.
pub open spec fn pictures_follow(first: DpbModel, pictures: Seq<PictureRun>) -> bool {
    forall|k: int|
        0 <= k < pictures.len() ==> {
            &&& (#[trigger] pictures[k]).info.pic_order_cnt < i32::MAX
            &&& after_picture_start(
                before_picture(first, pictures, k),
                pictures[k].info,
                pictures[k].started,
            )
        }
}

proof fn lemma_begun_is_ready(m: DpbModel, config: DpbConfig, first: DpbModel)
    requires
        sequence_begun(m, config, first),
        1 <= config.dpb_size <= MAX_DPB_SIZE,
        config.num_temporal_layers == 1,
        config.log2_max_pic_order_cnt_lsb_minus4 <= 26,
    ensures
        ready(first, config.dpb_size as int),
{
    law_sequence_start_forgets(m, config, first);
    assert forall|i: int| 0 <= i < first.size implies {
        &&& (#[trigger] first.slots[i]).marking != MarkingState::LongTerm
        &&& first.slots[i].state == DpbState::Empty ==> first.slots[i].marking
            == MarkingState::Unused
        &&& first.slots[i].pic_order_cnt < i32::MAX
    } by {
        assert(first.slots[i].blank());
    }
}

proof fn lemma_run_is_ready(first: DpbModel, size: int, pictures: Seq<PictureRun>, k: int)
    requires
        ready(first, size),
        size >= 2,
        pictures_follow(first, pictures),
        0 <= k <= pictures.len(),
    ensures
        ready(before_picture(first, pictures, k), size),
    decreases k,
{
    if k > 0 {
        lemma_run_is_ready(first, size, pictures, k - 1);
        let p = pictures[k - 1];
        assert(p.info.pic_order_cnt < i32::MAX);
        law_picture_leaves_a_slot(
            before_picture(first, pictures, k - 1),
            size,
            p.info,
            p.started,
            p.is_reference,
        );
    }
}

/// In a sequence with two or more slots and one temporal layer, however many pictures
/// have been started and ended, references leave a slot for the next picture: it can
/// always be started, and gets a slot. A picture that ends is marked as it should be,
/// and only the short-term reference with the lowest POC makes way for it.
pub proof fn law_references_always_leave_a_slot(
    m: DpbModel,
    config: DpbConfig,
    first: DpbModel,
    pictures: Seq<PictureRun>,
    k: int,
)
    requires
        sequence_begun(m, config, first),
        2 <= config.dpb_size <= MAX_DPB_SIZE,
        config.num_temporal_layers == 1,
        config.log2_max_pic_order_cnt_lsb_minus4 <= 26,
        pictures_follow(first, pictures),
        0 <= k < pictures.len(),
    ensures
        can_start(before_picture(first, pictures, k), pictures[k].info),
        pictures[k].started.current >= 0,
        pictures[k].ended().size == config.dpb_size,
        pictures[k].ended().short_term_refs() + pictures[k].ended().long_term_refs()
            <= config.dpb_size - 1,
        window_keeps_newest(pictures[k].started, pictures[k].is_reference, pictures[k].ended()),
{
    let size = config.dpb_size as int;
    let p = pictures[k];
    lemma_begun_is_ready(m, config, first);
    lemma_run_is_ready(first, size, pictures, k);
    assert(p.info.pic_order_cnt < i32::MAX);
    law_picture_leaves_a_slot(
        before_picture(first, pictures, k),
        size,
        p.info,
        p.started,
        p.is_reference,
    );
    let next = p.ended();
    let long = long_term_slot_flags(next.slots, size);
    assert forall|i: int| 0 <= i < size implies !(#[trigger] long[i]) by {
        assert(next.slots[i].marking != MarkingState::LongTerm);
    }
    lemma_count_bound(long, size as nat);
}

} // verus!
