//! How the encoder uses the decoded picture buffer.
//!
//! Each picture that is encoded is started and ended in turn; all of them are
//! short-term references in one temporal layer. The sliding window then always
//! leaves a slot for the next picture, if the DPB has two or more.

use crate::encoder::dpb::bumping::short_term_flags;
use crate::encoder::dpb::entry::{DpbState, MarkingState};
use crate::encoder::dpb::h265::{
    after_picture_end, after_picture_start, configured_size, DpbModel,
};
use crate::encoder::dpb::picture_laws::{
    law_ended_picture_is_marked, law_started_picture_is_held,
};
use crate::encoder::dpb::run_laws::{law_picture_leaves_a_slot, lemma_can_start, ready};
use crate::encoder::dpb::select::lemma_count_bound;
use crate::encoder::dpb::types::{DpbConfig, PictureStartInfo};
use crate::encoder::dpb::{DpbH265, PictureType, MAX_DPB_SIZE};
use crate::encoder::gop::GopFrameType;
use crate::encoder::state::StartedFrame;
use vstd::prelude::*;

verus! {

/// What the DPB is told of the picture of a frame.
pub open spec fn start_info(frame: StartedFrame) -> PictureStartInfo {
    PictureStartInfo {
        frame_id: frame.display_order,
        pic_order_cnt: frame.position.pic_order_cnt,
        frame_num: 0,
        pic_type: match frame.position.frame_type {
            GopFrameType::Idr => PictureType::Idr,
            GopFrameType::B => PictureType::B,
            _ => PictureType::P,
        },
        is_reference: frame.position.is_reference,
        pic_output_flag: true,
        no_output_of_prior_pics_flag: false,
        temporal_id: 0,
        timestamp: 0,
    }
}

/// `next` is the DPB after the picture of a frame that is a reference.
pub open spec fn picture_entered(m: DpbModel, frame: StartedFrame, next: DpbModel) -> bool {
    exists|started: DpbModel|
        {
            &&& #[trigger] after_picture_start(m, start_info(frame), started)
            &&& started.current >= 0
            &&& next == after_picture_end(started, true)
        }
}

/// The DPB can take the picture of a frame.
pub open spec fn can_enter(size: int, frame: StartedFrame) -> bool {
    &&& size >= 2 || frame.position.frame_type == GopFrameType::Idr
    &&& frame.position.pic_order_cnt < i32::MAX
}

/// After the picture of a frame, the DPB is ready for the next.
pub proof fn law_dpb_stays_ready(m: DpbModel, size: int, frame: StartedFrame, next: DpbModel)
    requires
        ready(m, size),
        can_enter(size, frame),
        picture_entered(m, frame, next),
    ensures
        ready(next, size),
{
    let started = choose|started: DpbModel|
        {
            &&& #[trigger] after_picture_start(m, start_info(frame), started)
            &&& started.current >= 0
            &&& next == after_picture_end(started, true)
        };
    law_picture_leaves_a_slot(m, size, start_info(frame), started, true);
}

/// Start a sequence.
pub fn start_sequence(dpb: &mut DpbH265, dpb_slot_count: usize, max_reference_frames: u32)
    requires
        1 <= dpb_slot_count <= MAX_DPB_SIZE,
    ensures
        ready(final(dpb)@, dpb_slot_count as int),
        sequence_started(old(dpb)@, dpb_slot_count as int, final(dpb)@),
{
    let config = DpbConfig {
        dpb_size: dpb_slot_count as u32,
        max_num_ref_frames: max_reference_frames,
        use_multiple_references: false,
        max_long_term_refs: 0,
        log2_max_frame_num_minus4: 0,
        log2_max_pic_order_cnt_lsb_minus4: 4,
        num_temporal_layers: 1,
    };
    dpb.sequence_start(config);
    proof {
        vstd::arithmetic::power2::lemma2_to64();
        let n = dpb_slot_count as int;
        let m = dpb@;
        assert(configured_size(config.dpb_size) == n);
        let flags = short_term_flags(m.slots, n);
        assert forall|i: int| 0 <= i < n implies !(#[trigger] flags[i]) by {
            assert(m.slots[i].blank());
        }
        lemma_count_bound(flags, n as nat);
        assert forall|i: int| 0 <= i < n implies {
            &&& (#[trigger] m.slots[i]).marking != MarkingState::LongTerm
            &&& m.slots[i].state == DpbState::Empty ==> m.slots[i].marking == MarkingState::Unused
            &&& m.slots[i].pic_order_cnt < i32::MAX
        } by {
            assert(m.slots[i].blank());
        }
    }
}

/// `next` is the DPB after the start of a sequence, with all slots free.
pub open spec fn sequence_started(m: DpbModel, size: int, next: DpbModel) -> bool {
    &&& next == DpbModel {
        slots: next.slots,
        size,
        current: -1,
        rps_sizes: crate::encoder::dpb::h265::no_rps(),
        refresh_pending: false,
        long_term_flags: 0,
        multiple_refs: false,
        max_poc_lsb: 256,
        layers: 1,
        ..m
    }
    &&& forall|i: int| 0 <= i < MAX_DPB_SIZE ==> (#[trigger] next.slots[i]).blank()
}

/// Start and end the picture of a frame that is a reference.
pub fn enter_picture(dpb: &mut DpbH265, frame: &StartedFrame)
    requires
        ready(old(dpb)@, old(dpb)@.size),
        can_enter(old(dpb)@.size, *frame),
        frame.position.is_reference,
    ensures
        picture_entered(old(dpb)@, *frame, final(dpb)@),
        ready(final(dpb)@, old(dpb)@.size),
{
    let ghost m = dpb@;
    proof {
        lemma_can_start(m, m.size, start_info(*frame));
    }
    let pic_type = match frame.position.frame_type {
        GopFrameType::Idr => PictureType::Idr,
        GopFrameType::B => PictureType::B,
        _ => PictureType::P,
    };
    let info = PictureStartInfo {
        frame_id: frame.display_order,
        pic_order_cnt: frame.position.pic_order_cnt,
        frame_num: 0,
        pic_type,
        is_reference: frame.position.is_reference,
        pic_output_flag: true,
        no_output_of_prior_pics_flag: false,
        temporal_id: 0,
        timestamp: 0,
    };
    assert(info == start_info(*frame));
    let _ = dpb.picture_start(info);
    let ghost started = dpb@;
    dpb.picture_end(frame.position.is_reference);
    proof {
        assert(after_picture_start(m, start_info(*frame), started));
        law_dpb_stays_ready(m, m.size, *frame, dpb@);
    }
}

/// The DPB is told the truth of the picture of a frame: its number, its count and its type,
/// that it is output, and that pictures before an IDR picture are too. All pictures are in
/// the lowest temporal layer.
pub proof fn law_dpb_is_told_of_the_frame(frame: StartedFrame)
    ensures
        ({
            let info = start_info(frame);
            let frame_type = frame.position.frame_type;
            &&& info.frame_id == frame.display_order
            &&& info.pic_order_cnt == frame.position.pic_order_cnt
            &&& info.is_reference == frame.position.is_reference
            &&& info.pic_type == PictureType::Idr <==> frame_type == GopFrameType::Idr
            &&& info.pic_type == PictureType::B <==> frame_type == GopFrameType::B
            &&& info.pic_type == PictureType::P <==> frame_type == GopFrameType::P || frame_type
                == GopFrameType::I
            &&& info.pic_output_flag
            &&& !info.no_output_of_prior_pics_flag
            &&& info.temporal_id == 0
        }),
{
}

/// After the picture of a frame, the DPB holds it as a short-term reference.
pub proof fn law_entered_picture_is_held(m: DpbModel, frame: StartedFrame, next: DpbModel)
    requires
        ready(m, m.size),
        can_enter(m.size, frame),
        picture_entered(m, frame, next),
    ensures
        ({
            let held = next.slots[next.current];
            &&& 0 <= next.current < m.size
            &&& held.short_term()
            &&& held.pic_order_cnt == frame.position.pic_order_cnt
        }),
{
    let started = choose|started: DpbModel|
        {
            &&& #[trigger] after_picture_start(m, start_info(frame), started)
            &&& started.current >= 0
            &&& next == after_picture_end(started, true)
        };
    law_picture_leaves_a_slot(m, m.size, start_info(frame), started, true);
    law_started_picture_is_held(m, start_info(frame), started, 0);
    law_ended_picture_is_marked(started, true);
}

/// A sequence starts without references, with as many slots as the session has, and with
/// counts whose LSB has as many values as the structure of GOPs counts with.
pub proof fn law_sequence_starts_empty(m: DpbModel, size: int, next: DpbModel, i: int)
    requires
        sequence_started(m, size, next),
        0 <= i < MAX_DPB_SIZE,
    ensures
        next.size == size,
        next.current == -1,
        next.max_poc_lsb == 256,
        next.layers == 1,
        !next.multiple_refs,
        !next.refresh_pending,
        next.slots[i].state == DpbState::Empty,
        next.slots[i].marking == MarkingState::Unused,
        !next.slots[i].output,
{
    assert(next.slots[i].blank());
}

} // verus!
