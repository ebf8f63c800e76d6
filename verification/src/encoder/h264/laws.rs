//! What holds of the frame plans and parameter sets of an H.264 stream.

use super::frame::{H264FramePlan, ReferenceInfo, LIST_SIZE};
use super::parameters::{
    checks_cropping, crop_offset, crop_pixels, crop_unit, parameters_of, H264Profile, MB_SIZE,
};
use super::H264Model;
use crate::encoder::gop::GopFrameType;
use crate::encoder::pictures::{CodedPictureType, SliceType};
use crate::encoder::rate_control::rate_control_of;
use crate::encoder::references::law_newest_is_remembered;
use crate::encoder::resources::shows_slot;
use crate::encoder::session::{block_size, SessionPlan};
use crate::encoder::state::{new_state, StartedFrame};
use crate::encoder::{
    BitDepth, Codec, ColorDescription, EncodeConfig, PixelFormat, RateControlMode,
};
use crate::vk::{AccessMask, ImageLayout};
use vstd::arithmetic::power2::pow2;
use vstd::prelude::*;

verus! {

/// What a plan says of its picture is what the frame is. IDR frames are the intra frames of
/// a stream. Later frames may refer to the picture exactly if the frame's place in the GOP
/// says so. The slot that is set up gets the same picture, in the current DPB slot.
pub proof fn law_picture_tells_the_frame(m: H264Model, frame: StartedFrame, plan: H264FramePlan)
    requires
        m.well_formed(),
        plan.plans(m.state, m.context(), frame),
    ensures
        ({
            let idr = frame.position.frame_type == GopFrameType::Idr;
            let b = frame.position.frame_type == GopFrameType::B;
            &&& plan.picture.idr <==> idr
            &&& plan.picture.is_reference <==> frame.position.is_reference
            &&& plan.picture.picture_type == CodedPictureType::Idr <==> idr
            &&& plan.picture.picture_type == CodedPictureType::B <==> b
            &&& plan.slice.slice_type == SliceType::I <==> idr
            &&& plan.slice.slice_type == SliceType::B <==> b
            &&& plan.slice.num_ref_idx_active_override <==> !idr
            &&& plan.picture.frame_num == m.frame_num
            &&& plan.picture.idr_pic_id == m.idr_pic_id
            &&& plan.picture.pic_order_cnt == frame.position.pic_order_cnt
            &&& plan.setup.frame_num == plan.picture.frame_num
            &&& plan.setup.pic_order_cnt == plan.picture.pic_order_cnt
            &&& plan.setup.picture_type == CodedPictureType::Idr <==> idr
            &&& plan.setup.picture_type == CodedPictureType::P <==> !idr
            &&& plan.setup.dpb_slot == m.state.current_dpb_slot
            &&& plan.coded_extent == m.state.session.coded_extent
            &&& plan.first_frame <==> m.state.encode_frame_num == 0
        }),
{
}

/// The references of a frame, which an IDR frame has none of, are named alike throughout
/// its plan: video coding begins with their slots, each has a barrier that makes it visible,
/// and list 0 holds them in order. The slot that is set up loses what it held only on its
/// first use.
pub proof fn law_plan_names_its_references(m: H264Model, frame: StartedFrame, plan: H264FramePlan)
    requires
        m.references.len() <= LIST_SIZE,
        m.references.len() <= m.state.session.active_reference_count,
        frame.position.frame_type != GopFrameType::B,
        plan.plans(m.state, m.context(), frame),
    ensures
        ({
            let n = plan.references@.len();
            let layered = m.state.session.use_layered_dpb;
            let active = m.state.slot_active[m.state.current_dpb_slot as int];
            let setup = plan.barriers@[0];
            &&& n == if frame.position.frame_type == GopFrameType::Idr {
                0
            } else {
                m.references.len()
            }
            &&& plan.begin_slots@.len() == n + 1
            &&& plan.begin_slots@[0] == -1
            &&& plan.barriers@.len() == m.references.len() + 1
            &&& layered ==> setup.place.image == 0 && setup.place.layer == plan.setup.dpb_slot
            &&& !layered ==> setup.place.image == plan.setup.dpb_slot && setup.place.layer == 0
            &&& setup.old_layout == if active {
                ImageLayout::VideoEncodeDpb
            } else {
                ImageLayout::Undefined
            }
            &&& setup.src_access == AccessMask::Empty
            &&& setup.dst_access == AccessMask::Empty
            &&& forall|i: int|
                0 <= i < n ==> {
                    let reference = #[trigger] plan.references@[i];
                    &&& reference.dpb_slot == m.references[i].dpb_slot
                    &&& reference.frame_num == m.references[i].frame_num
                    &&& reference.pic_order_cnt == m.references[i].poc
                    &&& reference.picture_type == CodedPictureType::P
                    &&& plan.begin_slots@[i + 1] == reference.dpb_slot
                    &&& shows_slot(plan.barriers@[i + 1], layered, reference.dpb_slot)
                    &&& plan.lists->Some_0.list0@[i] == reference.dpb_slot
                }
            &&& plan.lists is Some <==> n > 0
            &&& n > 0 ==> {
                let lists = plan.lists->Some_0;
                &&& lists.num_ref_idx_l0_active_minus1 + 1 == n
                &&& lists.num_ref_idx_l1_active_minus1 == 0
                &&& forall|i: int| n <= i < 32 ==> #[trigger] lists.list0@[i] == 0xff
                &&& forall|i: int| 0 <= i < 32 ==> #[trigger] lists.list1@[i] == 0xff
            }
        }),
{
}

/// One frame of a stream: the encoder before it, the frame, its plan, and the header that
/// goes with it.
pub struct CodedFrame {
    pub before: H264Model,
    pub frame: StartedFrame,
    pub plan: H264FramePlan,
    pub header: Option<Seq<u8>>,
}

impl CodedFrame {
    /// The encoder after the start of the picture.
    pub open spec fn started(self) -> H264Model {
        self.before.picture_started(self.frame)
    }

    /// The encoder after the frame.
    pub open spec fn after(self) -> H264Model {
        self.started().finished(self.frame, self.header)
    }

    /// The plan is that of the frame. B-frames are not supported.
    #[verifier::opaque]
    pub open spec fn coded(self) -> bool {
        &&& self.before.well_formed()
        &&& self.frame.position.frame_type != GopFrameType::B
        &&& self.plan.plans(self.started().state, self.started().context(), self.frame)
    }

    /// Another frame follows: references and DPB slot are as this one left them.
    pub open spec fn precedes(self, next: CodedFrame) -> bool {
        &&& next.before.references == self.after().references
        &&& next.before.state.current_dpb_slot == self.after().state.current_dpb_slot
    }
}

/// The frames of a stream, which starts without references.
pub open spec fn stream(frames: Seq<CodedFrame>) -> bool {
    &&& frames.len() > 0 ==> frames[0].before.references.len() == 0
    &&& forall|k: int| 0 <= k < frames.len() ==> (#[trigger] frames[k]).coded()
    &&& forall|k: int|
        1 <= k < frames.len() ==> frames[k - 1].precedes(#[trigger] frames[k])
}

/// Frame `j` was planned as a reference with these numbers, and the slot that it set up has
/// not been set up by another frame before frame `k`.
pub open spec fn set_up_by(
    frames: Seq<CodedFrame>,
    j: int,
    k: int,
    reference: ReferenceInfo,
) -> bool {
    &&& 0 <= j < k
    &&& frames[j].plan.picture.is_reference
    &&& frames[j].plan.setup.dpb_slot == reference.dpb_slot
    &&& frames[j].plan.setup.frame_num == reference.frame_num
    &&& frames[j].plan.setup.pic_order_cnt == reference.poc
    &&& forall|l: int|
        j < l < k ==> (#[trigger] frames[l]).plan.setup.dpb_slot != reference.dpb_slot
}

/// A reference after a frame is the frame, or was a reference before, in another slot.
proof fn lemma_reference_after(c: CodedFrame, i: int) -> (o: int)
    requires
        c.coded(),
        0 <= i < c.after().references.len(),
    ensures
        ({
            let reference = c.after().references[i];
            if o < 0 {
                &&& c.plan.picture.is_reference
                &&& c.plan.setup.dpb_slot == reference.dpb_slot
                &&& c.plan.setup.frame_num == reference.frame_num
                &&& c.plan.setup.pic_order_cnt == reference.poc
            } else {
                &&& o < c.before.references.len()
                &&& c.before.references[o] == reference
                &&& c.plan.setup.dpb_slot != reference.dpb_slot
            }
        }),
{
    reveal(CodedFrame::coded);
    let started = c.started();
    let newest = ReferenceInfo {
        dpb_slot: started.state.current_dpb_slot,
        frame_num: started.frame_num,
        poc: c.frame.position.pic_order_cnt,
    };
    law_newest_is_remembered(
        started.references,
        newest,
        started.state.session.active_reference_count as nat,
    );
    if c.frame.position.is_reference && i == 0 {
        -1
    } else {
        let o = if c.frame.position.is_reference {
            i - 1
        } else {
            i
        };
        assert(c.after().references[i] == started.references[o]);
        lemma_references_are_elsewhere(c.before, o);
        o
    }
}

proof fn lemma_references_are_elsewhere(m: H264Model, o: int)
    requires
        m.well_formed(),
        0 <= o < m.references.len(),
    ensures
        m.references[o].dpb_slot != m.state.current_dpb_slot,
{
    let slots = super::frame::slots_of(m.references);
    assert(slots[o] == m.references[o].dpb_slot);
    assert(slots.contains(slots[o]));
}

proof fn lemma_references_were_set_up(frames: Seq<CodedFrame>, k: int, i: int)
    requires
        stream(frames),
        0 <= k < frames.len(),
        0 <= i < frames[k].before.references.len(),
    ensures
        exists|j: int| #[trigger] set_up_by(frames, j, k, frames[k].before.references[i]),
    decreases k,
{
    let reference = frames[k].before.references[i];
    if k > 0 {
        assert(frames[k - 1].coded());
        assert(frames[k - 1].precedes(frames[k]));
        let o = lemma_reference_after(frames[k - 1], i);
        if o < 0 {
            assert(set_up_by(frames, k - 1, k, reference));
        } else {
            lemma_references_were_set_up(frames, k - 1, o);
            let j = choose|j: int| #[trigger] set_up_by(frames, j, k - 1, reference);
            assert(set_up_by(frames, j, k, reference));
        }
    }
}

/// Every reference that a plan names is the picture of an earlier frame that was planned as
/// a reference with the same numbers, and that no frame since, nor the frame itself,
/// overwrites.
pub proof fn law_references_were_planned_as_references(frames: Seq<CodedFrame>, k: int, i: int)
    requires
        stream(frames),
        0 <= k < frames.len(),
        0 <= i < frames[k].plan.references@.len(),
    ensures
        ({
            let named = frames[k].plan.references@[i];
            let reference = ReferenceInfo {
                dpb_slot: named.dpb_slot,
                frame_num: named.frame_num,
                poc: named.pic_order_cnt,
            };
            &&& frames[k].plan.setup.dpb_slot != named.dpb_slot
            &&& exists|j: int| #[trigger] set_up_by(frames, j, k, reference)
        }),
{
    assert(frames[k].coded());
    lemma_reference_named(frames[k], i);
    lemma_references_were_set_up(frames, k, i);
}

proof fn lemma_reference_named(c: CodedFrame, i: int)
    requires
        c.coded(),
        0 <= i < c.plan.references@.len(),
    ensures
        i < c.before.references.len(),
        c.plan.references@[i].dpb_slot == c.before.references[i].dpb_slot,
        c.plan.references@[i].frame_num == c.before.references[i].frame_num,
        c.plan.references@[i].pic_order_cnt == c.before.references[i].poc,
        c.plan.setup.dpb_slot != c.plan.references@[i].dpb_slot,
{
    reveal(CodedFrame::coded);
    law_plan_names_its_references(c.started(), c.frame, c.plan);
    assert(c.plan.references@[i].dpb_slot == c.started().references[i].dpb_slot);
    lemma_references_are_elsewhere(c.before, i);
}

/// Quantization is fixed exactly in the modes without rate control: the slice then has the
/// quality level, which is also the only one allowed, and its header gives the difference
/// to 26. Otherwise it is left to the device, in the range of the codec.
pub proof fn law_quantization(m: H264Model, frame: StartedFrame, plan: H264FramePlan)
    requires
        plan.plans(m.state, m.context(), frame),
        m.state.config.quality_level <= 51,
    ensures
        ({
            let fixed = m.state.config.rate_control_mode == RateControlMode::Disabled
                || m.state.config.rate_control_mode == RateControlMode::Cqp;
            &&& plan.rate_control == rate_control_of(m.state.config)
            &&& fixed ==> {
                &&& plan.constant_qp == m.state.config.quality_level
                &&& plan.qp_range.min == plan.constant_qp
                &&& plan.qp_range.max == plan.constant_qp
                &&& plan.slice.slice_qp_delta + 26 == plan.constant_qp
            }
            &&& !fixed ==> {
                &&& plan.constant_qp == 0
                &&& plan.qp_range.min == 18
                &&& plan.qp_range.max == 42
                &&& plan.slice.slice_qp_delta == 0
            }
        }),
{
}

/// The pictures that the parameter sets announce are those that are encoded: of the coded
/// extent, in whole macroblocks, with the chroma and the bit depth of the configuration, in
/// a profile that has the chroma.
pub proof fn law_parameter_sets_describe_the_pictures(
    m: H264Model,
    frame: StartedFrame,
    plan: H264FramePlan,
    desc: ColorDescription,
)
    requires
        plan.plans(m.state, m.context(), frame),
        m.state.config.pixel_format != PixelFormat::Yuv422,
        m.state.session.coded_extent.width >= 16,
        m.state.session.coded_extent.height >= 16,
        m.state.session.coded_extent.width % 16 == 0,
        m.state.session.coded_extent.height % 16 == 0,
    ensures
        ({
            let format = m.state.config.pixel_format;
            let sps = parameters_of(m.state.config, m.state.session, m.cabac, desc).sps;
            let bits = if m.state.config.bit_depth == BitDepth::Ten {
                10int
            } else {
                8int
            };
            &&& MB_SIZE == block_size(Codec::H264)
            &&& (sps.pic_width_in_mbs_minus1 + 1) * MB_SIZE == plan.coded_extent.width
            &&& (sps.pic_height_in_map_units_minus1 + 1) * MB_SIZE == plan.coded_extent.height
            &&& sps.frame_mbs_only
            &&& format == PixelFormat::Yuv420 ==> sps.chroma_format_idc == 1 && sps.profile
                == H264Profile::High
            &&& format == PixelFormat::Yuv444 ==> sps.chroma_format_idc == 3 && sps.profile
                == H264Profile::High444Predictive
            &&& sps.bit_depth_luma_minus8 + 8 == bits
            &&& sps.bit_depth_chroma_minus8 + 8 == bits
            &&& sps.level == 41
        }),
{
}

/// Frame numbers and picture order counts start over exactly where the parameter sets say
/// that they do: frame numbers at the range of their syntax element, picture order counts
/// at twice the range of their LSB.
pub proof fn law_numbers_fit_the_parameter_sets(
    m: H264Model,
    frame: StartedFrame,
    header: Option<Seq<u8>>,
    desc: ColorDescription,
)
    requires
        m.well_formed(),
        frame.position.frame_type != GopFrameType::B,
        frame.position.is_reference,
    ensures
        ({
            let sps = parameters_of(m.state.config, m.state.session, m.cabac, desc).sps;
            let range = pow2((sps.log2_max_frame_num_minus4 + 4) as nat) as int;
            &&& m.frame_num < range
            &&& m.finished(frame, header).frame_num == (m.frame_num + 1) % range
            &&& new_state(m.state, m.state.config, m.state.session) ==> m.state.gop.max_poc_lsb
                == pow2((sps.log2_max_pic_order_cnt_lsb_minus4 + 4) as nat)
        }),
{
    vstd::arithmetic::power2::lemma2_to64();
}

/// The parameter sets allow as many references as the session has, which is as many as a
/// plan names at most, and a decoder needs room for one picture more. Without B-frames
/// pictures are output in the order in which they are decoded.
pub proof fn law_parameter_sets_describe_the_references(
    m: H264Model,
    frame: StartedFrame,
    plan: H264FramePlan,
    desc: ColorDescription,
)
    requires
        m.well_formed(),
        frame.position.frame_type != GopFrameType::B,
        plan.plans(m.state, m.context(), frame),
    ensures
        ({
            let parameters = parameters_of(m.state.config, m.state.session, m.cabac, desc);
            let sps = parameters.sps;
            let reordered = m.state.config.b_frame_count > 0;
            &&& sps.max_num_ref_frames == m.state.session.active_reference_count
            &&& plan.references@.len() <= sps.max_num_ref_frames
            &&& sps.vui.max_dec_frame_buffering == sps.max_num_ref_frames + 1
            &&& sps.max_num_ref_frames > 0 ==>
                parameters.pps.num_ref_idx_l0_default_active_minus1 + 1 == sps.max_num_ref_frames
            &&& sps.max_num_ref_frames == 0 ==>
                parameters.pps.num_ref_idx_l0_default_active_minus1 == 0
            &&& sps.vui.bitstream_restriction
            &&& reordered ==> sps.vui.max_num_reorder_frames == 1 && sps.pic_order_cnt_type == 0
            &&& !reordered ==> sps.vui.max_num_reorder_frames == 0 && sps.pic_order_cnt_type == 2
        }),
{
    law_plan_names_its_references(m, frame, plan);
}

/// The parameter sets announce the color description, field by field, and what tells a
/// decoder that it is there.
pub proof fn law_parameter_sets_announce_the_colors(
    config: EncodeConfig,
    session: SessionPlan,
    cabac: bool,
    desc: ColorDescription,
)
    ensures
        ({
            let vui = parameters_of(config, session, cabac, desc).sps.vui;
            &&& vui.video_signal_type_present
            &&& vui.color_description_present
            &&& vui.video_full_range == desc.full_range
            &&& vui.colour_primaries == desc.color_primaries
            &&& vui.transfer_characteristics == desc.transfer_characteristics
            &&& vui.matrix_coefficients == desc.matrix_coefficients
            &&& vui.aspect_ratio_info_present
            &&& vui.video_format == 5
            &&& !vui.nal_hrd_parameters_present
        }),
{
}

/// Entropy coding is the one that the device prefers. The 8x8 transform and its motion
/// inference are enabled, as is control of the deblocking filter. Both chroma components
/// are quantized alike, and as luma but for 4:4:4.
pub proof fn law_tools_follow_the_device(
    config: EncodeConfig,
    session: SessionPlan,
    cabac: bool,
    desc: ColorDescription,
)
    ensures
        ({
            let parameters = parameters_of(config, session, cabac, desc);
            let pps = parameters.pps;
            &&& pps.entropy_coding_mode == cabac
            &&& pps.transform_8x8_mode
            &&& parameters.sps.direct_8x8_inference
            &&& pps.deblocking_filter_control_present
            &&& pps.chroma_qp_index_offset == pps.second_chroma_qp_index_offset
            &&& config.pixel_format == PixelFormat::Yuv444 ==> pps.chroma_qp_index_offset == 6
            &&& config.pixel_format != PixelFormat::Yuv444 ==> pps.chroma_qp_index_offset == 0
        }),
{
}

/// A B frame names the most recent reference, which list 0 holds, and the one after it,
/// which list 1 holds.
pub proof fn law_b_plan_names_its_references(m: H264Model, frame: StartedFrame, plan: H264FramePlan)
    requires
        m.references.len() > 0,
        m.backward is Some,
        frame.position.frame_type == GopFrameType::B,
        plan.plans(m.state, m.context(), frame),
    ensures
        ({
            let before = m.references[0];
            let after = m.backward->Some_0;
            let lists = plan.lists->Some_0;
            &&& plan.references@.len() == 2
            &&& plan.references@[0].dpb_slot == before.dpb_slot
            &&& plan.references@[0].frame_num == before.frame_num
            &&& plan.references@[0].pic_order_cnt == before.poc
            &&& plan.references@[1].dpb_slot == after.dpb_slot
            &&& plan.references@[1].frame_num == after.frame_num
            &&& plan.references@[1].pic_order_cnt == after.poc
            &&& plan.begin_slots@.len() == 3
            &&& plan.begin_slots@[0] == -1
            &&& plan.begin_slots@[1] == before.dpb_slot
            &&& plan.begin_slots@[2] == after.dpb_slot
            &&& plan.lists is Some
            &&& lists.num_ref_idx_l0_active_minus1 == 0
            &&& lists.num_ref_idx_l1_active_minus1 == 0
            &&& lists.list0@[0] == before.dpb_slot
            &&& lists.list1@[0] == after.dpb_slot
            &&& forall|i: int|
                1 <= i < 32 ==> #[trigger] lists.list0@[i] == 0xff && lists.list1@[i] == 0xff
        }),
{
}

/// List 0 of a P frame holds no more slots than references may be active.
pub proof fn law_lists_hold_active_references(m: H264Model, frame: StartedFrame, plan: H264FramePlan)
    requires
        frame.position.frame_type == GopFrameType::P,
        plan.plans(m.state, m.context(), frame),
        m.references.len() > 0,
        m.state.session.active_reference_count > 0,
    ensures
        ({
            let lists = plan.lists->Some_0;
            let active = lists.num_ref_idx_l0_active_minus1 + 1;
            &&& plan.lists is Some
            &&& active <= m.references.len()
            &&& active <= m.state.session.active_reference_count
            &&& active <= 32
            &&& active == m.references.len() || active == m.state.session.active_reference_count
                || active == 32
            &&& forall|i: int|
                0 <= i < active ==> #[trigger] lists.list0@[i] == m.references[i].dpb_slot
            &&& forall|i: int| active <= i < 32 ==> #[trigger] lists.list0@[i] == 0xff
        }),
{
}

/// A frame that is no reference leaves references, DPB slot and frame number as they are,
/// and a B frame that is one leaves the frame number.
pub proof fn law_other_frames_leave_the_references(
    m: H264Model,
    frame: StartedFrame,
    header: Option<Seq<u8>>,
)
    ensures
        ({
            let next = m.finished(frame, header);
            &&& !frame.position.is_reference ==> next.references == m.references
                && next.state.current_dpb_slot == m.state.current_dpb_slot && next.frame_num
                == m.frame_num
            &&& frame.position.frame_type == GopFrameType::B ==> next.frame_num == m.frame_num
            &&& next.backward == m.backward
            &&& next.idr_pic_id == m.idr_pic_id
            &&& next.cabac == m.cabac
        }),
{
}

/// Cropping in one dimension.
proof fn lemma_crop(coded: u32, size: u32, format: PixelFormat)
    requires
        format != PixelFormat::Yuv422,
        coded % 16 == 0,
        size <= coded,
    ensures
        ({
            let can = format == PixelFormat::Yuv444 || size % 2 == 0;
            let unit = if format == PixelFormat::Yuv444 {
                1int
            } else {
                2int
            };
            &&& crop_pixels(coded, size) % crop_unit(format) as int == 0 <==> can
            &&& can ==> crop_offset(coded, size, format) * unit == coded - size
            &&& 0 <= crop_offset(coded, size, format) <= coded
        }),
{
    assert(coded as int / 16 * 16 == coded);
    assert(crop_pixels(coded, size) == coded - size);
    if format == PixelFormat::Yuv444 {
        assert(crop_unit(format) == 1);
    } else {
        assert(crop_unit(format) == 2);
        assert((coded - size) % 2 == 0 <==> size % 2 == 0);
    }
}

/// Crop offsets count chroma samples, so 4:2:0 pictures can be cropped exactly to even
/// dimensions, and 4:4:4 pictures to any. Other configurations are refused. A decoder gets
/// pictures of the dimensions of the configuration, and is told to crop only where the
/// coded extent is larger.
pub proof fn law_cropping_counts_chroma_samples(
    config: EncodeConfig,
    session: SessionPlan,
    cabac: bool,
    desc: ColorDescription,
)
    requires
        config.pixel_format != PixelFormat::Yuv422,
        session.coded_extent.width >= 16,
        session.coded_extent.height >= 16,
        session.coded_extent.width % 16 == 0,
        session.coded_extent.height % 16 == 0,
        config.dimensions.width <= session.coded_extent.width,
        config.dimensions.height <= session.coded_extent.height,
    ensures
        ({
            let sps = parameters_of(config, session, cabac, desc).sps;
            let coded = session.coded_extent;
            let even = config.dimensions.width % 2 == 0 && config.dimensions.height % 2 == 0;
            let can = config.pixel_format == PixelFormat::Yuv444 || even;
            let unit = if sps.chroma_format_idc == 3 {
                1int
            } else {
                2int
            };
            &&& checks_cropping(config.dimensions, coded, config.pixel_format, Ok(())) <==> can
            &&& can ==> coded.width - sps.frame_crop_right_offset * unit
                == config.dimensions.width
            &&& can ==> coded.height - sps.frame_crop_bottom_offset * unit
                == config.dimensions.height
            &&& can ==> (sps.frame_cropping <==> coded != config.dimensions)
        }),
{
    let coded = session.coded_extent;
    lemma_crop(coded.width, config.dimensions.width, config.pixel_format);
    lemma_crop(coded.height, config.dimensions.height, config.pixel_format);
    if coded.width == config.dimensions.width && coded.height == config.dimensions.height {
        assert(coded == config.dimensions);
    }
}

} // verus!
