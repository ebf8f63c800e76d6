//! What holds of the frame plans and parameter sets of an H.265 stream.

use super::frame::{poc_distance, H265FramePlan, ReferenceInfo, LIST_SIZE};
use super::parameters::{parameters_of, profile_of, H265Profile, CTB_SIZE};
use super::{frame_finished, picture_started, H265Model};
use crate::encoder::dpb::rps::{lemma_low_ones_bits, used_bit};
use crate::encoder::gop::{wrapped_poc, GopFrameType};
use crate::encoder::laws::{h265_references_follow, law_h265_references_are_two_apart};
use crate::encoder::pictures::{CodedPictureType, SliceType};
use crate::encoder::rate_control::rate_control_of;
use crate::encoder::references::law_newest_is_remembered;
use crate::encoder::resources::shows_slot;
use crate::encoder::session::{block_size, SessionPlan};
use crate::encoder::state::{new_state, StartedFrame};
use crate::encoder::{
    BitDepth, Codec, ColorDescription, EncodeConfig, PixelFormat, RateControlMode,
};
use crate::vk::{AccessMask, ImageLayout};
use vstd::arithmetic::power2::pow2;
use vstd::prelude::*;

verus! {

/// Number of pictures among the first `n` plans that a decoder outputs.
pub open spec fn shown(plans: Seq<H265FramePlan>, n: nat) -> nat
    decreases n,
{
    if n == 0 {
        0
    } else {
        shown(plans, (n - 1) as nat) + if plans[n - 1].picture.pic_output {
            1nat
        } else {
            0nat
        }
    }
}

/// Every frame that is encoded is output, whatever its type: a decoder shows as many
/// frames as were encoded.
pub proof fn law_every_frame_is_shown(
    models: Seq<H265Model>,
    frames: Seq<StartedFrame>,
    plans: Seq<H265FramePlan>,
    n: nat,
)
    requires
        n <= plans.len(),
        plans.len() == models.len(),
        plans.len() == frames.len(),
        forall|k: int|
            0 <= k < plans.len() ==> (#[trigger] plans[k]).plans(
                models[k].state,
                models[k].context(),
                frames[k],
            ),
    ensures
        shown(plans, n) == n,
        forall|k: int| 0 <= k < plans.len() ==> (#[trigger] plans[k]).picture.pic_output,
    decreases n,
{
    if n > 0 {
        law_every_frame_is_shown(models, frames, plans, (n - 1) as nat);
        assert(plans[n - 1].plans(models[n - 1].state, models[n - 1].context(), frames[n - 1]));
    }
}

/// What a plan says of its picture is what the frame is. IDR frames are the random access
/// points, which discard what came before, and are the intra frames of a stream. Later
/// frames may refer to the picture exactly if the frame's place in the GOP says so. The slot
/// that is set up gets the same picture, in the current DPB slot.
pub proof fn law_picture_tells_the_frame(m: H265Model, frame: StartedFrame, plan: H265FramePlan)
    requires
        plan.plans(m.state, m.context(), frame),
    ensures
        ({
            let idr = frame.position.frame_type == GopFrameType::Idr;
            let b = frame.position.frame_type == GopFrameType::B;
            &&& plan.picture.irap <==> idr
            &&& plan.picture.no_output_of_prior_pics <==> idr
            &&& plan.picture.is_reference <==> frame.position.is_reference
            &&& plan.picture.picture_type == CodedPictureType::Idr <==> idr
            &&& plan.picture.picture_type == CodedPictureType::B <==> b
            &&& plan.slice.slice_type == SliceType::I <==> idr
            &&& plan.slice.slice_type == SliceType::B <==> b
            &&& plan.picture.pic_order_cnt == frame.position.pic_order_cnt
            &&& plan.setup.pic_order_cnt == plan.picture.pic_order_cnt
            &&& plan.setup.picture_type == plan.picture.picture_type
            &&& plan.setup.dpb_slot == m.state.current_dpb_slot
            &&& plan.coded_extent == m.state.session.coded_extent
            &&& plan.first_frame <==> m.state.encode_frame_num == 0
        }),
{
}

/// The references of a frame, which an IDR frame has none of, are named alike throughout
/// its plan: video coding begins with their slots, each has a barrier that makes it visible,
/// list 0 holds them in order, and the reference picture set has a picture that is used for
/// each. The slot that is set up loses what it held only on its first use, and is made
/// visible after the encode.
pub proof fn law_plan_names_its_references(m: H265Model, frame: StartedFrame, plan: H265FramePlan)
    requires
        m.references.len() <= LIST_SIZE,
        frame.position.frame_type != GopFrameType::B,
        plan.plans(m.state, m.context(), frame),
    ensures
        ({
            let n = plan.references@.len();
            let layered = m.state.session.use_layered_dpb;
            let active = m.state.slot_active[m.state.current_dpb_slot as int];
            &&& n == if frame.position.frame_type == GopFrameType::Idr {
                0
            } else {
                m.references.len()
            }
            &&& plan.begin_slots@.len() == n + 1
            &&& plan.begin_slots@[0] == -1
            &&& plan.barriers@.len() == m.references.len() + 1
            &&& plan.barriers@[0].place == plan.post_barrier.place
            &&& plan.barriers@[0].old_layout == if active {
                ImageLayout::VideoEncodeDpb
            } else {
                ImageLayout::Undefined
            }
            &&& plan.barriers@[0].src_access == AccessMask::Empty
            &&& plan.barriers@[0].dst_access == AccessMask::Empty
            &&& shows_slot(plan.post_barrier, layered, plan.setup.dpb_slot)
            &&& forall|i: int|
                0 <= i < n ==> {
                    let reference = #[trigger] plan.references@[i];
                    &&& reference.dpb_slot == m.references[i].dpb_slot
                    &&& reference.pic_order_cnt == m.references[i].poc
                    &&& reference.picture_type == CodedPictureType::P
                    &&& plan.begin_slots@[i + 1] == reference.dpb_slot
                    &&& shows_slot(plan.barriers@[i + 1], layered, reference.dpb_slot)
                    &&& plan.lists->Some_0.list0@[i] == reference.dpb_slot
                    &&& used_bit(plan.rps.used_by_curr_pic_s0_flag, i)
                }
            &&& plan.lists is Some <==> n > 0
            &&& n > 0 ==> {
                let lists = plan.lists->Some_0;
                &&& lists.num_ref_idx_l0_active_minus1 + 1 == n
                &&& lists.num_ref_idx_l1_active_minus1 == 0
                &&& forall|i: int| n <= i < 15 ==> #[trigger] lists.list0@[i] == 0xff
                &&& forall|i: int| 0 <= i < 15 ==> #[trigger] lists.list1@[i] == 0xff
            }
            &&& plan.rps.num_negative_pics == n
            &&& plan.rps.num_positive_pics == 0
            &&& plan.rps.used_by_curr_pic_s1_flag == 0
            &&& forall|i: int|
                n <= i < 16 ==> !#[trigger] used_bit(plan.rps.used_by_curr_pic_s0_flag, i)
        }),
{
    let n = plan.references@.len();
    assert forall|i: int| 0 <= i < 16 implies (used_bit(plan.rps.used_by_curr_pic_s0_flag, i)
        <==> i < n) by {
        lemma_low_ones_bits(n as int, i);
        lemma_low_ones_bits(0, i);
        assert(crate::encoder::dpb::rps::low_ones(0) == 0) by {
            assert(1u32 << 0u32 == 1) by (bit_vector);
        }
    }
    assert forall|i: int| 0 <= i < n implies {
        let reference = #[trigger] plan.references@[i];
        &&& reference.dpb_slot == m.references[i].dpb_slot
        &&& reference.pic_order_cnt == m.references[i].poc
        &&& reference.picture_type == CodedPictureType::P
        &&& plan.begin_slots@[i + 1] == reference.dpb_slot
        &&& shows_slot(plan.barriers@[i + 1], m.state.session.use_layered_dpb, reference.dpb_slot)
        &&& plan.lists->Some_0.list0@[i] == reference.dpb_slot
        &&& used_bit(plan.rps.used_by_curr_pic_s0_flag, i)
    } by {
        assert(used_bit(plan.rps.used_by_curr_pic_s0_flag, i) <==> i < n);
    }
}

/// One frame of a stream: the encoder before it and after the start of its picture, the
/// frame, its plan, and the encoder after it.
pub struct CodedFrame {
    pub before: H265Model,
    pub frame: StartedFrame,
    pub started: H265Model,
    pub plan: H265FramePlan,
    pub after: H265Model,
}

impl CodedFrame {
    /// The frame went through these steps. B-frames are not supported.
    #[verifier::opaque]
    pub open spec fn coded(self) -> bool {
        &&& self.before.well_formed()
        &&& self.frame.position.frame_type != GopFrameType::B
        &&& picture_started(self.before, self.frame, self.started)
        &&& self.plan.plans(self.started.state, self.started.context(), self.frame)
        &&& frame_finished(self.started, self.frame, self.after)
    }

    /// Another frame follows: references and DPB slot are as this one left them.
    pub open spec fn precedes(self, next: CodedFrame) -> bool {
        &&& next.before.references == self.after.references
        &&& next.before.state.current_dpb_slot == self.after.state.current_dpb_slot
    }
}

/// The frames of a stream, which starts without references.
pub open spec fn stream(frames: Seq<CodedFrame>) -> bool {
    &&& frames.len() > 0 ==> frames[0].before.references.len() == 0
    &&& forall|k: int| 0 <= k < frames.len() ==> (#[trigger] frames[k]).coded()
    &&& forall|k: int|
        1 <= k < frames.len() ==> frames[k - 1].precedes(#[trigger] frames[k])
}

/// Frame `j` was planned as a reference with this picture order count, and the slot that it
/// set up has not been set up by another frame before frame `k`.
pub open spec fn set_up_by(
    frames: Seq<CodedFrame>,
    j: int,
    k: int,
    slot: u8,
    poc: i32,
) -> bool {
    &&& 0 <= j < k
    &&& frames[j].plan.picture.is_reference
    &&& frames[j].plan.setup.dpb_slot == slot
    &&& frames[j].plan.setup.pic_order_cnt == poc
    &&& forall|l: int| j < l < k ==> (#[trigger] frames[l]).plan.setup.dpb_slot != slot
}

/// A reference after a frame is the frame, or was a reference before, in another slot.
proof fn lemma_reference_after(c: CodedFrame, i: int) -> (o: int)
    requires
        c.coded(),
        0 <= i < c.after.references.len(),
    ensures
        ({
            let reference = c.after.references[i];
            if o < 0 {
                &&& c.plan.picture.is_reference
                &&& c.plan.setup.dpb_slot == reference.dpb_slot
                &&& c.plan.setup.pic_order_cnt == reference.poc
            } else {
                &&& o < c.before.references.len()
                &&& c.before.references[o] == reference
                &&& c.plan.setup.dpb_slot != reference.dpb_slot
            }
        }),
{
    reveal(CodedFrame::coded);
    let started = c.started;
    let newest = ReferenceInfo {
        dpb_slot: started.state.current_dpb_slot,
        poc: c.frame.position.pic_order_cnt,
    };
    law_newest_is_remembered(
        started.references,
        newest,
        started.state.session.active_reference_count as nat,
    );
    if c.frame.position.is_reference && i == 0 {
        -1
    } else {
        let o = if c.frame.position.is_reference {
            i - 1
        } else {
            i
        };
        assert(c.after.references[i] == started.references[o]);
        lemma_references_are_elsewhere(c.before, o);
        o
    }
}

proof fn lemma_references_are_elsewhere(m: H265Model, o: int)
    requires
        m.well_formed(),
        0 <= o < m.references.len(),
    ensures
        m.references[o].dpb_slot != m.state.current_dpb_slot,
{
    let slots = super::frame::slots_of(m.references);
    assert(slots[o] == m.references[o].dpb_slot);
    assert(slots.contains(slots[o]));
}

proof fn lemma_references_were_set_up(frames: Seq<CodedFrame>, k: int, i: int)
    requires
        stream(frames),
        0 <= k < frames.len(),
        0 <= i < frames[k].before.references.len(),
    ensures
        exists|j: int|
            #[trigger] set_up_by(
                frames,
                j,
                k,
                frames[k].before.references[i].dpb_slot,
                frames[k].before.references[i].poc,
            ),
    decreases k,
{
    let reference = frames[k].before.references[i];
    if k > 0 {
        assert(frames[k - 1].coded());
        assert(frames[k - 1].precedes(frames[k]));
        let o = lemma_reference_after(frames[k - 1], i);
        if o < 0 {
            assert(set_up_by(frames, k - 1, k, reference.dpb_slot, reference.poc));
        } else {
            lemma_references_were_set_up(frames, k - 1, o);
            let j = choose|j: int|
                #[trigger] set_up_by(frames, j, k - 1, reference.dpb_slot, reference.poc);
            assert(set_up_by(frames, j, k, reference.dpb_slot, reference.poc));
        }
    }
}

/// Every reference that a plan names is the picture of an earlier frame that was planned as
/// a reference, and that no frame since, nor the frame itself, overwrites.
pub proof fn law_references_were_planned_as_references(
    frames: Seq<CodedFrame>,
    k: int,
    i: int,
)
    requires
        stream(frames),
        0 <= k < frames.len(),
        0 <= i < frames[k].plan.references@.len(),
    ensures
        ({
            let reference = frames[k].plan.references@[i];
            &&& frames[k].plan.setup.dpb_slot != reference.dpb_slot
            &&& exists|j: int|
                #[trigger] set_up_by(
                    frames,
                    j,
                    k,
                    reference.dpb_slot,
                    reference.pic_order_cnt,
                )
        }),
{
    assert(frames[k].coded());
    lemma_reference_named(frames[k], i);
    lemma_references_were_set_up(frames, k, i);
}

proof fn lemma_reference_named(c: CodedFrame, i: int)
    requires
        c.coded(),
        0 <= i < c.plan.references@.len(),
    ensures
        i < c.before.references.len(),
        c.plan.references@[i].dpb_slot == c.before.references[i].dpb_slot,
        c.plan.references@[i].pic_order_cnt == c.before.references[i].poc,
        c.plan.setup.dpb_slot != c.plan.references@[i].dpb_slot,
{
    reveal(CodedFrame::coded);
    law_plan_names_its_references(c.started, c.frame, c.plan);
    assert(c.plan.references@[i].dpb_slot == c.started.references[i].dpb_slot);
    lemma_references_are_elsewhere(c.before, i);
}

/// The reference picture set of a frame lets a decoder find the references: the distances
/// add up to those between the picture order counts, which are two for each frame.
pub proof fn law_set_finds_the_references(
    m: H265Model,
    frame: StartedFrame,
    plan: H265FramePlan,
    index: int,
    i: int,
)
    requires
        m.references.len() <= LIST_SIZE,
        frame.position.frame_type == GopFrameType::P,
        plan.plans(m.state, m.context(), frame),
        index > 0,
        h265_references_follow(m, index),
        frame.position.pic_order_cnt == wrapped_poc(index, 256),
        0 <= i < 16,
    ensures
        i < plan.references@.len() ==> plan.rps.delta_poc_s0_minus1@[i] + 1 == 2,
        i >= plan.references@.len() ==> plan.rps.delta_poc_s0_minus1@[i] == 0,
        plan.rps.delta_poc_s1_minus1@[i] == 0,
{
    if i < plan.references@.len() {
        law_h265_references_are_two_apart(m, frame.position.pic_order_cnt, index, i);
    }
}

/// Quantization is fixed exactly in the modes without rate control: the slice then has the
/// quality level, which is also the only one allowed. Otherwise it is left to the device,
/// in the range of the codec.
pub proof fn law_quantization(m: H265Model, frame: StartedFrame, plan: H265FramePlan)
    requires
        plan.plans(m.state, m.context(), frame),
        m.state.config.quality_level <= 51,
    ensures
        ({
            let fixed = m.state.config.rate_control_mode == RateControlMode::Disabled
                || m.state.config.rate_control_mode == RateControlMode::Cqp;
            &&& plan.rate_control == rate_control_of(m.state.config)
            &&& fixed ==> plan.constant_qp == m.state.config.quality_level && plan.qp_range.min
                == plan.constant_qp && plan.qp_range.max == plan.constant_qp
            &&& !fixed ==> plan.constant_qp == 0 && plan.qp_range.min == 26 && plan.qp_range.max
                == 51
        }),
{
}

/// The slice header of a frame uses what the parameter sets switch on: the sample adaptive
/// offset filter for luma and chroma. It is the only one of its picture, gives the number
/// of its references itself, and allows the most candidates that there are.
pub proof fn law_slice_uses_what_the_parameter_sets_enable(
    m: H265Model,
    frame: StartedFrame,
    plan: H265FramePlan,
    desc: ColorDescription,
)
    requires
        plan.plans(m.state, m.context(), frame),
    ensures
        ({
            let sps = parameters_of(m.state.config, m.state.session, m.profile, desc).sps;
            &&& plan.slice.slice_sao_luma && sps.sample_adaptive_offset_enabled
            &&& plan.slice.slice_sao_chroma && sps.sample_adaptive_offset_enabled
            &&& plan.slice.first_slice_segment_in_pic
            &&& plan.slice.num_ref_idx_active_override
            &&& plan.slice.max_num_merge_cand == 5
        }),
{
}

/// The pictures that the parameter sets announce are those that are encoded: of the coded
/// extent, with the chroma and the bit depth of the configuration, in a profile that has
/// both.
pub proof fn law_parameter_sets_describe_the_pictures(
    m: H265Model,
    frame: StartedFrame,
    plan: H265FramePlan,
    desc: ColorDescription,
)
    requires
        plan.plans(m.state, m.context(), frame),
        m.state.config.pixel_format != PixelFormat::Yuv422,
        profile_of(m.state.config.pixel_format, m.state.config.bit_depth) == Some(m.profile),
    ensures
        ({
            let format = m.state.config.pixel_format;
            let depth = m.state.config.bit_depth;
            let parameters = parameters_of(m.state.config, m.state.session, m.profile, desc);
            let sps = parameters.sps;
            let bits = if depth == BitDepth::Ten {
                10int
            } else {
                8int
            };
            &&& sps.pic_width_in_luma_samples == plan.coded_extent.width
            &&& sps.pic_height_in_luma_samples == plan.coded_extent.height
            &&& format == PixelFormat::Yuv420 ==> sps.chroma_format_idc == 1
            &&& format == PixelFormat::Yuv444 ==> sps.chroma_format_idc == 3
            &&& sps.bit_depth_luma_minus8 + 8 == bits
            &&& sps.bit_depth_chroma_minus8 + 8 == bits
            &&& parameters.pps.luma_bit_depth_entry_minus8 + 8 == bits
            &&& parameters.pps.chroma_bit_depth_entry_minus8 + 8 == bits
            &&& sps.profile_tier_level.general_profile == m.profile
            &&& m.profile == H265Profile::FormatRangeExtensions <==> sps.chroma_format_idc == 3
            &&& m.profile == H265Profile::Main ==> sps.chroma_format_idc == 1 && bits == 8
            &&& m.profile == H265Profile::Main10 ==> sps.chroma_format_idc == 1 && bits == 10
            &&& sps.profile_tier_level.general_progressive_source
            &&& sps.profile_tier_level.general_frame_only_constraint
            &&& sps.profile_tier_level.general_level == 51
        }),
{
}

/// The block sizes of the parameter sets fit together: the largest coding block is the CTB
/// that coded extents are made of, transform blocks go from 4 samples up to it, they can be
/// divided all the way, and PCM blocks are as large as coding blocks, with 8-bit samples.
pub proof fn law_block_sizes(
    config: EncodeConfig,
    session: SessionPlan,
    profile: H265Profile,
    desc: ColorDescription,
)
    ensures
        ({
            let sps = parameters_of(config, session, profile, desc).sps;
            let smallest = sps.log2_min_luma_coding_block_size_minus3 + 3;
            let largest = smallest + sps.log2_diff_max_min_luma_coding_block_size;
            let least_transform = sps.log2_min_luma_transform_block_size_minus2 + 2;
            let most_transform = least_transform + sps.log2_diff_max_min_luma_transform_block_size;
            let smallest_pcm = sps.log2_min_pcm_luma_coding_block_size_minus3 + 3;
            &&& pow2(largest as nat) == CTB_SIZE
            &&& CTB_SIZE == block_size(Codec::H265)
            &&& pow2(smallest as nat) == 16
            &&& pow2(least_transform as nat) == 4
            &&& most_transform == largest
            &&& sps.max_transform_hierarchy_depth_inter == largest - least_transform
            &&& sps.max_transform_hierarchy_depth_intra == largest - least_transform
            &&& smallest_pcm == smallest
            &&& smallest_pcm + sps.log2_diff_max_min_pcm_luma_coding_block_size == largest
            &&& sps.pcm_sample_bit_depth_luma_minus1 + 1 == 8
            &&& sps.pcm_sample_bit_depth_chroma_minus1 + 1 == 8
        }),
{
    vstd::arithmetic::power2::lemma2_to64();
}

/// The decoded picture buffer of the parameter sets is that of the session, and the
/// reference picture set that they give has the picture before the frame.
pub proof fn law_parameter_sets_describe_the_references(
    m: H265Model,
    frame: StartedFrame,
    plan: H265FramePlan,
    desc: ColorDescription,
)
    requires
        m.well_formed(),
        frame.position.frame_type != GopFrameType::B,
        plan.plans(m.state, m.context(), frame),
    ensures
        ({
            let sps = parameters_of(m.state.config, m.state.session, m.profile, desc).sps;
            &&& sps.max_dec_pic_buffering_minus1 + 1 == m.state.session.dpb_slot_count
            &&& plan.references@.len() <= sps.max_dec_pic_buffering_minus1
            &&& sps.rps_num_negative_pics == 1
            &&& sps.rps_used_by_curr_pic_s0_flag == 1
        }),
{
    law_plan_names_its_references(m, frame, plan);
}

/// Picture order counts start over at twice the range of the LSB that the parameter sets
/// give.
pub proof fn law_picture_order_counts_fit_the_lsb(
    m: H265Model,
    desc: ColorDescription,
)
    requires
        new_state(m.state, m.state.config, m.state.session),
    ensures
        ({
            let sps = parameters_of(m.state.config, m.state.session, m.profile, desc).sps;
            m.state.gop.max_poc_lsb == pow2((sps.log2_max_pic_order_cnt_lsb_minus4 + 4) as nat)
        }),
{
    vstd::arithmetic::power2::lemma2_to64();
}

/// The parameter sets announce the color description, field by field, and what tells a
/// decoder that it is there.
pub proof fn law_parameter_sets_announce_the_colors(
    config: EncodeConfig,
    session: SessionPlan,
    profile: H265Profile,
    desc: ColorDescription,
)
    ensures
        ({
            let sps = parameters_of(config, session, profile, desc).sps;
            &&& sps.vui_parameters_present
            &&& sps.vui.video_signal_type_present
            &&& sps.vui.colour_description_present
            &&& sps.vui.video_full_range == desc.full_range
            &&& sps.vui.colour_primaries == desc.color_primaries
            &&& sps.vui.transfer_characteristics == desc.transfer_characteristics
            &&& sps.vui.matrix_coeffs == desc.matrix_coefficients
            &&& sps.vui.aspect_ratio_info_present
            &&& sps.vui.video_format == 5
        }),
{
}

/// Video and sequence parameter set agree on layers, and the tools that have no counterpart
/// in the configuration are all enabled.
pub proof fn law_tools_are_enabled(
    config: EncodeConfig,
    session: SessionPlan,
    profile: H265Profile,
    desc: ColorDescription,
)
    ensures
        ({
            let parameters = parameters_of(config, session, profile, desc);
            let sps = parameters.sps;
            let pps = parameters.pps;
            &&& parameters.vps.temporal_id_nesting && sps.temporal_id_nesting
            &&& parameters.vps.sub_layer_ordering_info_present
                && sps.sub_layer_ordering_info_present
            &&& sps.amp_enabled
            &&& pps.cabac_init_present
            &&& pps.transform_skip_enabled
            &&& pps.cu_qp_delta_enabled
            &&& pps.loop_filter_across_slices_enabled
            &&& pps.deblocking_filter_control_present
        }),
{
}

/// A B frame names all references before it and the one after it, in that order. List 0
/// holds the most recent one, list 1 the one after the frame, and the reference picture set
/// has all of them, with the distance of the one after the frame.
pub proof fn law_b_plan_names_its_references(m: H265Model, frame: StartedFrame, plan: H265FramePlan)
    requires
        0 < m.references.len() <= LIST_SIZE,
        m.backward is Some,
        frame.position.frame_type == GopFrameType::B,
        plan.plans(m.state, m.context(), frame),
        m.backward->Some_0.poc - 0x1_0000 < frame.position.pic_order_cnt
            < m.backward->Some_0.poc,
    ensures
        ({
            let n = m.references.len();
            let after = m.backward->Some_0;
            let lists = plan.lists->Some_0;
            &&& plan.references@.len() == n + 1
            &&& plan.begin_slots@.len() == n + 2
            &&& plan.begin_slots@[0] == -1
            &&& forall|i: int|
                0 <= i < n ==> (#[trigger] plan.references@[i]).dpb_slot
                    == m.references[i].dpb_slot && plan.references@[i].pic_order_cnt
                    == m.references[i].poc && plan.begin_slots@[i + 1]
                    == m.references[i].dpb_slot
            &&& plan.references@[n as int].dpb_slot == after.dpb_slot
            &&& plan.references@[n as int].pic_order_cnt == after.poc
            &&& plan.begin_slots@[n as int + 1] == after.dpb_slot
            &&& plan.lists is Some
            &&& lists.num_ref_idx_l0_active_minus1 == 0
            &&& lists.num_ref_idx_l1_active_minus1 == 0
            &&& lists.list0@[0] == m.references[0].dpb_slot
            &&& lists.list1@[0] == after.dpb_slot
            &&& forall|i: int|
                1 <= i < 15 ==> #[trigger] lists.list0@[i] == 0xff && lists.list1@[i] == 0xff
            &&& plan.rps.num_negative_pics == n
            &&& plan.rps.num_positive_pics == 1
            &&& plan.rps.used_by_curr_pic_s1_flag == 1
            &&& frame.position.pic_order_cnt + plan.rps.delta_poc_s1_minus1@[0] + 1 == after.poc
            &&& forall|i: int|
                1 <= i < 16 ==> #[trigger] plan.rps.delta_poc_s1_minus1@[i] == 0
        }),
{
}

/// A frame that is no reference leaves references, DPB slot and decoded picture buffer as
/// they are.
pub proof fn law_other_frames_leave_the_references(
    m: H265Model,
    frame: StartedFrame,
    next: H265Model,
)
    requires
        !frame.position.is_reference,
        frame_finished(m, frame, next),
    ensures
        next.references == m.references,
        next.backward == m.backward,
        next.state.current_dpb_slot == m.state.current_dpb_slot,
        next.dpb == m.dpb,
        next.header == m.header,
        next.profile == m.profile,
{
}

/// The offsets of the conformance window count chroma samples, as many as lie whole between
/// the dimensions of the configuration and the coded extent. There is a window exactly if
/// one of them does.
pub proof fn law_window_counts_chroma_samples(
    config: EncodeConfig,
    session: SessionPlan,
    profile: H265Profile,
    desc: ColorDescription,
)
    requires
        config.pixel_format != PixelFormat::Yuv422,
        config.dimensions.width <= session.coded_extent.width,
        config.dimensions.height <= session.coded_extent.height,
    ensures
        ({
            let sps = parameters_of(config, session, profile, desc).sps;
            let right = session.coded_extent.width - config.dimensions.width;
            let bottom = session.coded_extent.height - config.dimensions.height;
            let unit = if sps.chroma_format_idc == 3 {
                1int
            } else {
                2int
            };
            &&& sps.conf_win_right_offset * unit <= right < sps.conf_win_right_offset * unit + unit
            &&& sps.conf_win_bottom_offset * unit <= bottom < sps.conf_win_bottom_offset * unit
                + unit
            &&& sps.conformance_window <==> right >= unit || bottom >= unit
        }),
{
}

/// The distance of two picture order counts is the shortest way between them, where they
/// start over at twice the range of their LSB.
pub proof fn law_distance_is_the_shortest(reference: i32, poc: i32)
    requires
        0 <= reference < 512,
        0 <= poc < 512,
    ensures
        ({
            let d = poc_distance(reference, poc);
            &&& -256 <= d <= 256
            &&& (poc + d) % 512 == reference
        }),
{
}

} // verus!
