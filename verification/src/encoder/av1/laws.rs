//! What holds of the frame plans and sequence headers of an AV1 stream.

use super::frame::{Av1FramePlan, Av1FrameType, Av1Prediction};
use super::parameters::{
    sequence_header_of, session_profile_of, Av1ColorPrimaries, Av1MatrixCoefficients, Av1Profile,
    Av1TransferCharacteristics, SUPERBLOCK_SIZE,
};
use super::{is_key, Av1Model};
use crate::encoder::gop::GopFrameType;
use crate::encoder::rate_control::rate_control_of;
use crate::encoder::resources::{shows_slot, uploading};
use crate::encoder::session::block_size;
use crate::encoder::state::StartedFrame;
use crate::encoder::{
    BitDepth, Codec, ColorDescription, EncodeConfig, PixelFormat, RateControlMode,
};
use crate::vk::{AccessMask, ImageLayout};
use vstd::arithmetic::power2::pow2;
use vstd::prelude::*;

verus! {

/// Every frame is shown when it is decoded. What a plan says of its picture is what the
/// frame is: key frames alone are decodable on their own and predicted from nothing, and
/// only the others can be shown again. The slot that is set up gets the same picture, in
/// the current DPB slot, which is also its identifier.
pub proof fn law_picture_tells_the_frame(m: Av1Model, frame: StartedFrame, plan: Av1FramePlan)
    requires
        m.well_formed(),
        plan.plans(m.state, m.context(frame)),
    ensures
        ({
            let key = is_key(frame);
            let picture = plan.picture;
            &&& picture.show_frame
            &&& picture.frame_type == Av1FrameType::Key <==> key
            &&& picture.error_resilient_mode <==> key
            &&& picture.showable_frame <==> !key
            &&& plan.prediction == Av1Prediction::IntraOnly <==> key
            &&& plan.setup.frame_type == picture.frame_type
            &&& picture.order_hint == m.order_hint
            &&& plan.setup.order_hint == picture.order_hint
            &&& picture.frame_presentation_time == m.frame_num
            &&& picture.current_frame_id == plan.setup.dpb_slot
            &&& plan.setup.dpb_slot == m.state.current_dpb_slot
            &&& picture.tx_mode_select
            &&& plan.first_frame <==> m.state.encode_frame_num == 0
        }),
{
}

/// Pictures are rendered in the dimensions of the configuration, which are also those of
/// the frame, as far as 16 bits can give them.
pub proof fn law_picture_has_the_dimensions(m: Av1Model, frame: StartedFrame, plan: Av1FramePlan)
    requires
        1 <= m.state.config.dimensions.width <= 0x1_0000,
        1 <= m.state.config.dimensions.height <= 0x1_0000,
        plan.plans(m.state, m.context(frame)),
    ensures
        plan.frame_extent == m.state.config.dimensions,
        plan.picture.render_width_minus_1 + 1 == plan.frame_extent.width,
        plan.picture.render_height_minus_1 + 1 == plan.frame_extent.height,
{
}

/// Slot `k` is one of a set of slots.
pub open spec fn has_slot(flags: u8, k: u8) -> bool {
    (flags >> k) & 1 == 1
}

/// A frame that is not a key frame refers to the first reference, which is named alike
/// throughout its plan: video coding begins with its slot, it has a barrier that makes it
/// visible, and it is what the first reference name stands for. A key frame refers to
/// nothing. The slot that is set up loses what it held only on its first use, and is made
/// visible after the encode.
pub proof fn law_plan_names_its_reference(m: Av1Model, frame: StartedFrame, plan: Av1FramePlan)
    requires
        m.well_formed(),
        plan.plans(m.state, m.context(frame)),
    ensures
        ({
            let inter = !is_key(frame) && m.references.len() > 0;
            let reference = plan.reference->Some_0;
            let mapping = plan.picture.mapping;
            let active = m.state.slot_active[m.state.current_dpb_slot as int];
            &&& plan.reference is Some <==> inter
            &&& plan.begin_slots@.len() == if inter {
                2int
            } else {
                1int
            }
            &&& plan.begin_slots@[0] == -1
            &&& inter ==> {
                &&& reference.dpb_slot == m.references[0].dpb_slot
                &&& reference.order_hint == m.references[0].order_hint
                &&& reference.frame_type == Av1FrameType::Key
                &&& plan.begin_slots@[1] == reference.dpb_slot
                &&& plan.reference_name_slot_indices@[0] == reference.dpb_slot
                &&& mapping.ref_frame_idx@[0] == reference.dpb_slot
                &&& mapping.ref_order_hint@[0] == reference.order_hint
                &&& mapping.primary_ref_frame == 0
                &&& shows_slot(plan.barriers@[1], false, reference.dpb_slot)
            }
            &&& !inter ==> {
                &&& plan.reference_name_slot_indices@[0] == -1
                &&& mapping.ref_frame_idx@[0] == 0
                &&& mapping.ref_order_hint@[0] == 0
                &&& mapping.primary_ref_frame == 7
            }
            &&& forall|i: int|
                1 <= i < 7 ==> #[trigger] plan.reference_name_slot_indices@[i] == -1
                    && mapping.ref_frame_idx@[i] == 0
            &&& forall|i: int| 1 <= i < 8 ==> #[trigger] mapping.ref_order_hint@[i] == 0
            &&& plan.barriers@.len() == m.references.len() + 1
            &&& plan.barriers@[0].place.image == plan.setup.dpb_slot
            &&& plan.barriers@[0].place.layer == 0
            &&& plan.barriers@[0].old_layout == if active {
                ImageLayout::VideoEncodeDpb
            } else {
                ImageLayout::Undefined
            }
            &&& plan.barriers@[0].src_access == AccessMask::Empty
            &&& plan.barriers@[0].dst_access == AccessMask::Empty
            &&& shows_slot(plan.post_barrier, false, plan.setup.dpb_slot)
        }),
{
}

/// A key frame is stored in every reference slot. A frame that refers to one is stored in
/// the slot that it sets up alone, so that its reference stays where it is.
pub proof fn law_frames_are_stored(m: Av1Model, frame: StartedFrame, plan: Av1FramePlan, k: u8)
    requires
        m.well_formed(),
        plan.plans(m.state, m.context(frame)),
        k < 8,
    ensures
        is_key(frame) ==> has_slot(plan.picture.mapping.refresh_frame_flags, k),
        plan.reference is Some ==> (has_slot(plan.picture.mapping.refresh_frame_flags, k) <==> k
            == plan.setup.dpb_slot),
        plan.reference is Some && m.state.session.dpb_slot_count >= 2 ==> !has_slot(
            plan.picture.mapping.refresh_frame_flags,
            plan.reference->Some_0.dpb_slot,
        ),
        !is_key(frame) && plan.reference is None ==> !has_slot(
            plan.picture.mapping.refresh_frame_flags,
            k,
        ),
{
    let slot = m.state.current_dpb_slot;
    assert((0xffu8 >> k) & 1 == 1) by (bit_vector)
        requires
            k < 8,
    ;
    assert((0u8 >> k) & 1 == 0) by (bit_vector);
    lemma_one_slot(slot, k);
    if plan.reference is Some {
        lemma_one_slot(slot, plan.reference->Some_0.dpb_slot);
    }
}

proof fn lemma_one_slot(slot: u8, k: u8)
    requires
        slot < 8,
        k < 8,
    ensures
        has_slot(1u8 << slot, k) <==> k == slot,
{
    assert((((1u8 << slot) >> k) & 1 == 1) == (k == slot)) by (bit_vector)
        requires
            slot < 8,
            k < 8,
    ;
}

/// Quantization is fixed exactly in the modes without rate control, to the quality level;
/// otherwise it is left to the device and starts in the middle.
pub proof fn law_quantization(m: Av1Model, frame: StartedFrame, plan: Av1FramePlan)
    requires
        plan.plans(m.state, m.context(frame)),
        m.state.config.quality_level <= 255,
    ensures
        ({
            let fixed = m.state.config.rate_control_mode == RateControlMode::Disabled
                || m.state.config.rate_control_mode == RateControlMode::Cqp;
            &&& plan.rate_control == rate_control_of(m.state.config)
            &&& fixed ==> plan.constant_q_index == Some(m.state.config.quality_level)
                && plan.picture.base_q_idx == m.state.config.quality_level
            &&& !fixed ==> plan.constant_q_index is None && plan.picture.base_q_idx == 128
        }),
{
}

/// The loop filter has the deltas that the codec defines as default: more for intra blocks,
/// less for those predicted from the golden and the two alternative references, and the
/// same for all others.
pub proof fn law_loop_filter_has_default_deltas(
    m: Av1Model,
    frame: StartedFrame,
    plan: Av1FramePlan,
    i: int,
)
    requires
        plan.plans(m.state, m.context(frame)),
        0 <= i < 8,
    ensures
        plan.picture.loop_filter_ref_deltas@[i] == if i == 0 {
            1int
        } else if i == 4 || i >= 6 {
            -1int
        } else {
            0int
        },
        plan.picture.update_mode_delta == 1,
{
}

/// The chroma that the sequence header announces is that of the pictures: the dimensions of
/// the chroma plane that is uploaded are those of luma, shifted right by the subsampling in
/// each direction, which is 1 for 4:2:0 and 0 for 4:4:4. Samples have as many bits as the
/// configuration says, and the profile has the chroma.
pub proof fn law_header_describes_the_pictures(
    config: EncodeConfig,
    desc: ColorDescription,
    layout: ImageLayout,
)
    requires
        config.pixel_format != PixelFormat::Yuv422,
    ensures
        ({
            let width = config.dimensions.width;
            let height = config.dimensions.height;
            let header = sequence_header_of(config, desc);
            let color = header.color;
            let planes = uploading(width, height, config.pixel_format, layout)[2]->CopyImage_0;
            let subsampled = config.pixel_format == PixelFormat::Yuv420;
            &&& planes[1].width == width >> color.subsampling_x
            &&& planes[1].height == height >> color.subsampling_y
            &&& subsampled ==> color.subsampling_x == 1 && color.subsampling_y == 1
            &&& !subsampled ==> color.subsampling_x == 0 && color.subsampling_y == 0
            &&& header.seq_profile == Av1Profile::Main <==> subsampled
            &&& color.bit_depth == if config.bit_depth == BitDepth::Ten {
                10int
            } else {
                8int
            }
            &&& header.seq_level_idx == 5
            &&& header.enable_cdef
            &&& SUPERBLOCK_SIZE == block_size(Codec::AV1)
        }),
{
    let width = config.dimensions.width;
    let height = config.dimensions.height;
    assert(width >> 0u8 == width && width >> 1u8 == width / 2) by (bit_vector);
    assert(height >> 0u8 == height && height >> 1u8 == height / 2) by (bit_vector);
}

/// The session has the main profile for 8-bit 4:2:0 alone, and the header never asks for
/// more than it.
pub proof fn law_session_has_the_profile(config: EncodeConfig, desc: ColorDescription)
    ensures
        session_profile_of(config) == Av1Profile::Main <==> config.bit_depth == BitDepth::Eight
            && config.pixel_format == PixelFormat::Yuv420,
        sequence_header_of(config, desc).seq_profile == Av1Profile::High ==> session_profile_of(
            config,
        ) == Av1Profile::High,
{
}

/// The header announces the color description: the range, and BT.2020 primaries, PQ transfer
/// and BT.2020 matrix where it has their numbers, otherwise those of BT.709.
pub proof fn law_header_announces_the_colors(config: EncodeConfig, desc: ColorDescription)
    ensures
        ({
            let color = sequence_header_of(config, desc).color;
            &&& color.color_description_present
            &&& color.color_range == desc.full_range
            &&& color.color_primaries == Av1ColorPrimaries::Bt2020 <==> desc.color_primaries == 9
            &&& color.transfer_characteristics == Av1TransferCharacteristics::Smpte2084
                <==> desc.transfer_characteristics == 16
            &&& color.matrix_coefficients == Av1MatrixCoefficients::Bt2020Ncl
                <==> desc.matrix_coefficients == 9
        }),
{
}

/// Order hints, which frames have, start over where the bits that the header gives them
/// end. They and frame numbers count from a key frame on.
pub proof fn law_order_hints_fit_the_header(
    m: Av1Model,
    frame: StartedFrame,
    desc: ColorDescription,
)
    requires
        m.well_formed(),
        m.frame_num < u32::MAX,
    ensures
        ({
            let header = sequence_header_of(m.state.config, desc);
            let range = pow2((header.order_hint_bits_minus_1 + 1) as nat) as int;
            let started = m.picture_started(frame);
            &&& header.enable_order_hint
            &&& m.order_hint < range
            &&& started.finished(frame).order_hint == (started.order_hint + 1) % range
            &&& started.finished(frame).frame_num == started.frame_num + 1
            &&& is_key(frame) ==> started.order_hint == 0 && started.frame_num == 0
            &&& !is_key(frame) ==> started.order_hint == m.order_hint && started.frame_num
                == m.frame_num
        }),
{
    vstd::arithmetic::power2::lemma2_to64();
}

/// Intra frames are the key frames, whether or not they start a GOP.
pub proof fn law_intra_frames_are_key_frames(m: Av1Model, frame: StartedFrame, plan: Av1FramePlan)
    requires
        plan.plans(m.state, m.context(frame)),
    ensures
        ({
            let intra = frame.position.frame_type == GopFrameType::Idr
                || frame.position.frame_type == GopFrameType::I;
            &&& plan.picture.frame_type == Av1FrameType::Key <==> intra
            &&& plan.setup.frame_type == Av1FrameType::Key <==> intra
            &&& intra ==> m.finished(frame).references.len() == 1
            &&& !intra ==> m.finished(frame).references == m.references
        }),
{
}

} // verus!
