//! What holds of a frame on its way through an encoder of any codec.

use super::any::{
    creates, frame_finished, needs_header, picture_started, Encoder, EncoderModel,
};
use super::gop::GopFrameType;
use super::pipeline::{packet_of, rotated, MetadataModel};
use super::resources::uploading;
use super::state::{color_of, new_state, StartedFrame, StateModel};
use super::{Codec, EncodeConfig, FrameType};
use crate::encoder::session::{negotiates, DeviceReport, SessionPlan};
use crate::steps::{layouts_after, moves_layouts, Layouts};
use crate::vk::ImageLayout;
use vstd::prelude::*;

verus! {

/// Frames are numbered in the order in which they are started, from 0 on, and starting one
/// leaves everything but the numbering and the GOP as it is.
pub proof fn law_frames_are_numbered(m: StateModel)
    requires
        m.well_formed(),
        m.input_frame_num < u64::MAX,
    ensures
        m.coming().display_order == m.input_frame_num,
        m.started().coming().display_order == m.coming().display_order + 1,
        m.started().pipeline == m.pipeline,
        m.started().encode_frame_num == m.encode_frame_num,
        m.started().current_dpb_slot == m.current_dpb_slot,
        m.started().slot_active == m.slot_active,
        m.started().config == m.config,
        m.started().session == m.session,
{
}

/// An upload finds the input image in the layout that the encoder has noted, and leaves it
/// in the one that it notes afterwards, which is that of an encoder's input.
pub proof fn law_upload_keeps_track_of_the_layout(m: StateModel)
    requires
        m.well_formed(),
    ensures
        ({
            let before = m.pipeline.slots[m.pipeline.current].layout;
            let after = m.filled().pipeline.slots[m.pipeline.current].layout;
            &&& after == ImageLayout::VideoEncodeSrc
            &&& moves_layouts(
                uploading(
                    m.config.dimensions.width,
                    m.config.dimensions.height,
                    m.config.pixel_format,
                    before,
                ),
                Layouts { source: ImageLayout::General, target: before },
                Layouts { source: ImageLayout::General, target: after },
            )
        }),
{
    reveal_with_fuel(layouts_after, 6);
}

/// The frame is one that a stream can be joined at: an IDR frame, and for AV1 any intra
/// frame.
pub open spec fn joins(m: EncoderModel, frame: StartedFrame) -> bool {
    frame.position.frame_type == GopFrameType::Idr || (m is AV1 && frame.position.frame_type
        == GopFrameType::I)
}

/// Starting the picture of a frame that a stream can be joined at forgets all references,
/// and for H.265 and AV1 all DPB slots; starting that of any other frame changes nothing.
/// The header is retrieved for such a frame alone, always by H.264 and by the others if they
/// have none yet.
pub proof fn law_start_of_a_picture(m: EncoderModel, frame: StartedFrame, next: EncoderModel)
    requires
        picture_started(m, frame, next),
    ensures
        !joins(m, frame) ==> next == m && !needs_header(m, frame),
        joins(m, frame) ==> match next {
            EncoderModel::H264(h) => h.references.len() == 0 && h.backward is None && h.frame_num
                == 0 && h.state == m.state() && needs_header(m, frame),
            EncoderModel::H265(h) => h.references.len() == 0 && h.backward is None
                && (needs_header(m, frame) <==> h.header is None),
            EncoderModel::AV1(a) => a.references.len() == 0 && a.frame_num == 0 && a.order_hint
                == 0 && (needs_header(m, frame) <==> a.header is None),
        },
        joins(m, frame) && !(m is H264) ==> forall|i: int|
            0 <= i < next.state().slot_active.len() ==> !#[trigger] next.state().slot_active[i],
{
}

/// Finishing a frame puts its slot in flight with the info on its packet: whether a stream
/// can be joined at it, its number in display order and in encode order, and its type. The
/// next slot of the pipeline is then the current one, the DPB slot of the frame has been
/// used, and the frame is counted. Nothing else changes in the state that codecs share.
pub proof fn law_finished_frame_is_in_flight(
    m: EncoderModel,
    frame: StartedFrame,
    header: Option<Seq<u8>>,
    next: EncoderModel,
)
    requires
        m.state().well_formed(),
        m.state().encode_frame_num < u64::MAX,
        frame_finished(m, frame, header, next),
    ensures
        ({
            let old = m.state();
            let new = next.state();
            let slot = new.pipeline.slots[old.pipeline.current];
            let pending = slot.pending->Some_0;
            let count = old.pipeline.slots.len() as int;
            &&& slot.in_flight
            &&& slot.pending is Some
            &&& slot.layout == old.pipeline.slots[old.pipeline.current].layout
            &&& pending.is_key_frame <==> joins(m, frame)
            &&& pending.pts == frame.display_order
            &&& pending.dts == old.encode_frame_num
            &&& pending.frame_type == FrameType::P <==> frame.position.frame_type
                == GopFrameType::P
            &&& pending.frame_type == FrameType::B <==> frame.position.frame_type
                == GopFrameType::B
            &&& pending.frame_type == FrameType::I <==> frame.position.frame_type
                == GopFrameType::Idr || frame.position.frame_type == GopFrameType::I
            &&& new.pipeline.slots.len() == count
            &&& forall|i: int|
                0 <= i < count && i != old.pipeline.current ==> #[trigger] new.pipeline.slots[i]
                    == old.pipeline.slots[i]
            &&& new.pipeline.current == (old.pipeline.current + 1) % count
            &&& new.pipeline.last_value == old.pipeline.next_value
            &&& new.encode_frame_num == old.encode_frame_num + 1
            &&& new.slot_active.len() == old.slot_active.len()
            &&& new.slot_active[old.current_dpb_slot as int]
            &&& forall|i: int|
                0 <= i < old.slot_active.len() && i != old.current_dpb_slot
                    ==> #[trigger] new.slot_active[i] == old.slot_active[i]
            &&& new.config == old.config
            &&& new.session == old.session
            &&& new.gop == old.gop
            &&& new.input_frame_num == old.input_frame_num
        }),
{
    let old = m.state();
    let count = old.pipeline.slots.len() as int;
    let current = old.pipeline.current;
    assert(next.state().pipeline.current == rotated(current, 1, count));
    if current + 1 < count {
        vstd::arithmetic::div_mod::lemma_small_mod((current + 1) as nat, count as nat);
    } else {
        vstd::arithmetic::div_mod::lemma_mod_self_0(count);
    }
}

/// Color is that of the configuration; where it gives none, BT.709 in full range.
pub proof fn law_colors_of_a_configuration(config: EncodeConfig)
    ensures
        config.color_description matches Some(desc) ==> color_of(config) == desc,
        config.color_description is None ==> {
            &&& color_of(config).color_primaries == 1
            &&& color_of(config).transfer_characteristics == 1
            &&& color_of(config).matrix_coefficients == 1
            &&& color_of(config).full_range
        },
{
}

/// A new encoder starts with an IDR frame, which is frame 0 and goes into DPB slot 0. No
/// slot of the pipeline or of the DPB is in use, and input images are in the layout of an
/// encoder's input.
pub proof fn law_new_encoder(m: StateModel, config: EncodeConfig, session: SessionPlan)
    requires
        new_state(m, config, session),
    ensures
        m.coming().position.frame_type == GopFrameType::Idr,
        m.coming().position.pic_order_cnt == 0,
        m.coming().position.is_reference,
        m.coming().display_order == 0,
        m.current_dpb_slot == 0,
        m.slot_active.len() == session.dpb_slot_count,
        forall|i: int| 0 <= i < m.slot_active.len() ==> !#[trigger] m.slot_active[i],
        m.pipeline.slots.len() == 2,
        forall|i: int|
            0 <= i < 2 ==> !(#[trigger] m.pipeline.slots[i]).in_flight && m.pipeline.slots[i].layout
                == ImageLayout::VideoEncodeSrc,
        config.gop_size > 0 ==> m.gop.gop_size == config.gop_size,
{
    vstd::arithmetic::div_mod::lemma_small_mod(0, 256);
}

/// The header that goes with a frame at which a stream can be joined is the one that was
/// retrieved for it, or else the one that the encoder has kept; H.264 encoders keep none.
/// H.265 and AV1 encoders keep the header after any frame.
pub proof fn law_header_is_kept(
    m: EncoderModel,
    frame: StartedFrame,
    header: Option<Seq<u8>>,
    next: EncoderModel,
)
    requires
        m.state().well_formed(),
        frame_finished(m, frame, header, next),
    ensures
        ({
            let pending = next.state().pipeline.slots[m.state().pipeline.current].pending;
            let kept = match m {
                EncoderModel::H264(_) => None,
                EncoderModel::H265(h) => h.header,
                EncoderModel::AV1(a) => a.header,
            };
            let known = if header is Some {
                header
            } else {
                kept
            };
            &&& joins(m, frame) ==> pending->Some_0.header == known
            &&& !joins(m, frame) && !(m is H264) ==> pending->Some_0.header is None
            &&& match next {
                EncoderModel::H264(_) => m is H264,
                EncoderModel::H265(h) => m is H265 && h.header == known,
                EncoderModel::AV1(a) => m is AV1 && a.header == known,
            }
        }),
{
}

/// An encoder that is created is one of the codec that was asked for, with the configuration
/// and the session that was negotiated for it. It has no references and no header yet, and
/// an H.264 encoder uses CABAC unless the device prefers otherwise.
pub proof fn law_created_encoder(
    config: EncodeConfig,
    report: DeviceReport,
    preferred_entropy_cabac: Option<bool>,
    encoder: Encoder,
)
    requires
        creates(config, report, preferred_entropy_cabac, Ok(encoder)),
    ensures
        encoder@.state().config == config,
        negotiates(config.codec, config, report, Ok(encoder@.state().session)),
        match encoder@ {
            EncoderModel::H264(m) => {
                &&& config.codec == Codec::H264
                &&& m.references.len() == 0
                &&& m.backward is None
                &&& m.frame_num == 0
                &&& m.cabac <==> preferred_entropy_cabac != Some(false)
            },
            EncoderModel::H265(m) => {
                &&& config.codec == Codec::H265
                &&& m.references.len() == 0
                &&& m.backward is None
                &&& m.header is None
            },
            EncoderModel::AV1(m) => {
                &&& config.codec == Codec::AV1
                &&& m.references.len() == 0
                &&& m.frame_num == 0
                &&& m.order_hint == 0
                &&& m.header is None
            },
        },
{
}

/// Each AV1 packet starts with a temporal delimiter, an OBU of type 2 without a payload.
/// Packets of the other codecs start with their header, or with the bitstream.
pub proof fn law_packets_start_with_the_prefix(
    m: EncoderModel,
    metadata: MetadataModel,
    bitstream: Seq<u8>,
)
    ensures
        ({
            let data = packet_of(m.prefix(), metadata, bitstream).data;
            let skipped = if m is AV1 {
                2int
            } else {
                0int
            };
            &&& m is AV1 ==> data[0] == 2 * 8 + 2 && data[1] == 0
            &&& data.len() >= skipped
            &&& metadata.header is None ==> data.skip(skipped) =~= bitstream
            &&& metadata.header is Some ==> data.skip(skipped) =~= metadata.header->Some_0
                + bitstream
        }),
{
}

} // verus!
