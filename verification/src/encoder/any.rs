//! Encoder of any codec.

use super::av1::{AV1Encoder, Av1FramePlan, Av1Model};
use super::gop::GopFrameType;
use super::h264::{H264Encoder, H264FramePlan, H264Model};
use super::h265::{H265Encoder, H265FramePlan, H265Model};
use super::header::{HeaderOutcome, HeaderQuery, HeaderQueryModel, MAX_ATTEMPTS};
use super::pipeline::{drains, flushes, header_seq, NO_METADATA, NO_PACKET_METADATA};
use super::resources::uploading;
use super::session::{extent_fits, extent_is_computable, DeviceReport};
use super::state::{EncoderState, StartedFrame, StateModel};
use super::{Codec, ColorDescription, EncodeConfig, EncodedPacket, PixelFormat};
use crate::error::PixelForgeError;
use crate::steps::{modelled, Step};
use vstd::prelude::*;

verus! {

/// Video encoder, for the codec of its configuration.
#[derive(Debug)]
pub enum Encoder {
    /// H.264/AVC encoder.
    H264(H264Encoder),
    /// H.265/HEVC encoder.
    H265(H265Encoder),
    /// AV1 encoder.
    AV1(AV1Encoder),
}

/// Plan of the encode of one frame, for the codec of the encoder.
#[derive(Debug)]
pub enum FramePlan {
    /// Plan of an H.264 frame.
    H264(H264FramePlan),
    /// Plan of an H.265 frame.
    H265(H265FramePlan),
    /// Plan of an AV1 frame.
    AV1(Av1FramePlan),
}

/// What an encoder holds.
pub enum EncoderModel {
    /// What an H.264 encoder holds.
    H264(H264Model),
    /// What an H.265 encoder holds.
    H265(H265Model),
    /// What an AV1 encoder holds.
    AV1(Av1Model),
}

impl EncoderModel {
    /// The encoder of the codec is well formed.
    pub open spec fn well_formed(self) -> bool {
        match self {
            EncoderModel::H264(m) => m.well_formed(),
            EncoderModel::H265(m) => m.well_formed(),
            EncoderModel::AV1(m) => m.well_formed(),
        }
    }

    /// The state that all codecs share.
    pub open spec fn state(self) -> StateModel {
        match self {
            EncoderModel::H264(m) => m.state,
            EncoderModel::H265(m) => m.state,
            EncoderModel::AV1(m) => m.state,
        }
    }

    /// The encoder with another shared state.
    pub open spec fn with_state(self, state: StateModel) -> EncoderModel {
        match self {
            EncoderModel::H264(m) => EncoderModel::H264(H264Model { state, ..m }),
            EncoderModel::H265(m) => EncoderModel::H265(H265Model { state, ..m }),
            EncoderModel::AV1(m) => EncoderModel::AV1(Av1Model { state, ..m }),
        }
    }

    /// The bytes that start every packet.
    pub open spec fn prefix(self) -> Seq<u8> {
        match self {
            EncoderModel::AV1(_) => super::av1::temporal_delimiter(),
            _ => Seq::empty(),
        }
    }

    /// The message of a drained slot without packet info.
    pub open spec fn missing(self) -> Seq<char> {
        match self {
            EncoderModel::H265(_) => NO_PACKET_METADATA@,
            _ => NO_METADATA@,
        }
    }

    /// A flush that fails makes the slot at which it does the current one. H.265 encoders
    /// keep the current slot.
    pub open spec fn moves(self) -> bool {
        !(self is H265)
    }

    /// The frame can be planned, submitted and finished. Numbers have not run out, and
    /// B-frames are not supported. The DPB of H.265 takes frames other than IDR frames
    /// only if it has two slots or more.
    pub open spec fn takes(self, frame: StartedFrame) -> bool {
        let poc = frame.position.pic_order_cnt;
        &&& self.state().encode_frame_num < u64::MAX
        &&& self.state().pipeline.next_value < u64::MAX
        &&& match self {
            EncoderModel::H264(m) => super::h264::frame::qp_delta_fits(m.state.config),
            EncoderModel::H265(m) => {
                &&& super::h265::frame::poc_fits(poc)
                &&& frame.position.frame_type != GopFrameType::B
                &&& m.state.session.dpb_slot_count >= 2 || frame.position.frame_type
                    == GopFrameType::Idr
            },
            EncoderModel::AV1(m) => m.frame_num < u32::MAX,
        }
    }
}

impl View for Encoder {
    type V = EncoderModel;

    open spec fn view(&self) -> EncoderModel {
        match self {
            Encoder::H264(encoder) => EncoderModel::H264(encoder@),
            Encoder::H265(encoder) => EncoderModel::H265(encoder@),
            Encoder::AV1(encoder) => EncoderModel::AV1(encoder@),
        }
    }
}

/// Creating an encoder gives the result of creating that of the codec.
pub open spec fn creates(
    config: EncodeConfig,
    report: DeviceReport,
    preferred_entropy_cabac: Option<bool>,
    result: Result<Encoder, PixelForgeError>,
) -> bool {
    match (config.codec, result) {
        (Codec::H264, Ok(Encoder::H264(encoder))) => super::h264::creates(
            config,
            report,
            preferred_entropy_cabac,
            Ok(encoder),
        ),
        (Codec::H264, Err(e)) => super::h264::creates(
            config,
            report,
            preferred_entropy_cabac,
            Err(e),
        ),
        (Codec::H265, Ok(Encoder::H265(encoder))) => super::h265::creates(
            config,
            report,
            Ok(encoder),
        ),
        (Codec::H265, Err(e)) => super::h265::creates(config, report, Err(e)),
        (Codec::AV1, Ok(Encoder::AV1(encoder))) => super::av1::creates(
            config,
            report,
            Ok(encoder),
        ),
        (Codec::AV1, Err(e)) => super::av1::creates(config, report, Err(e)),
        _ => false,
    }
}

/// The dimensions that the encoder of a codec can be created for.
pub open spec fn dimensions_fit(config: EncodeConfig, report: DeviceReport) -> bool {
    &&& report.capabilities matches Ok(caps) ==> {
        &&& extent_fits(config.codec, config.dimensions, caps)
        &&& config.codec == Codec::H264 ==> {
            &&& config.dimensions.width > 0 || caps.min_coded_extent.width > 0
            &&& config.dimensions.height > 0 || caps.min_coded_extent.height > 0
        }
    }
    &&& config.codec == Codec::AV1 ==> config.dimensions.width >= 2 && config.dimensions.height
        >= 2
}

/// `next` is the state after the start of the picture of a frame.
pub open spec fn picture_started(m: EncoderModel, frame: StartedFrame, next: EncoderModel) -> bool {
    match (m, next) {
        (EncoderModel::H264(m), EncoderModel::H264(next)) => next == m.picture_started(frame),
        (EncoderModel::H265(m), EncoderModel::H265(next)) => super::h265::picture_started(
            m,
            frame,
            next,
        ),
        (EncoderModel::AV1(m), EncoderModel::AV1(next)) => next == m.picture_started(frame),
        _ => false,
    }
}

/// The header has to be retrieved for the picture of a frame. H.265 and AV1 encoders
/// keep it.
pub open spec fn needs_header(m: EncoderModel, frame: StartedFrame) -> bool {
    match m {
        EncoderModel::H264(_) => frame.position.frame_type == GopFrameType::Idr,
        EncoderModel::H265(m) => frame.position.frame_type == GopFrameType::Idr
            && m.header is None,
        EncoderModel::AV1(m) => super::av1::is_key(frame) && m.header is None,
    }
}

/// `plan` is that of the encode of a frame.
pub open spec fn plans(m: EncoderModel, frame: StartedFrame, plan: FramePlan) -> bool {
    match (m, plan) {
        (EncoderModel::H264(m), FramePlan::H264(plan)) => plan.plans(m.state, m.context(), frame),
        (EncoderModel::H265(m), FramePlan::H265(plan)) => plan.plans(m.state, m.context(), frame),
        (EncoderModel::AV1(m), FramePlan::AV1(plan)) => plan.plans(m.state, m.context(frame)),
        _ => false,
    }
}

/// The header that is kept after a frame for which one was retrieved or not.
pub open spec fn header_kept(kept: Option<Seq<u8>>, retrieved: Option<Seq<u8>>) -> Option<Seq<u8>> {
    match retrieved {
        Some(header) => Some(header),
        None => kept,
    }
}

/// `next` is the state after a frame has been submitted.
pub open spec fn frame_finished(
    m: EncoderModel,
    frame: StartedFrame,
    header: Option<Seq<u8>>,
    next: EncoderModel,
) -> bool {
    match (m, next) {
        (EncoderModel::H264(m), EncoderModel::H264(next)) => next == m.finished(frame, header),
        (EncoderModel::H265(m), EncoderModel::H265(next)) => super::h265::frame_finished(
            H265Model { header: header_kept(m.header, header), ..m },
            frame,
            next,
        ),
        (EncoderModel::AV1(m), EncoderModel::AV1(next)) => next == (Av1Model {
            header: header_kept(m.header, header),
            ..m
        }).finished(frame),
        _ => false,
    }
}

/// The state with a new color description.
pub open spec fn recolored(m: EncoderModel, desc: ColorDescription) -> EncoderModel {
    match m {
        EncoderModel::H264(m) => EncoderModel::H264(
            H264Model { state: m.state.recolored(desc), ..m },
        ),
        EncoderModel::H265(m) => EncoderModel::H265(
            H265Model { state: m.state.recolored(desc), header: None, ..m },
        ),
        EncoderModel::AV1(m) => EncoderModel::AV1(
            Av1Model { state: m.state.recolored(desc), header: None, ..m },
        ),
    }
}

/// The answer to a query for the header gives this outcome and state.
pub open spec fn header_answered(
    m: EncoderModel,
    query: HeaderQueryModel,
    code: i32,
    buffer: Seq<u8>,
    data_size: int,
    outcome: HeaderOutcome,
    next: HeaderQueryModel,
) -> bool {
    if m is AV1 {
        super::header::answers(
            query,
            code,
            buffer,
            data_size,
            "AV1 sequence header size is 0"@,
            "Failed to get AV1 sequence header: "@,
            outcome,
            next,
        )
    } else {
        super::header::answers(
            query,
            code,
            buffer,
            data_size,
            "Encoded parameters size is 0"@,
            "Failed to get encoded parameters: "@,
            outcome,
            next,
        )
    }
}

/// Whether the encoder of a codec can be created for the dimensions.
pub fn dimensions_are_usable(config: &EncodeConfig, report: &DeviceReport) -> (usable: bool)
    ensures
        usable == dimensions_fit(*config, *report),
{
    let dimensions = config.dimensions;
    let codec = config.codec;
    if codec == Codec::AV1 && (dimensions.width < 2 || dimensions.height < 2) {
        return false;
    }
    match &report.capabilities {
        Err(_) => true,
        Ok(caps) => {
            if !extent_is_computable(codec, dimensions, caps) {
                return false;
            }
            codec != Codec::H264 || ((dimensions.width > 0 || caps.min_coded_extent.width > 0) && (
            dimensions.height > 0 || caps.min_coded_extent.height > 0))
        },
    }
}

impl Encoder {
    /// Create a new encoder with what the device reports.
    ///
    /// `preferred_entropy_cabac` is the entropy coding of H.264 that the device
    /// prefers, if it could be queried.
    pub fn new(
        config: EncodeConfig,
        report: DeviceReport,
        preferred_entropy_cabac: Option<bool>,
    ) -> (encoder: Result<Self, PixelForgeError>)
        requires
            config.b_frame_count == 0,
            config.pixel_format != PixelFormat::Yuv422,
            dimensions_fit(config, report),
        ensures
            creates(config, report, preferred_entropy_cabac, encoder),
    {
        match config.codec {
            Codec::H264 => match H264Encoder::new(config, report, preferred_entropy_cabac) {
                Ok(encoder) => Ok(Encoder::H264(encoder)),
                Err(e) => Err(e),
            },
            Codec::H265 => match H265Encoder::new(config, report) {
                Ok(encoder) => Ok(Encoder::H265(encoder)),
                Err(e) => Err(e),
            },
            Codec::AV1 => match AV1Encoder::new(config, report) {
                Ok(encoder) => Ok(Encoder::AV1(encoder)),
                Err(e) => Err(e),
            },
        }
    }

    /// The state that all codecs share.
    pub fn state(&self) -> (state: &EncoderState)
        ensures
            state@ == self@.state(),
    {
        match self {
            Encoder::H264(encoder) => encoder.state(),
            Encoder::H265(encoder) => encoder.state(),
            Encoder::AV1(encoder) => encoder.state(),
        }
    }

    /// The slot of the pipeline whose input image the next frame is taken from. The
    /// image can be used as a target for a color conversion to avoid an intermediate
    /// copy.
    pub fn input_image(&self) -> (slot: usize)
        ensures
            slot == self@.state().pipeline.current,
    {
        match self {
            Encoder::H264(encoder) => encoder.input_image(),
            Encoder::H265(encoder) => encoder.input_image(),
            Encoder::AV1(encoder) => encoder.input_image(),
        }
    }

    /// Whether a frame can be planned, submitted and finished.
    pub fn can_encode(&self, frame: &StartedFrame) -> (can: bool)
        requires
            self@.well_formed(),
        ensures
            can == self@.takes(*frame),
    {
        let poc: i32 = frame.position.pic_order_cnt;
        let state = self.state();
        if !state.can_submit() {
            return false;
        }
        match self {
            Encoder::H264(encoder) => encoder.quality_fits(),
            Encoder::H265(encoder) => {
                let slots: usize = state.session().dpb_slot_count;
                0 <= poc && poc < 0x4000_0000 && frame.position.frame_type != GopFrameType::B && (
                slots >= 2 || frame.position.frame_type == GopFrameType::Idr)
            },
            Encoder::AV1(encoder) => encoder.can_number(),
        }
    }

    /// Drain the current slot with what was read from its bitstream buffer, returning
    /// its packet if an encode was in flight.
    pub fn drain_current_slot(&mut self, read: Result<Vec<u8>, PixelForgeError>) -> (packet: Result<
        Option<EncodedPacket>,
        PixelForgeError,
    >)
        requires
            old(self)@.well_formed(),
        ensures
            drains(
                old(self)@.state().pipeline,
                old(self)@.state().pipeline.current,
                read,
                old(self)@.prefix(),
                old(self)@.missing(),
                packet,
                final(self)@.state().pipeline,
            ),
            final(self)@ == old(self)@.with_state(
                StateModel {
                    pipeline: final(self)@.state().pipeline,
                    ..old(self)@.state()
                },
            ),
            final(self)@.well_formed(),
    {
        match self {
            Encoder::H264(encoder) => encoder.drain_current_slot(read),
            Encoder::H265(encoder) => encoder.drain_current_slot(read),
            Encoder::AV1(encoder) => encoder.drain_current_slot(read),
        }
    }

    /// Start a frame: take its place in the GOP and count it.
    pub fn start_frame(&mut self) -> (frame: StartedFrame)
        requires
            old(self)@.well_formed(),
            old(self)@.state().input_frame_num < u64::MAX,
        ensures
            frame == old(self)@.state().coming(),
            final(self)@ == old(self)@.with_state(old(self)@.state().started()),
            final(self)@.well_formed(),
    {
        match self {
            Encoder::H264(encoder) => encoder.start_frame(),
            Encoder::H265(encoder) => encoder.start_frame(),
            Encoder::AV1(encoder) => encoder.start_frame(),
        }
    }

    /// How to upload a source image to the current slot's input image; none if the
    /// source image is the input image itself.
    pub fn upload_from_image(&self, is_input_image: bool) -> (steps: Option<Vec<Step>>)
        requires
            self@.well_formed(),
        ensures
            match steps {
                None => is_input_image,
                Some(steps) => !is_input_image && modelled(steps@) == uploading(
                    self@.state().config.dimensions.width,
                    self@.state().config.dimensions.height,
                    self@.state().config.pixel_format,
                    self@.state().pipeline.slots[self@.state().pipeline.current].layout,
                ),
            },
    {
        match self {
            Encoder::H264(encoder) => encoder.upload_from_image(is_input_image),
            Encoder::H265(encoder) => encoder.upload_from_image(is_input_image),
            Encoder::AV1(encoder) => encoder.upload_from_image(is_input_image),
        }
    }

    /// Note that the source image has been uploaded.
    pub fn uploaded(&mut self)
        requires
            old(self)@.well_formed(),
        ensures
            final(self)@ == old(self)@.with_state(old(self)@.state().filled()),
            final(self)@.well_formed(),
    {
        match self {
            Encoder::H264(encoder) => encoder.uploaded(),
            Encoder::H265(encoder) => encoder.uploaded(),
            Encoder::AV1(encoder) => encoder.uploaded(),
        }
    }

    /// Start the picture of a frame, and say whether the header has to be retrieved.
    pub fn start_picture(&mut self, frame: &StartedFrame) -> (retrieve: bool)
        requires
            old(self)@.well_formed(),
        ensures
            retrieve == needs_header(old(self)@, *frame),
            picture_started(old(self)@, *frame, final(self)@),
            final(self)@.well_formed(),
    {
        match self {
            Encoder::H264(encoder) => encoder.start_picture(frame),
            Encoder::H265(encoder) => encoder.start_picture(frame),
            Encoder::AV1(encoder) => encoder.start_picture(frame),
        }
    }

    /// Go on with the retrieval of the header after a query.
    pub fn header_answer(
        &self,
        query: &mut HeaderQuery,
        code: i32,
        buffer: Vec<u8>,
        data_size: usize,
    ) -> (outcome: HeaderOutcome)
        requires
            old(query)@.attempts < MAX_ATTEMPTS,
            2 * old(query)@.buffer_size <= usize::MAX,
        ensures
            header_answered(
                self@,
                old(query)@,
                code,
                buffer@,
                data_size as int,
                outcome,
                final(query)@,
            ),
    {
        match self {
            Encoder::H264(encoder) => encoder.header_answer(query, code, buffer, data_size),
            Encoder::H265(encoder) => encoder.header_answer(query, code, buffer, data_size),
            Encoder::AV1(encoder) => encoder.header_answer(query, code, buffer, data_size),
        }
    }

    /// Plan the encode of a frame.
    pub fn encode(&self, frame: &StartedFrame) -> (plan: FramePlan)
        requires
            self@.well_formed(),
            self@.takes(*frame),
        ensures
            plans(self@, *frame, plan),
    {
        match self {
            Encoder::H264(encoder) => FramePlan::H264(encoder.encode(frame)),
            Encoder::H265(encoder) => FramePlan::H265(encoder.encode(frame)),
            Encoder::AV1(encoder) => FramePlan::AV1(encoder.encode(frame)),
        }
    }

    /// Finish a frame that has been submitted. `header` is the header, if it was
    /// retrieved for the frame.
    pub fn finish_frame(&mut self, frame: &StartedFrame, header: Option<Vec<u8>>)
        requires
            old(self)@.well_formed(),
            old(self)@.takes(*frame),
        ensures
            frame_finished(old(self)@, *frame, header_seq(header), final(self)@),
            final(self)@.well_formed(),
    {
        match self {
            Encoder::H264(encoder) => {
                encoder.finish_frame(frame, header);
            },
            Encoder::H265(encoder) => {
                if let Some(header) = header {
                    encoder.set_header(header);
                }
                encoder.finish_frame(frame);
            },
            Encoder::AV1(encoder) => {
                if let Some(header) = header {
                    encoder.set_header(header);
                }
                encoder.finish_frame(frame);
            },
        }
    }

    /// Flush the encoder and get remaining packets, with what was read from the
    /// bitstream buffers of the slots in flight, in submission order.
    pub fn flush(&mut self, reads: Vec<Result<Vec<u8>, PixelForgeError>>) -> (packets: Result<
        Vec<EncodedPacket>,
        PixelForgeError,
    >)
        requires
            old(self)@.well_formed(),
            reads@.len() == old(self)@.state().pipeline.flush_order().len(),
        ensures
            flushes(
                old(self)@.state().pipeline,
                reads@,
                old(self)@.prefix(),
                old(self)@.missing(),
                old(self)@.moves(),
                packets,
                final(self)@.state().pipeline,
            ),
            final(self)@ == old(self)@.with_state(
                StateModel {
                    pipeline: final(self)@.state().pipeline,
                    ..old(self)@.state()
                },
            ),
            final(self)@.well_formed(),
    {
        match self {
            Encoder::H264(encoder) => encoder.flush(reads),
            Encoder::H265(encoder) => encoder.flush(reads),
            Encoder::AV1(encoder) => encoder.flush(reads),
        }
    }

    /// Request that the next frame be an IDR frame.
    pub fn request_idr(&mut self)
        requires
            old(self)@.well_formed(),
        ensures
            final(self)@ == old(self)@.with_state(old(self)@.state().requested()),
            final(self)@.well_formed(),
    {
        match self {
            Encoder::H264(encoder) => encoder.request_idr(),
            Encoder::H265(encoder) => encoder.request_idr(),
            Encoder::AV1(encoder) => encoder.request_idr(),
        }
    }

    /// Update the color description (VUI parameters) for the encoder, once the session
    /// parameters have been recreated with an updated SPS/VPS/sequence header. The
    /// next frame will be encoded as an IDR/key frame with the new parameters.
    pub fn set_color_description(
        &mut self,
        desc: ColorDescription,
        recreated: Result<(), PixelForgeError>,
    ) -> (result: Result<(), PixelForgeError>)
        requires
            old(self)@.well_formed(),
        ensures
            match recreated {
                Ok(_) => result is Ok && final(self)@ == recolored(old(self)@, desc),
                Err(e) => result == Err::<(), PixelForgeError>(e) && final(self)@ == old(self)@,
            },
            final(self)@.well_formed(),
    {
        match self {
            Encoder::H264(encoder) => encoder.set_color_description(desc, recreated),
            Encoder::H265(encoder) => encoder.set_color_description(desc, recreated),
            Encoder::AV1(encoder) => encoder.set_color_description(desc, recreated),
        }
    }
}

} // verus!
