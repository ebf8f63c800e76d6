//! AV1 encoder.

use crate::encoder::gop::GopFrameType;
use crate::encoder::header::{answers, HeaderOutcome, HeaderQuery, MAX_ATTEMPTS};
use crate::encoder::pipeline::{drains, flushes, header_seq, NO_METADATA};
use crate::encoder::references::{find_free_slot, next_slot};
use crate::encoder::resources::uploading;
use crate::encoder::session::{
    extent_fits, law_slots_hold_references, negotiate, negotiates, DeviceReport, SessionPlan,
};
use crate::encoder::state::{new_state, EncoderState, StartedFrame, StateModel};
use crate::encoder::{Codec, ColorDescription, EncodeConfig, EncodedPacket, PixelFormat};
use crate::error::PixelForgeError;
use crate::steps::{modelled, Step};
use vstd::prelude::*;

pub mod frame;
pub mod laws;
pub mod parameters;

pub use frame::{Av1FramePlan, ReferenceInfo};
pub use parameters::{Av1SequenceHeader, SUPERBLOCK_SIZE};

use frame::{plan_frame, reference_slots, Av1Context};
use parameters::{build_sequence_header, sequence_header_of};

verus! {

/// AV1 encoder.
///
/// Only key frames are stored as references. The frames after a key frame all refer
/// to it and are not referred to themselves.
#[derive(Debug)]
pub struct AV1Encoder {
    state: EncoderState,
    frame_num: u32,
    order_hint: u32,
    /// Cached AV1 sequence header OBU (retrieved from session parameters).
    header_data: Option<Vec<u8>>,
    /// Active reference pictures. Ordered from most recent to oldest.
    references: Vec<ReferenceInfo>,
}

/// What an AV1 encoder holds.
#[verifier::ext_equal]
pub struct Av1Model {
    /// The state that all codecs share.
    pub state: StateModel,
    /// Number of the next frame since the last key frame.
    pub frame_num: u32,
    /// Order hint of the next frame.
    pub order_hint: u32,
    /// Cached sequence header.
    pub header: Option<Seq<u8>>,
    /// References.
    pub references: Seq<ReferenceInfo>,
}

/// The Temporal Delimiter OBU that starts every packet.
pub open spec fn temporal_delimiter() -> Seq<u8> {
    seq![0x12u8, 0x00u8]
}

/// The frame is a key frame.
pub open spec fn is_key(frame: StartedFrame) -> bool {
    frame.position.frame_type == GopFrameType::Idr || frame.position.frame_type
        == GopFrameType::I
}

impl Av1Model {
    /// Order hints have 8 bits, and there is at most one reference. Only the first two
    /// DPB slots are used; if there are two, the current one is not that of the
    /// reference.
    pub open spec fn well_formed(self) -> bool {
        &&& self.state.well_formed()
        &&& self.state.config.dimensions.width >= 2
        &&& self.state.config.dimensions.height >= 2
        &&& self.order_hint < 256
        &&& self.state.current_dpb_slot <= 1
        &&& self.references.len() <= 1
        &&& self.references.len() == 1 ==> {
            &&& self.references[0].dpb_slot <= 1
            &&& self.references[0].dpb_slot < self.state.session.dpb_slot_count
            &&& self.references[0].order_hint < 256
            &&& self.state.session.dpb_slot_count >= 2 ==> self.references[0].dpb_slot
                != self.state.current_dpb_slot
        }
    }

    /// What the encode of a frame depends on.
    pub open spec fn context(self, frame: StartedFrame) -> Av1Context {
        Av1Context {
            key: is_key(frame),
            frame_num: self.frame_num,
            order_hint: self.order_hint,
            references: self.references,
        }
    }

    /// The state after the start of the picture of a frame.
    pub open spec fn picture_started(self, frame: StartedFrame) -> Av1Model {
        if is_key(frame) {
            Av1Model {
                state: self.state.deactivated(),
                frame_num: 0,
                order_hint: 0,
                references: Seq::empty(),
                ..self
            }
        } else {
            self
        }
    }

    /// The header that goes with a frame.
    pub open spec fn header_for(self, frame: StartedFrame) -> Option<Seq<u8>> {
        if is_key(frame) {
            self.header
        } else {
            None
        }
    }

    /// The references after a frame: a key frame is the only one.
    pub open spec fn references_after(self, frame: StartedFrame) -> Seq<ReferenceInfo> {
        if is_key(frame) {
            seq![
                ReferenceInfo {
                    dpb_slot: self.state.current_dpb_slot,
                    order_hint: self.order_hint,
                },
            ]
        } else {
            self.references
        }
    }

    /// The DPB slot for the frame after a frame: another one after a key frame.
    pub open spec fn slot_after(self, frame: StartedFrame) -> u8 {
        if is_key(frame) {
            next_slot(
                seq![self.state.current_dpb_slot],
                self.state.session.dpb_slot_count as u8,
                self.state.current_dpb_slot,
            )
        } else {
            self.state.current_dpb_slot
        }
    }

    /// The state after a frame has been submitted.
    pub open spec fn finished(self, frame: StartedFrame) -> Av1Model {
        Av1Model {
            state: self.state.finished(
                self.state.metadata(frame, is_key(frame), self.header_for(frame)),
                self.slot_after(frame),
            ),
            frame_num: (self.frame_num + 1) as u32,
            order_hint: ((self.order_hint + 1) % 256) as u32,
            references: self.references_after(frame),
            ..self
        }
    }
}

impl View for AV1Encoder {
    type V = Av1Model;

    closed spec fn view(&self) -> Av1Model {
        Av1Model {
            state: self.state@,
            frame_num: self.frame_num,
            order_hint: self.order_hint,
            header: header_seq(self.header_data),
            references: self.references@,
        }
    }
}

/// A new encoder for a session.
pub open spec fn new_encoder(m: Av1Model, config: EncodeConfig, session: SessionPlan) -> bool {
    &&& new_state(m.state, config, session)
    &&& m.frame_num == 0
    &&& m.order_hint == 0
    &&& m.header is None
    &&& m.references == Seq::<ReferenceInfo>::empty()
}

/// Creating an encoder gives this result: that of the negotiation of its session, or
/// an encoder.
pub open spec fn creates(
    config: EncodeConfig,
    report: DeviceReport,
    result: Result<AV1Encoder, PixelForgeError>,
) -> bool {
    exists|plan: Result<SessionPlan, PixelForgeError>|
        {
            &&& #[trigger] negotiates(Codec::AV1, config, report, plan)
            &&& match plan {
                Err(e) => result == Err::<AV1Encoder, PixelForgeError>(e),
                Ok(session) => result matches Ok(encoder) && new_encoder(
                    encoder@,
                    config,
                    session,
                ) && encoder@.well_formed(),
            }
        }
}

fn delimiter() -> (prefix: Vec<u8>)
    ensures
        prefix@ == temporal_delimiter(),
{
    let prefix: Vec<u8> = vec![0x12u8, 0x00u8];
    assert(prefix@ =~= temporal_delimiter());
    prefix
}

fn is_key_frame(frame: &StartedFrame) -> (key: bool)
    ensures
        key == is_key(*frame),
{
    frame.position.frame_type.is_idr() || frame.position.frame_type == GopFrameType::I
}

impl AV1Encoder {
    /// Create a new AV1 encoder with what the device reports. B-frames are not yet
    /// supported.
    pub fn new(config: EncodeConfig, report: DeviceReport) -> (encoder: Result<
        Self,
        PixelForgeError,
    >)
        requires
            config.b_frame_count == 0,
            config.pixel_format != PixelFormat::Yuv422,
            config.dimensions.width >= 2,
            config.dimensions.height >= 2,
            report.capabilities matches Ok(caps) ==> extent_fits(
                Codec::AV1,
                config.dimensions,
                caps,
            ),
        ensures
            creates(config, report, encoder),
    {
        let ghost asked = report;
        let plan = negotiate(Codec::AV1, &config, report);
        let session = match plan {
            Err(e) => {
                assert(negotiates(Codec::AV1, config, asked, plan));
                return Err(e);
            },
            Ok(session) => session,
        };
        assert(negotiates(Codec::AV1, config, asked, Ok(session)));
        proof {
            let caps = asked.capabilities->Ok_0;
            law_slots_hold_references(Codec::AV1, config.max_reference_frames, caps);
        }
        Ok(
            AV1Encoder {
                state: EncoderState::new(config, session),
                frame_num: 0,
                order_hint: 0,
                header_data: None,
                references: Vec::new(),
            },
        )
    }

    /// The state that all codecs share.
    pub fn state(&self) -> (state: &EncoderState)
        ensures
            state@ == self@.state,
    {
        &self.state
    }

    /// Whether the number of a frame since the last key frame can still be counted.
    pub fn can_number(&self) -> (can: bool)
        ensures
            can == (self@.frame_num < u32::MAX),
    {
        self.frame_num < u32::MAX
    }

    /// The slot of the pipeline whose input image the next frame is taken from. The
    /// image can be used as a target for a color conversion to avoid an intermediate
    /// copy.
    pub fn input_image(&self) -> (slot: usize)
        ensures
            slot == self@.state.pipeline.current,
    {
        self.state.current_slot()
    }

    /// Build the sequence header for a color description.
    pub fn create_session_params(&self, desc: &ColorDescription) -> (header: Av1SequenceHeader)
        requires
            self@.well_formed(),
        ensures
            header == sequence_header_of(self@.state.config, *desc),
    {
        build_sequence_header(&self.state.config(), desc)
    }

    /// Drain the current slot with what was read from its bitstream buffer. Every
    /// packet starts with a Temporal Delimiter OBU.
    pub fn drain_current_slot(&mut self, read: Result<Vec<u8>, PixelForgeError>) -> (packet: Result<
        Option<EncodedPacket>,
        PixelForgeError,
    >)
        requires
            old(self)@.well_formed(),
        ensures
            drains(
                old(self)@.state.pipeline,
                old(self)@.state.pipeline.current,
                read,
                temporal_delimiter(),
                NO_METADATA@,
                packet,
                final(self)@.state.pipeline,
            ),
            final(self)@ == (Av1Model {
                state: StateModel {
                    pipeline: final(self)@.state.pipeline,
                    ..old(self)@.state
                },
                ..old(self)@
            }),
            final(self)@.well_formed(),
    {
        self.state.drain(read, &delimiter(), NO_METADATA)
    }

    /// Start a frame: take its place in the GOP and count it.
    pub fn start_frame(&mut self) -> (frame: StartedFrame)
        requires
            old(self)@.well_formed(),
            old(self)@.state.input_frame_num < u64::MAX,
        ensures
            frame == old(self)@.state.coming(),
            final(self)@ == (Av1Model { state: old(self)@.state.started(), ..old(self)@ }),
            final(self)@.well_formed(),
    {
        self.state.start_frame()
    }

    /// How to upload a source image to the current slot's input image; none if the
    /// source image is the input image itself.
    pub fn upload_from_image(&self, is_input_image: bool) -> (steps: Option<Vec<Step>>)
        requires
            self@.well_formed(),
        ensures
            match steps {
                None => is_input_image,
                Some(steps) => !is_input_image && modelled(steps@) == uploading(
                    self@.state.config.dimensions.width,
                    self@.state.config.dimensions.height,
                    self@.state.config.pixel_format,
                    self@.state.pipeline.slots[self@.state.pipeline.current].layout,
                ),
            },
    {
        self.state.upload(is_input_image)
    }

    /// Note that the source image has been uploaded.
    pub fn uploaded(&mut self)
        requires
            old(self)@.well_formed(),
        ensures
            final(self)@ == (Av1Model { state: old(self)@.state.filled(), ..old(self)@ }),
            final(self)@.well_formed(),
    {
        self.state.uploaded();
    }

    /// Start the picture of a frame, and say whether the header has to be retrieved: a
    /// key frame needs it, and forgets all references.
    pub fn start_picture(&mut self, frame: &StartedFrame) -> (needs_header: bool)
        requires
            old(self)@.well_formed(),
        ensures
            needs_header == (is_key(*frame) && old(self)@.header is None),
            final(self)@ == old(self)@.picture_started(*frame),
            final(self)@.well_formed(),
    {
        let key: bool = is_key_frame(frame);
        if key {
            self.frame_num = 0;
            self.order_hint = 0;
            self.references = Vec::new();
            self.state.deactivate_slots();
        }
        key && self.header_data.is_none()
    }

    /// Go on with the retrieval of the sequence header after a query.
    pub fn header_answer(
        &self,
        query: &mut HeaderQuery,
        code: i32,
        buffer: Vec<u8>,
        data_size: usize,
    ) -> (outcome: HeaderOutcome)
        requires
            old(query)@.attempts < MAX_ATTEMPTS,
            2 * old(query)@.buffer_size <= usize::MAX,
        ensures
            answers(
                old(query)@,
                code,
                buffer@,
                data_size as int,
                "AV1 sequence header size is 0"@,
                "Failed to get AV1 sequence header: "@,
                outcome,
                final(query)@,
            ),
    {
        query.answer(
            code,
            buffer,
            data_size,
            "AV1 sequence header size is 0",
            "Failed to get AV1 sequence header: ",
        )
    }

    /// Keep the header that has been retrieved.
    pub fn set_header(&mut self, header: Vec<u8>)
        requires
            old(self)@.well_formed(),
        ensures
            final(self)@ == (Av1Model { header: Some(header@), ..old(self)@ }),
            final(self)@.well_formed(),
    {
        self.header_data = Some(header);
    }

    /// Plan the encode of a frame.
    pub fn encode(&self, frame: &StartedFrame) -> (plan: Av1FramePlan)
        requires
            self@.well_formed(),
        ensures
            plan.plans(self@.state, self@.context(*frame)),
    {
        plan_frame(
            &self.state,
            is_key_frame(frame),
            self.frame_num,
            self.order_hint,
            &self.references,
        )
    }

    /// Finish a frame that has been submitted. A key frame becomes the reference, and
    /// the frames after it get another DPB slot.
    pub fn finish_frame(&mut self, frame: &StartedFrame)
        requires
            old(self)@.well_formed(),
            old(self)@.frame_num < u32::MAX,
            old(self)@.state.encode_frame_num < u64::MAX,
            old(self)@.state.pipeline.next_value < u64::MAX,
        ensures
            final(self)@ == old(self)@.finished(*frame),
            final(self)@.well_formed(),
    {
        let ghost m = self@;
        let key: bool = is_key_frame(frame);
        let current: u8 = self.state.current_dpb_slot();
        let encoded_order_hint: u32 = self.order_hint;
        self.frame_num = self.frame_num + 1;
        // 8-bit order hint.
        self.order_hint = (self.order_hint + 1) % 256;
        let mut next: u8 = current;
        let mut header: Option<Vec<u8>> = None;
        if key {
            let session = self.state.session();
            self.references = vec![
                ReferenceInfo { dpb_slot: current, order_hint: encoded_order_hint },
            ];
            let used: Vec<u8> = reference_slots(&self.references);
            next = find_free_slot(&used, session.dpb_slot_count as u8, current);
            proof {
                assert(self.references@ =~= m.references_after(*frame));
                assert(used@ =~= seq![current]);
                lemma_other_slot(current, session.dpb_slot_count as u8);
            }
            header = match &self.header_data {
                Some(header) => Some(header.clone()),
                None => None,
            };
        }
        assert(header_seq(header) == m.header_for(*frame));
        self.state.finish_frame(frame, key, header, next);
    }

    /// Drain every in-flight slot, in submission order, with what was read from
    /// their bitstream buffers. If that fails, the slot at which it does becomes the
    /// current one.
    pub fn flush(&mut self, reads: Vec<Result<Vec<u8>, PixelForgeError>>) -> (packets: Result<
        Vec<EncodedPacket>,
        PixelForgeError,
    >)
        requires
            old(self)@.well_formed(),
            reads@.len() == old(self)@.state.pipeline.flush_order().len(),
        ensures
            flushes(
                old(self)@.state.pipeline,
                reads@,
                temporal_delimiter(),
                NO_METADATA@,
                true,
                packets,
                final(self)@.state.pipeline,
            ),
            final(self)@ == (Av1Model {
                state: StateModel {
                    pipeline: final(self)@.state.pipeline,
                    ..old(self)@.state
                },
                ..old(self)@
            }),
            final(self)@.well_formed(),
    {
        self.state.flush(reads, &delimiter(), NO_METADATA, true)
    }

    /// Request that the next frame be an IDR/key frame.
    pub fn request_idr(&mut self)
        requires
            old(self)@.well_formed(),
        ensures
            final(self)@ == (Av1Model { state: old(self)@.state.requested(), ..old(self)@ }),
            final(self)@.well_formed(),
    {
        self.state.request_idr();
    }

    /// Update the color description in the AV1 sequence header, once the session
    /// parameters have been recreated for it. The next frame will be a key frame with
    /// the new sequence header prepended.
    pub fn set_color_description(
        &mut self,
        desc: ColorDescription,
        recreated: Result<(), PixelForgeError>,
    ) -> (result: Result<(), PixelForgeError>)
        requires
            old(self)@.well_formed(),
        ensures
            match recreated {
                Ok(_) => result is Ok && final(self)@ == (Av1Model {
                    state: old(self)@.state.recolored(desc),
                    header: None,
                    ..old(self)@
                }),
                Err(e) => result == Err::<(), PixelForgeError>(e) && final(self)@ == old(self)@,
            },
            final(self)@.well_formed(),
    {
        match recreated {
            Err(e) => Err(e),
            Ok(()) => {
                self.state.set_color_description(desc);
                self.header_data = None;
                Ok(())
            },
        }
    }
}

proof fn lemma_other_slot(current: u8, slot_count: u8)
    requires
        current <= 1,
        current < slot_count,
    ensures
        next_slot(seq![current], slot_count, current) <= 1,
        next_slot(seq![current], slot_count, current) < slot_count,
        slot_count >= 2 ==> next_slot(seq![current], slot_count, current) != current,
{
    let used = seq![current];
    let free = crate::encoder::references::free_slots(used, slot_count);
    crate::encoder::dpb::select::lemma_first_true(free);
    assert(used[0] == current);
    assert(used.contains(current));
    let other: u8 = if current == 0 {
        1
    } else {
        0
    };
    assert(!used.contains(other));
    if slot_count >= 2 {
        assert(free[other as int]);
        assert(!free[current as int]);
    }
}

} // verus!
