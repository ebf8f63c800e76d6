//! H.265/HEVC encoder.

use crate::encoder::dpb::h265::DpbModel;
use crate::encoder::dpb::run_laws::ready;
use crate::encoder::dpb::DpbH265;
use crate::encoder::gop::GopFrameType;
use crate::encoder::header::{answers, HeaderOutcome, HeaderQuery, MAX_ATTEMPTS};
use crate::encoder::pipeline::{drains, flushes, header_seq, NO_PACKET_METADATA};
use crate::encoder::references::{
    distinct, find_free_slot, law_newest_is_remembered, law_next_slot_is_free, next_slot, remember,
    remembered,
};
use crate::encoder::resources::uploading;
use crate::encoder::session::{
    extent_fits, law_coded_size_is_aligned, law_slots_hold_references, negotiate, negotiates,
    DeviceReport, SessionPlan,
};
use crate::encoder::state::{new_state, EncoderState, StartedFrame, StateModel};
use crate::encoder::{Codec, ColorDescription, EncodeConfig, EncodedPacket, PixelFormat};
use crate::error::PixelForgeError;
use crate::steps::{modelled, Step};
use vstd::prelude::*;

pub mod dpb_use;
pub mod frame;
pub mod laws;
pub mod parameters;

pub use frame::{H265FramePlan, ReferenceInfo};
pub use parameters::{H265Parameters, CTB_SIZE};

use dpb_use::{enter_picture, picture_entered, sequence_started, start_sequence};
use frame::{plan_frame, poc_fits, pocs_fit, reference_slots, slots_of, H265Context};
use parameters::{build_parameters, h265_profile, parameters_of, profile_of, H265Profile};

verus! {

/// H.265 encoder.
#[derive(Debug)]
pub struct H265Encoder {
    state: EncoderState,
    dpb: DpbH265,
    profile: H265Profile,
    /// Cached header data (VPS/SPS/PPS).
    header_data: Option<Vec<u8>>,
    /// Reference after the current frame in display order (for B-frames, L1).
    backward_reference: Option<ReferenceInfo>,
    /// Active L0 reference pictures (for P-frames). Ordered from most recent to oldest.
    l0_references: Vec<ReferenceInfo>,
}

/// What an H.265 encoder holds.
#[verifier::ext_equal]
pub struct H265Model {
    /// The state that all codecs share.
    pub state: StateModel,
    /// The decoded picture buffer.
    pub dpb: DpbModel,
    /// The profile.
    pub profile: H265Profile,
    /// Cached header data.
    pub header: Option<Seq<u8>>,
    /// Reference after the current frame in display order.
    pub backward: Option<ReferenceInfo>,
    /// References, the most recent first.
    pub references: Seq<ReferenceInfo>,
}

impl H265Model {
    /// The references fit, each is in a DPB slot of its own, the current slot holds
    /// none of them, and the DPB has room for the next picture.
    pub open spec fn well_formed(self) -> bool {
        let slots = slots_of(self.references);
        let session = self.state.session;
        &&& self.state.well_formed()
        &&& session.active_reference_count < session.dpb_slot_count
        &&& session.coded_extent.width >= self.state.config.dimensions.width
        &&& session.coded_extent.height >= self.state.config.dimensions.height
        &&& self.references.len() <= session.active_reference_count
        &&& forall|i: int| 0 <= i < slots.len() ==> #[trigger] slots[i] < session.dpb_slot_count
        &&& distinct(slots)
        &&& !slots.contains(self.state.current_dpb_slot)
        &&& pocs_fit(self.context())
        &&& ready(self.dpb, session.dpb_slot_count as int)
    }

    /// What the encode of a frame depends on.
    pub open spec fn context(self) -> H265Context {
        H265Context { references: self.references, backward: self.backward }
    }

    /// The references after a frame.
    pub open spec fn references_after(self, frame: StartedFrame) -> Seq<ReferenceInfo> {
        if frame.position.is_reference {
            remembered(
                self.references,
                ReferenceInfo {
                    dpb_slot: self.state.current_dpb_slot,
                    poc: frame.position.pic_order_cnt,
                },
                self.state.session.active_reference_count as nat,
            )
        } else {
            self.references
        }
    }

    /// The DPB slot for the frame after a frame.
    pub open spec fn slot_after(self, frame: StartedFrame) -> u8 {
        if frame.position.is_reference {
            next_slot(
                slots_of(self.references_after(frame)),
                self.state.session.dpb_slot_count as u8,
                self.state.current_dpb_slot,
            )
        } else {
            self.state.current_dpb_slot
        }
    }

    /// The header that goes with a frame.
    pub open spec fn header_for(self, frame: StartedFrame) -> Option<Seq<u8>> {
        if frame.position.frame_type == GopFrameType::Idr {
            self.header
        } else {
            None
        }
    }
}

/// `next` is the state after the start of the picture of a frame.
pub open spec fn picture_started(m: H265Model, frame: StartedFrame, next: H265Model) -> bool {
    if frame.position.frame_type == GopFrameType::Idr {
        &&& next == H265Model {
            state: m.state.deactivated(),
            dpb: next.dpb,
            references: Seq::empty(),
            backward: None,
            ..m
        }
        &&& sequence_started(m.dpb, m.state.session.dpb_slot_count as int, next.dpb)
    } else {
        next == m
    }
}

/// `next` is the state after a frame has been submitted.
pub open spec fn frame_finished(m: H265Model, frame: StartedFrame, next: H265Model) -> bool {
    &&& next == H265Model {
        state: m.state.finished(
            m.state.metadata(
                frame,
                frame.position.frame_type == GopFrameType::Idr,
                m.header_for(frame),
            ),
            m.slot_after(frame),
        ),
        dpb: next.dpb,
        references: m.references_after(frame),
        ..m
    }
    &&& if frame.position.is_reference {
        picture_entered(m.dpb, frame, next.dpb)
    } else {
        next.dpb == m.dpb
    }
}

impl View for H265Encoder {
    type V = H265Model;

    closed spec fn view(&self) -> H265Model {
        H265Model {
            state: self.state@,
            dpb: self.dpb@,
            profile: self.profile,
            header: header_seq(self.header_data),
            backward: self.backward_reference,
            references: self.l0_references@,
        }
    }
}

/// A new encoder for a session.
pub open spec fn new_encoder(m: H265Model, config: EncodeConfig, session: SessionPlan) -> bool {
    &&& new_state(m.state, config, session)
    &&& profile_of(config.pixel_format, config.bit_depth) == Some(m.profile)
    &&& m.header is None
    &&& m.backward is None
    &&& m.references == Seq::<ReferenceInfo>::empty()
    &&& ready(m.dpb, session.dpb_slot_count as int)
    &&& forall|i: int| 0 <= i < m.dpb.slots.len() ==> (#[trigger] m.dpb.slots[i]).blank()
}

/// Creating an encoder gives this result: that of the negotiation of its session, or
/// an encoder.
pub open spec fn creates(
    config: EncodeConfig,
    report: DeviceReport,
    result: Result<H265Encoder, PixelForgeError>,
) -> bool {
    exists|plan: Result<SessionPlan, PixelForgeError>|
        {
            &&& #[trigger] negotiates(Codec::H265, config, report, plan)
            &&& match plan {
                Err(e) => result == Err::<H265Encoder, PixelForgeError>(e),
                Ok(session) => result matches Ok(encoder) && new_encoder(
                    encoder@,
                    config,
                    session,
                ) && encoder@.well_formed(),
            }
        }
}

impl H265Encoder {
    /// Create a new H.265/HEVC encoder with what the device reports. B-frames are not
    /// yet supported.
    pub fn new(config: EncodeConfig, report: DeviceReport) -> (encoder: Result<
        Self,
        PixelForgeError,
    >)
        requires
            config.b_frame_count == 0,
            config.pixel_format != PixelFormat::Yuv422,
            report.capabilities matches Ok(caps) ==> extent_fits(
                Codec::H265,
                config.dimensions,
                caps,
            ),
        ensures
            creates(config, report, encoder),
    {
        let ghost asked = report;
        let profile = match h265_profile(config.pixel_format, config.bit_depth) {
            Err(e) => {
                return Err(e);
            },
            Ok(profile) => profile,
        };
        let plan = negotiate(Codec::H265, &config, report);
        let session = match plan {
            Err(e) => {
                assert(negotiates(Codec::H265, config, asked, plan));
                return Err(e);
            },
            Ok(session) => session,
        };
        assert(negotiates(Codec::H265, config, asked, Ok(session)));
        proof {
            let caps = asked.capabilities->Ok_0;
            law_slots_hold_references(Codec::H265, config.max_reference_frames, caps);
            law_coded_size_is_aligned(
                Codec::H265,
                config.dimensions.width,
                caps.min_coded_extent.width,
                caps.picture_access_granularity.width,
            );
            law_coded_size_is_aligned(
                Codec::H265,
                config.dimensions.height,
                caps.min_coded_extent.height,
                caps.picture_access_granularity.height,
            );
        }
        let mut dpb = DpbH265::new();
        start_sequence(&mut dpb, session.dpb_slot_count, 1);
        Ok(
            H265Encoder {
                state: EncoderState::new(config, session),
                dpb,
                profile,
                header_data: None,
                backward_reference: None,
                l0_references: Vec::new(),
            },
        )
    }

    /// The state that all codecs share.
    pub fn state(&self) -> (state: &EncoderState)
        ensures
            state@ == self@.state,
    {
        &self.state
    }

    /// The slot of the pipeline whose input image the next frame is taken from. The
    /// image can be used as a target for a color conversion to avoid an intermediate
    /// copy.
    pub fn input_image(&self) -> (slot: usize)
        ensures
            slot == self@.state.pipeline.current,
    {
        self.state.current_slot()
    }

    /// Build the parameter sets for a color description.
    pub fn create_session_params(&self, desc: &ColorDescription) -> (parameters: Result<
        H265Parameters,
        PixelForgeError,
    >)
        requires
            self@.well_formed(),
        ensures
            match parameters {
                Ok(parameters) => self@.state.config.pixel_format != PixelFormat::Yuv422
                    && parameters == parameters_of(
                    self@.state.config,
                    self@.state.session,
                    self@.profile,
                    *desc,
                ),
                Err(e) => self@.state.config.pixel_format == PixelFormat::Yuv422
                    && e.is_invalid_input(parameters::unsupported(PixelFormat::Yuv422)),
            },
    {
        build_parameters(&self.state.config(), &self.state.session(), self.profile, desc)
    }

    /// Drain the current slot with what was read from its bitstream buffer.
    pub fn drain_current_slot(&mut self, read: Result<Vec<u8>, PixelForgeError>) -> (packet: Result<
        Option<EncodedPacket>,
        PixelForgeError,
    >)
        requires
            old(self)@.well_formed(),
        ensures
            drains(
                old(self)@.state.pipeline,
                old(self)@.state.pipeline.current,
                read,
                Seq::empty(),
                NO_PACKET_METADATA@,
                packet,
                final(self)@.state.pipeline,
            ),
            final(self)@ == (H265Model {
                state: StateModel {
                    pipeline: final(self)@.state.pipeline,
                    ..old(self)@.state
                },
                ..old(self)@
            }),
            final(self)@.well_formed(),
    {
        self.state.drain(read, &Vec::new(), NO_PACKET_METADATA)
    }

    /// Start a frame: take its place in the GOP and count it.
    pub fn start_frame(&mut self) -> (frame: StartedFrame)
        requires
            old(self)@.well_formed(),
            old(self)@.state.input_frame_num < u64::MAX,
        ensures
            frame == old(self)@.state.coming(),
            final(self)@ == (H265Model { state: old(self)@.state.started(), ..old(self)@ }),
            final(self)@.well_formed(),
    {
        self.state.start_frame()
    }

    /// How to upload a source image to the current slot's input image; none if the
    /// source image is the input image itself.
    pub fn upload_from_image(&self, is_input_image: bool) -> (steps: Option<Vec<Step>>)
        requires
            self@.well_formed(),
        ensures
            match steps {
                None => is_input_image,
                Some(steps) => !is_input_image && modelled(steps@) == uploading(
                    self@.state.config.dimensions.width,
                    self@.state.config.dimensions.height,
                    self@.state.config.pixel_format,
                    self@.state.pipeline.slots[self@.state.pipeline.current].layout,
                ),
            },
    {
        self.state.upload(is_input_image)
    }

    /// Note that the source image has been uploaded.
    pub fn uploaded(&mut self)
        requires
            old(self)@.well_formed(),
        ensures
            final(self)@ == (H265Model { state: old(self)@.state.filled(), ..old(self)@ }),
            final(self)@.well_formed(),
    {
        self.state.uploaded();
    }

    /// Start the picture of a frame, and say whether the header has to be retrieved:
    /// an IDR picture needs it, and forgets all references.
    pub fn start_picture(&mut self, frame: &StartedFrame) -> (needs_header: bool)
        requires
            old(self)@.well_formed(),
        ensures
            needs_header == (frame.position.frame_type == GopFrameType::Idr && old(
                self,
            )@.header is None),
            picture_started(old(self)@, *frame, final(self)@),
            final(self)@.well_formed(),
    {
        let is_idr: bool = frame.position.frame_type.is_idr();
        if is_idr {
            let config = self.state.config();
            let session = self.state.session();
            start_sequence(&mut self.dpb, session.dpb_slot_count, config.max_reference_frames);
            self.l0_references = Vec::new();
            self.backward_reference = None;
            self.state.deactivate_slots();
        }
        is_idr && self.header_data.is_none()
    }

    /// Go on with the retrieval of the VPS/SPS/PPS header after a query.
    pub fn header_answer(
        &self,
        query: &mut HeaderQuery,
        code: i32,
        buffer: Vec<u8>,
        data_size: usize,
    ) -> (outcome: HeaderOutcome)
        requires
            old(query)@.attempts < MAX_ATTEMPTS,
            2 * old(query)@.buffer_size <= usize::MAX,
        ensures
            answers(
                old(query)@,
                code,
                buffer@,
                data_size as int,
                "Encoded parameters size is 0"@,
                "Failed to get encoded parameters: "@,
                outcome,
                final(query)@,
            ),
    {
        query.answer(
            code,
            buffer,
            data_size,
            "Encoded parameters size is 0",
            "Failed to get encoded parameters: ",
        )
    }

    /// Keep the header that has been retrieved.
    pub fn set_header(&mut self, header: Vec<u8>)
        requires
            old(self)@.well_formed(),
        ensures
            final(self)@ == (H265Model { header: Some(header@), ..old(self)@ }),
            final(self)@.well_formed(),
    {
        self.header_data = Some(header);
    }

    /// Plan the encode of a frame.
    pub fn encode(&self, frame: &StartedFrame) -> (plan: H265FramePlan)
        requires
            self@.well_formed(),
            poc_fits(frame.position.pic_order_cnt),
        ensures
            plan.plans(self@.state, self@.context(), *frame),
    {
        plan_frame(&self.state, frame, &self.l0_references, self.backward_reference)
    }

    /// Finish a frame that has been submitted: it becomes the most recent reference,
    /// and the next frame gets a DPB slot that no reference uses. A DPB with one slot
    /// only can take IDR frames only.
    pub fn finish_frame(&mut self, frame: &StartedFrame)
        requires
            old(self)@.well_formed(),
            old(self)@.state.encode_frame_num < u64::MAX,
            old(self)@.state.pipeline.next_value < u64::MAX,
            frame.position.frame_type != GopFrameType::B,
            poc_fits(frame.position.pic_order_cnt),
            old(self)@.state.session.dpb_slot_count >= 2 || frame.position.frame_type
                == GopFrameType::Idr,
        ensures
            frame_finished(old(self)@, *frame, final(self)@),
            final(self)@.well_formed(),
    {
        let ghost m = self@;
        let is_idr: bool = frame.position.frame_type.is_idr();
        let current: u8 = self.state.current_dpb_slot();
        let mut next: u8 = current;
        if frame.position.is_reference {
            enter_picture(&mut self.dpb, frame);
            let session = self.state.session();
            let newest = ReferenceInfo { dpb_slot: current, poc: frame.position.pic_order_cnt };
            remember(
                &mut self.l0_references,
                newest,
                session.active_reference_count as usize,
            );
            let used: Vec<u8> = reference_slots(&self.l0_references);
            next = find_free_slot(&used, session.dpb_slot_count as u8, current);
            proof {
                lemma_references_after(m, *frame);
            }
        }
        let header: Option<Vec<u8>> = if is_idr {
            match &self.header_data {
                Some(header) => Some(header.clone()),
                None => None,
            }
        } else {
            None
        };
        assert(header_seq(header) == m.header_for(*frame));
        self.state.finish_frame(frame, is_idr, header, next);
    }

    /// Drain every in-flight slot, in submission order, with what was read from
    /// their bitstream buffers. The current slot stays what it was.
    pub fn flush(&mut self, reads: Vec<Result<Vec<u8>, PixelForgeError>>) -> (packets: Result<
        Vec<EncodedPacket>,
        PixelForgeError,
    >)
        requires
            old(self)@.well_formed(),
            reads@.len() == old(self)@.state.pipeline.flush_order().len(),
        ensures
            flushes(
                old(self)@.state.pipeline,
                reads@,
                Seq::empty(),
                NO_PACKET_METADATA@,
                false,
                packets,
                final(self)@.state.pipeline,
            ),
            final(self)@ == (H265Model {
                state: StateModel {
                    pipeline: final(self)@.state.pipeline,
                    ..old(self)@.state
                },
                ..old(self)@
            }),
            final(self)@.well_formed(),
    {
        self.state.flush(reads, &Vec::new(), NO_PACKET_METADATA, false)
    }

    /// Request that the next frame be an IDR frame.
    pub fn request_idr(&mut self)
        requires
            old(self)@.well_formed(),
        ensures
            final(self)@ == (H265Model { state: old(self)@.state.requested(), ..old(self)@ }),
            final(self)@.well_formed(),
    {
        self.state.request_idr();
    }

    /// Update the color description (VUI parameters) in the encoded stream, once the
    /// session parameters have been recreated for it. The next frame will be an IDR
    /// frame with the new VPS/SPS/PPS prepended.
    pub fn set_color_description(
        &mut self,
        desc: ColorDescription,
        recreated: Result<(), PixelForgeError>,
    ) -> (result: Result<(), PixelForgeError>)
        requires
            old(self)@.well_formed(),
        ensures
            match recreated {
                Ok(_) => result is Ok && final(self)@ == (H265Model {
                    state: old(self)@.state.recolored(desc),
                    header: None,
                    ..old(self)@
                }),
                Err(e) => result == Err::<(), PixelForgeError>(e) && final(self)@ == old(self)@,
            },
            final(self)@.well_formed(),
    {
        match recreated {
            Err(e) => Err(e),
            Ok(()) => {
                self.state.set_color_description(desc);
                self.header_data = None;
                Ok(())
            },
        }
    }
}

proof fn lemma_references_after(m: H265Model, frame: StartedFrame)
    requires
        m.well_formed(),
        frame.position.is_reference,
        poc_fits(frame.position.pic_order_cnt),
    ensures
        ({
            let references = m.references_after(frame);
            let after = slots_of(references);
            let session = m.state.session;
            &&& references.len() <= session.active_reference_count
            &&& forall|i: int|
                0 <= i < references.len() ==> poc_fits((#[trigger] references[i]).poc)
            &&& forall|i: int|
                0 <= i < after.len() ==> #[trigger] after[i] < session.dpb_slot_count
            &&& distinct(after)
            &&& m.slot_after(frame) < session.dpb_slot_count
            &&& !after.contains(m.slot_after(frame))
        }),
{
    let session = m.state.session;
    let newest = ReferenceInfo {
        dpb_slot: m.state.current_dpb_slot,
        poc: frame.position.pic_order_cnt,
    };
    let before = slots_of(m.references);
    let references = m.references_after(frame);
    let after = slots_of(references);
    law_newest_is_remembered(m.references, newest, session.active_reference_count as nat);
    assert forall|i: int| 0 <= i < references.len() implies poc_fits(
        (#[trigger] references[i]).poc,
    ) by {
        if i > 0 {
            assert(references[i] == m.context().references[i - 1]);
        }
    }
    assert forall|i: int| 0 <= i < after.len() implies #[trigger] after[i]
        < session.dpb_slot_count by {
        if i > 0 {
            assert(references[i] == m.references[i - 1]);
            assert(before[i - 1] < session.dpb_slot_count);
        }
    }
    assert forall|i: int, j: int| 0 <= i < j < after.len() implies #[trigger] after[i]
        != #[trigger] after[j] by {
        assert(references[j] == m.references[j - 1]);
        assert(after[j] == before[j - 1]);
        if i > 0 {
            assert(references[i] == m.references[i - 1]);
            assert(after[i] == before[i - 1]);
        } else {
            assert(before.contains(before[j - 1]));
        }
    }
    law_next_slot_is_free(after, session.dpb_slot_count as u8, m.state.current_dpb_slot);
}

} // verus!
