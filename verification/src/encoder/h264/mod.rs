//! H.264 encoder.

use crate::encoder::gop::GopFrameType;
use crate::encoder::header::{answers, HeaderOutcome, HeaderQuery, MAX_ATTEMPTS};
use crate::encoder::pipeline::{drains, flushes, header_seq, NO_METADATA};
use crate::encoder::rate_control::is_constant_quality;
use crate::encoder::references::{
    distinct, find_free_slot, law_newest_is_remembered, law_next_slot_is_free, next_slot, remember,
    remembered,
};
use crate::encoder::resources::uploading;
use crate::encoder::session::{
    extent_fits, law_coded_size_is_aligned, law_slots_hold_references, negotiate, negotiates,
    DeviceReport, SessionPlan,
};
use crate::encoder::state::{new_state, EncoderState, StartedFrame, StateModel};
use crate::encoder::{Codec, ColorDescription, EncodeConfig, EncodedPacket, PixelFormat};
use crate::error::PixelForgeError;
use crate::steps::{modelled, Step};
use vstd::prelude::*;

pub mod frame;
pub mod laws;
pub mod parameters;

pub use frame::{H264FramePlan, ReferenceInfo};
pub use parameters::{H264Parameters, MB_SIZE};

use frame::{plan_frame, qp_delta_fits, reference_slots, slots_of, H264Context};
use parameters::{build_parameters, check_cropping, checks_cropping, parameters_of};

verus! {

/// H.264 encoder.
#[derive(Debug)]
pub struct H264Encoder {
    state: EncoderState,
    frame_num_syntax: u32,
    idr_pic_id: u32,
    /// Reference after the current frame in display order (for B-frames, L1).
    backward_reference: Option<ReferenceInfo>,
    /// Active L0 reference pictures (for P-frames). Ordered from most recent to oldest.
    l0_references: Vec<ReferenceInfo>,
    /// Whether CABAC entropy coding is preferred.
    preferred_entropy_cabac: bool,
}

/// What an H.264 encoder holds.
#[verifier::ext_equal]
pub struct H264Model {
    /// The state that all codecs share.
    pub state: StateModel,
    /// Frame number of the next frame.
    pub frame_num: u32,
    /// Identifier of the last IDR picture.
    pub idr_pic_id: u32,
    /// Reference after the current frame in display order.
    pub backward: Option<ReferenceInfo>,
    /// References, the most recent first.
    pub references: Seq<ReferenceInfo>,
    /// Whether CABAC entropy coding is preferred.
    pub cabac: bool,
}

impl H264Model {
    /// The references fit, each is in a DPB slot of its own, and the current slot
    /// holds none of them.
    pub open spec fn well_formed(self) -> bool {
        let slots = slots_of(self.references);
        &&& self.state.well_formed()
        &&& self.state.session.active_reference_count < self.state.session.dpb_slot_count
        &&& self.state.session.coded_extent.width >= MB_SIZE
        &&& self.state.session.coded_extent.height >= MB_SIZE
        &&& self.frame_num < 256
        &&& self.idr_pic_id <= 1
        &&& self.references.len() <= self.state.session.active_reference_count
        &&& forall|i: int|
            0 <= i < slots.len() ==> #[trigger] slots[i] < self.state.session.dpb_slot_count
        &&& distinct(slots)
        &&& !slots.contains(self.state.current_dpb_slot)
    }

    /// What the encode of a frame depends on.
    pub open spec fn context(self) -> H264Context {
        H264Context {
            frame_num: self.frame_num,
            idr_pic_id: self.idr_pic_id,
            references: self.references,
            backward: self.backward,
        }
    }

    /// The state after the start of the picture of a frame.
    pub open spec fn picture_started(self, frame: StartedFrame) -> H264Model {
        if frame.position.frame_type == GopFrameType::Idr {
            H264Model {
                frame_num: 0,
                idr_pic_id: if self.idr_pic_id == 0 {
                    1
                } else {
                    0
                },
                references: Seq::empty(),
                backward: None,
                ..self
            }
        } else {
            self
        }
    }

    /// The references after a frame.
    pub open spec fn references_after(self, frame: StartedFrame) -> Seq<ReferenceInfo> {
        if frame.position.is_reference {
            remembered(
                self.references,
                ReferenceInfo {
                    dpb_slot: self.state.current_dpb_slot,
                    frame_num: self.frame_num,
                    poc: frame.position.pic_order_cnt,
                },
                self.state.session.active_reference_count as nat,
            )
        } else {
            self.references
        }
    }

    /// The DPB slot for the frame after a frame.
    pub open spec fn slot_after(self, frame: StartedFrame) -> u8 {
        if frame.position.is_reference {
            next_slot(
                slots_of(self.references_after(frame)),
                self.state.session.dpb_slot_count as u8,
                self.state.current_dpb_slot,
            )
        } else {
            self.state.current_dpb_slot
        }
    }

    /// The state after a frame has been submitted.
    pub open spec fn finished(self, frame: StartedFrame, header: Option<Seq<u8>>) -> H264Model {
        H264Model {
            state: self.state.finished(
                self.state.metadata(
                    frame,
                    frame.position.frame_type == GopFrameType::Idr,
                    header,
                ),
                self.slot_after(frame),
            ),
            frame_num: if frame.position.is_reference && frame.position.frame_type
                != GopFrameType::B {
                ((self.frame_num + 1) % 256) as u32
            } else {
                self.frame_num
            },
            references: self.references_after(frame),
            ..self
        }
    }
}

impl View for H264Encoder {
    type V = H264Model;

    closed spec fn view(&self) -> H264Model {
        H264Model {
            state: self.state@,
            frame_num: self.frame_num_syntax,
            idr_pic_id: self.idr_pic_id,
            backward: self.backward_reference,
            references: self.l0_references@,
            cabac: self.preferred_entropy_cabac,
        }
    }
}

/// A new encoder for a session.
pub open spec fn new_encoder(
    m: H264Model,
    config: EncodeConfig,
    session: SessionPlan,
    preferred_entropy_cabac: Option<bool>,
) -> bool {
    &&& new_state(m.state, config, session)
    &&& m.frame_num == 0
    &&& m.idr_pic_id == 0
    &&& m.backward is None
    &&& m.references == Seq::<ReferenceInfo>::empty()
    &&& m.cabac == match preferred_entropy_cabac {
        Some(cabac) => cabac,
        None => true,
    }
}

/// Creating an encoder gives this result: that of the negotiation of its session, or
/// that of checking the cropping of its pictures, or an encoder.
pub open spec fn creates(
    config: EncodeConfig,
    report: DeviceReport,
    preferred_entropy_cabac: Option<bool>,
    result: Result<H264Encoder, PixelForgeError>,
) -> bool {
    exists|plan: Result<SessionPlan, PixelForgeError>|
        {
            &&& #[trigger] negotiates(Codec::H264, config, report, plan)
            &&& match plan {
                Err(e) => result == Err::<H264Encoder, PixelForgeError>(e),
                Ok(session) => match result {
                    Ok(encoder) => {
                        &&& checks_cropping(
                            config.dimensions,
                            session.coded_extent,
                            config.pixel_format,
                            Ok(()),
                        )
                        &&& new_encoder(encoder@, config, session, preferred_entropy_cabac)
                        &&& encoder@.well_formed()
                    },
                    Err(e) => checks_cropping(
                        config.dimensions,
                        session.coded_extent,
                        config.pixel_format,
                        Err(e),
                    ),
                },
            }
        }
}

impl H264Encoder {
    /// Create a new H.264 encoder with what the device reports.
    ///
    /// `preferred_entropy_cabac` is the entropy coding that the device prefers, if it
    /// could be queried; otherwise CABAC is used. B-frames are not yet supported.
    pub fn new(
        config: EncodeConfig,
        report: DeviceReport,
        preferred_entropy_cabac: Option<bool>,
    ) -> (encoder: Result<Self, PixelForgeError>)
        requires
            config.b_frame_count == 0,
            config.pixel_format != PixelFormat::Yuv422,
            report.capabilities matches Ok(caps) ==> {
                &&& extent_fits(Codec::H264, config.dimensions, caps)
                &&& config.dimensions.width > 0 || caps.min_coded_extent.width > 0
                &&& config.dimensions.height > 0 || caps.min_coded_extent.height > 0
            },
        ensures
            creates(config, report, preferred_entropy_cabac, encoder),
    {
        let ghost asked = report;
        let plan = negotiate(Codec::H264, &config, report);
        let session = match plan {
            Err(e) => {
                assert(negotiates(Codec::H264, config, asked, plan));
                return Err(e);
            },
            Ok(session) => session,
        };
        assert(negotiates(Codec::H264, config, asked, Ok(session)));
        proof {
            let caps = asked.capabilities->Ok_0;
            law_slots_hold_references(Codec::H264, config.max_reference_frames, caps);
            law_coded_size_is_aligned(
                Codec::H264,
                config.dimensions.width,
                caps.min_coded_extent.width,
                caps.picture_access_granularity.width,
            );
            law_coded_size_is_aligned(
                Codec::H264,
                config.dimensions.height,
                caps.min_coded_extent.height,
                caps.picture_access_granularity.height,
            );
        }
        match check_cropping(config.dimensions, session.coded_extent, config.pixel_format) {
            Err(e) => {
                return Err(e);
            },
            Ok(()) => {},
        }
        let encoder = H264Encoder {
            state: EncoderState::new(config, session),
            frame_num_syntax: 0,
            idr_pic_id: 0,
            backward_reference: None,
            l0_references: Vec::new(),
            preferred_entropy_cabac: match preferred_entropy_cabac {
                Some(cabac) => cabac,
                None => true,
            },
        };
        Ok(encoder)
    }

    /// The state that all codecs share.
    pub fn state(&self) -> (state: &EncoderState)
        ensures
            state@ == self@.state,
    {
        &self.state
    }

    /// The slot of the pipeline whose input image the next frame is taken from. The
    /// image can be used as a target for a color conversion to avoid an intermediate
    /// copy.
    pub fn input_image(&self) -> (slot: usize)
        ensures
            slot == self@.state.pipeline.current,
    {
        self.state.current_slot()
    }

    /// Build the parameter sets for a color description.
    pub fn create_session_params(&self, desc: &ColorDescription) -> (parameters: Result<
        H264Parameters,
        PixelForgeError,
    >)
        requires
            self@.well_formed(),
        ensures
            match parameters {
                Ok(parameters) => self@.state.config.pixel_format != PixelFormat::Yuv422
                    && parameters == parameters_of(
                    self@.state.config,
                    self@.state.session,
                    self@.cabac,
                    *desc,
                ),
                Err(e) => self@.state.config.pixel_format == PixelFormat::Yuv422
                    && e.is_invalid_input(parameters::unsupported(PixelFormat::Yuv422)),
            },
    {
        build_parameters(
            &self.state.config(),
            &self.state.session(),
            self.preferred_entropy_cabac,
            desc,
        )
    }

    /// Drain the current slot with what was read from its bitstream buffer.
    pub fn drain_current_slot(&mut self, read: Result<Vec<u8>, PixelForgeError>) -> (packet: Result<
        Option<EncodedPacket>,
        PixelForgeError,
    >)
        requires
            old(self)@.well_formed(),
        ensures
            drains(
                old(self)@.state.pipeline,
                old(self)@.state.pipeline.current,
                read,
                Seq::empty(),
                NO_METADATA@,
                packet,
                final(self)@.state.pipeline,
            ),
            final(self)@ == (H264Model {
                state: StateModel {
                    pipeline: final(self)@.state.pipeline,
                    ..old(self)@.state
                },
                ..old(self)@
            }),
            final(self)@.well_formed(),
    {
        self.state.drain(read, &Vec::new(), NO_METADATA)
    }

    /// Start a frame: take its place in the GOP and count it.
    pub fn start_frame(&mut self) -> (frame: StartedFrame)
        requires
            old(self)@.well_formed(),
            old(self)@.state.input_frame_num < u64::MAX,
        ensures
            frame == old(self)@.state.coming(),
            final(self)@ == (H264Model { state: old(self)@.state.started(), ..old(self)@ }),
            final(self)@.well_formed(),
    {
        self.state.start_frame()
    }

    /// How to upload a source image to the current slot's input image; none if the
    /// source image is the input image itself.
    pub fn upload_from_image(&self, is_input_image: bool) -> (steps: Option<Vec<Step>>)
        requires
            self@.well_formed(),
        ensures
            match steps {
                None => is_input_image,
                Some(steps) => !is_input_image && modelled(steps@) == uploading(
                    self@.state.config.dimensions.width,
                    self@.state.config.dimensions.height,
                    self@.state.config.pixel_format,
                    self@.state.pipeline.slots[self@.state.pipeline.current].layout,
                ),
            },
    {
        self.state.upload(is_input_image)
    }

    /// Note that the source image has been uploaded.
    pub fn uploaded(&mut self)
        requires
            old(self)@.well_formed(),
        ensures
            final(self)@ == (H264Model { state: old(self)@.state.filled(), ..old(self)@ }),
            final(self)@.well_formed(),
    {
        self.state.uploaded();
    }

    /// Start the picture of a frame, and say whether it needs the header: an IDR
    /// picture does, and forgets all references.
    pub fn start_picture(&mut self, frame: &StartedFrame) -> (needs_header: bool)
        requires
            old(self)@.well_formed(),
        ensures
            needs_header == (frame.position.frame_type == GopFrameType::Idr),
            final(self)@ == old(self)@.picture_started(*frame),
            final(self)@.well_formed(),
    {
        let is_idr: bool = frame.position.frame_type.is_idr();
        if is_idr {
            self.frame_num_syntax = 0;
            self.idr_pic_id = if self.idr_pic_id == 0 {
                1
            } else {
                0
            };
            self.l0_references = Vec::new();
            self.backward_reference = None;
        }
        is_idr
    }

    /// Go on with the retrieval of the SPS/PPS header after a query.
    pub fn header_answer(
        &self,
        query: &mut HeaderQuery,
        code: i32,
        buffer: Vec<u8>,
        data_size: usize,
    ) -> (outcome: HeaderOutcome)
        requires
            old(query)@.attempts < MAX_ATTEMPTS,
            2 * old(query)@.buffer_size <= usize::MAX,
        ensures
            answers(
                old(query)@,
                code,
                buffer@,
                data_size as int,
                "Encoded parameters size is 0"@,
                "Failed to get encoded parameters: "@,
                outcome,
                final(query)@,
            ),
    {
        query.answer(
            code,
            buffer,
            data_size,
            "Encoded parameters size is 0",
            "Failed to get encoded parameters: ",
        )
    }

    /// Whether the quality level is in the range that slice headers can be planned for.
    pub fn quality_fits(&self) -> (fits: bool)
        ensures
            fits == qp_delta_fits(self@.state.config),
    {
        let config = self.state.config();
        if is_constant_quality(config.rate_control_mode) {
            let qp: i32 = config.quality_level as i32;
            qp >= i32::MIN + 26
        } else {
            true
        }
    }

    /// Plan the encode of a frame.
    pub fn encode(&self, frame: &StartedFrame) -> (plan: H264FramePlan)
        requires
            self@.well_formed(),
            qp_delta_fits(self@.state.config),
        ensures
            plan.plans(self@.state, self@.context(), *frame),
    {
        plan_frame(
            &self.state,
            frame,
            self.frame_num_syntax,
            self.idr_pic_id,
            &self.l0_references,
            self.backward_reference,
        )
    }

    /// Finish a frame that has been submitted: it becomes the most recent reference,
    /// and the next frame gets a DPB slot that no reference uses.
    pub fn finish_frame(&mut self, frame: &StartedFrame, header: Option<Vec<u8>>)
        requires
            old(self)@.well_formed(),
            old(self)@.state.encode_frame_num < u64::MAX,
            old(self)@.state.pipeline.next_value < u64::MAX,
        ensures
            final(self)@ == old(self)@.finished(*frame, header_seq(header)),
            final(self)@.well_formed(),
    {
        let ghost m = self@;
        let is_idr: bool = frame.position.frame_type.is_idr();
        let is_b_frame: bool = frame.position.frame_type == GopFrameType::B;
        let frame_num: u32 = self.frame_num_syntax;
        let current: u8 = self.state.current_dpb_slot();
        let mut next: u8 = current;
        if frame.position.is_reference {
            let session = self.state.session();
            let newest = ReferenceInfo {
                dpb_slot: current,
                frame_num,
                poc: frame.position.pic_order_cnt,
            };
            remember(
                &mut self.l0_references,
                newest,
                session.active_reference_count as usize,
            );
            let used: Vec<u8> = reference_slots(&self.l0_references);
            next = find_free_slot(&used, session.dpb_slot_count as u8, current);
            proof {
                lemma_references_after(m, *frame);
            }
        }
        if frame.position.is_reference && !is_b_frame {
            self.frame_num_syntax = (frame_num + 1) % 256;
        }
        self.state.finish_frame(frame, is_idr, header, next);
    }

    /// Drain every in-flight slot, in submission order, with what was read from
    /// their bitstream buffers. If that fails, the slot at which it does becomes the
    /// current one.
    pub fn flush(&mut self, reads: Vec<Result<Vec<u8>, PixelForgeError>>) -> (packets: Result<
        Vec<EncodedPacket>,
        PixelForgeError,
    >)
        requires
            old(self)@.well_formed(),
            reads@.len() == old(self)@.state.pipeline.flush_order().len(),
        ensures
            flushes(
                old(self)@.state.pipeline,
                reads@,
                Seq::empty(),
                NO_METADATA@,
                true,
                packets,
                final(self)@.state.pipeline,
            ),
            final(self)@ == (H264Model {
                state: StateModel {
                    pipeline: final(self)@.state.pipeline,
                    ..old(self)@.state
                },
                ..old(self)@
            }),
            final(self)@.well_formed(),
    {
        self.state.flush(reads, &Vec::new(), NO_METADATA, true)
    }

    /// Request that the next frame be an IDR frame.
    pub fn request_idr(&mut self)
        requires
            old(self)@.well_formed(),
        ensures
            final(self)@ == (H264Model { state: old(self)@.state.requested(), ..old(self)@ }),
            final(self)@.well_formed(),
    {
        self.state.request_idr();
    }

    /// Update the color description (VUI parameters) in the encoded stream, once the
    /// session parameters have been recreated for it. The next frame will be an IDR
    /// frame with the new SPS/PPS prepended.
    pub fn set_color_description(
        &mut self,
        desc: ColorDescription,
        recreated: Result<(), PixelForgeError>,
    ) -> (result: Result<(), PixelForgeError>)
        requires
            old(self)@.well_formed(),
        ensures
            match recreated {
                Ok(_) => result is Ok && final(self)@ == (H264Model {
                    state: old(self)@.state.recolored(desc),
                    ..old(self)@
                }),
                Err(e) => result == Err::<(), PixelForgeError>(e) && final(self)@ == old(self)@,
            },
            final(self)@.well_formed(),
    {
        match recreated {
            Err(e) => Err(e),
            Ok(()) => {
                self.state.set_color_description(desc);
                Ok(())
            },
        }
    }
}

proof fn lemma_references_after(m: H264Model, frame: StartedFrame)
    requires
        m.well_formed(),
        frame.position.is_reference,
    ensures
        ({
            let after = slots_of(m.references_after(frame));
            let session = m.state.session;
            &&& m.references_after(frame).len() <= session.active_reference_count
            &&& forall|i: int|
                0 <= i < after.len() ==> #[trigger] after[i] < session.dpb_slot_count
            &&& distinct(after)
            &&& m.slot_after(frame) < session.dpb_slot_count
            &&& !after.contains(m.slot_after(frame))
        }),
{
    let session = m.state.session;
    let newest = ReferenceInfo {
        dpb_slot: m.state.current_dpb_slot,
        frame_num: m.frame_num,
        poc: frame.position.pic_order_cnt,
    };
    let before = slots_of(m.references);
    let references = m.references_after(frame);
    let after = slots_of(references);
    law_newest_is_remembered(m.references, newest, session.active_reference_count as nat);
    assert forall|i: int| 0 <= i < after.len() implies #[trigger] after[i]
        < session.dpb_slot_count by {
        if i > 0 {
            assert(references[i] == m.references[i - 1]);
            assert(before[i - 1] < session.dpb_slot_count);
        }
    }
    assert forall|i: int, j: int| 0 <= i < j < after.len() implies #[trigger] after[i]
        != #[trigger] after[j] by {
        assert(references[j] == m.references[j - 1]);
        assert(after[j] == before[j - 1]);
        if i > 0 {
            assert(references[i] == m.references[i - 1]);
            assert(after[i] == before[i - 1]);
        } else {
            assert(before.contains(before[j - 1]));
        }
    }
    law_next_slot_is_free(after, session.dpb_slot_count as u8, m.state.current_dpb_slot);
}

} // verus!
