//! State that the encoders of all codecs share.
//!
//! Encoding a frame goes through these steps. The program around the library does
//! the work on the device between them.
//! 1. Start the frame, which gives its place in the GOP.
//! 2. Upload the source image to the slot's input image.
//! 3. Start the picture, and retrieve the codec header if it needs one.
//! 4. Record and submit the encode commands of the frame's plan.
//! 5. Finish the frame, which updates the references and advances the pipeline.
//! 6. Drain the current slot, which is now the one that the next frame will overwrite.
//!    It hands out the packet of the frame before; the first frame gives none.
//!
//! A slot whose bitstream could not be read stays in flight, and is drained before the
//! next frame starts.

use super::gop::{GopFrameType, GopModel, GopPosition, GopStructure};
use super::pipeline::{
    drains, flushes, EncodePipeline, MetadataModel, PipelineModel, SlotModel, SlotPacketMetadata,
    TimelineValues,
};
use super::resources::{upload_image_to_input, uploading};
use super::session::SessionPlan;
use super::{ColorDescription, EncodeConfig, EncodedPacket, FrameType};
use crate::encoder::dpb::MAX_DPB_SLOTS;
use crate::error::PixelForgeError;
use crate::steps::{modelled, Step};
use crate::vk::ImageLayout;
use vstd::prelude::*;

verus! {

/// A frame whose encoding has started.
#[derive(Debug, Clone, Copy, PartialEq, Eq, Structural)]
pub struct StartedFrame {
    /// Place in the GOP.
    pub position: GopPosition,
    /// Number of the frame in display order.
    pub display_order: u64,
}

/// State that the encoders of all codecs share.
#[derive(Debug)]
pub struct EncoderState {
    config: EncodeConfig,
    session: SessionPlan,
    gop: GopStructure,
    /// Per-frame slots and submission ordering.
    pipeline: EncodePipeline,
    // Frame counters.
    input_frame_num: u64,
    encode_frame_num: u64,
    /// Tracks which DPB slots have been activated (used at least once).
    dpb_slot_active: Vec<bool>,
    /// Current DPB slot to use for setup (the reconstructed picture).
    current_dpb_slot: u8,
}

/// What the shared state holds.
#[verifier::ext_equal]
pub struct StateModel {
    /// The configuration.
    pub config: EncodeConfig,
    /// The session.
    pub session: SessionPlan,
    /// The GOP structure.
    pub gop: GopModel,
    /// The pipeline.
    pub pipeline: PipelineModel,
    /// Number of frames that have been started.
    pub input_frame_num: int,
    /// Number of frames that have been submitted.
    pub encode_frame_num: int,
    /// Which DPB slots have been activated.
    pub slot_active: Seq<bool>,
    /// DPB slot of the reconstructed picture.
    pub current_dpb_slot: u8,
}

impl StateModel {
    /// The parts are well formed, and the current DPB slot is one of the slots.
    pub open spec fn well_formed(self) -> bool {
        &&& self.gop.well_formed()
        &&& self.pipeline.well_formed()
        &&& 1 <= self.session.dpb_slot_count <= MAX_DPB_SLOTS
        &&& self.slot_active.len() == self.session.dpb_slot_count
        &&& self.current_dpb_slot < self.session.dpb_slot_count
        &&& 0 <= self.input_frame_num
        &&& 0 <= self.encode_frame_num
    }

    /// Another frame can be started and submitted before a counter runs out.
    pub open spec fn can_count(self) -> bool {
        &&& self.input_frame_num < u64::MAX
        &&& self.encode_frame_num < u64::MAX
        &&& self.pipeline.next_value < u64::MAX
    }

    /// The frame that starts next.
    pub open spec fn coming(self) -> StartedFrame {
        StartedFrame {
            position: self.gop.coming(),
            display_order: self.input_frame_num as u64,
        }
    }

    /// The state after a frame has started.
    pub open spec fn started(self) -> StateModel {
        StateModel {
            gop: self.gop.stepped(),
            input_frame_num: self.input_frame_num + 1,
            ..self
        }
    }

    /// The state after the current slot's input image has been filled.
    pub open spec fn filled(self) -> StateModel {
        StateModel {
            pipeline: self.pipeline.with_current(
                SlotModel {
                    layout: ImageLayout::VideoEncodeSrc,
                    ..self.pipeline.slots[self.pipeline.current]
                },
            ),
            ..self
        }
    }

    /// The state with an IDR frame requested.
    pub open spec fn requested(self) -> StateModel {
        StateModel { gop: GopModel { idr_requested: true, ..self.gop }, ..self }
    }

    /// The state with every DPB slot inactive.
    pub open spec fn deactivated(self) -> StateModel {
        StateModel {
            slot_active: Seq::new(self.slot_active.len(), |i: int| false),
            ..self
        }
    }

    /// Info on the packet of a frame that is submitted now.
    pub open spec fn metadata(
        self,
        frame: StartedFrame,
        is_key_frame: bool,
        header: Option<Seq<u8>>,
    ) -> MetadataModel {
        MetadataModel {
            frame_type: frame_type_of(frame.position.frame_type),
            is_key_frame,
            pts: frame.display_order,
            dts: self.encode_frame_num as u64,
            header,
        }
    }

    /// The state after a frame has been submitted, with the DPB slot for the next.
    pub open spec fn finished(self, metadata: MetadataModel, next_dpb_slot: u8) -> StateModel {
        StateModel {
            pipeline: self.pipeline.submitted().announced(metadata).advanced(),
            encode_frame_num: self.encode_frame_num + 1,
            slot_active: self.slot_active.update(self.current_dpb_slot as int, true),
            current_dpb_slot: next_dpb_slot,
            ..self
        }
    }

    /// The state with a color description, whose parameters come with the next frame.
    pub open spec fn recolored(self, desc: ColorDescription) -> StateModel {
        StateModel {
            config: EncodeConfig { color_description: Some(desc), ..self.config },
            gop: GopModel { idr_requested: true, ..self.gop },
            ..self
        }
    }
}

/// Type of the packet of a frame.
pub open spec fn frame_type_of(frame_type: GopFrameType) -> FrameType {
    match frame_type {
        GopFrameType::Idr => FrameType::I,
        GopFrameType::I => FrameType::I,
        GopFrameType::P => FrameType::P,
        GopFrameType::B => FrameType::B,
    }
}

fn packet_frame_type(frame_type: GopFrameType) -> (packet: FrameType)
    ensures
        packet == frame_type_of(frame_type),
{
    match frame_type {
        GopFrameType::Idr | GopFrameType::I => FrameType::I,
        GopFrameType::P => FrameType::P,
        GopFrameType::B => FrameType::B,
    }
}

/// Color description of a configuration: BT.709 unless it gives one.
pub fn color_description_of(config: &EncodeConfig) -> (desc: ColorDescription)
    ensures
        desc == color_of(*config),
{
    match config.color_description {
        Some(desc) => desc,
        None => ColorDescription::bt709(),
    }
}

/// Color description of a configuration: BT.709 unless it gives one.
pub open spec fn color_of(config: EncodeConfig) -> ColorDescription {
    match config.color_description {
        Some(desc) => desc,
        None => ColorDescription {
            color_primaries: 1,
            transfer_characteristics: 1,
            matrix_coefficients: 1,
            full_range: true,
        },
    }
}

impl View for EncoderState {
    type V = StateModel;

    closed spec fn view(&self) -> StateModel {
        StateModel {
            config: self.config,
            session: self.session,
            gop: self.gop@,
            pipeline: self.pipeline@,
            input_frame_num: self.input_frame_num as int,
            encode_frame_num: self.encode_frame_num as int,
            slot_active: self.dpb_slot_active@,
            current_dpb_slot: self.current_dpb_slot,
        }
    }
}

/// The shared state of a new encoder.
pub open spec fn new_state(m: StateModel, config: EncodeConfig, session: SessionPlan) -> bool {
    &&& m.config == config
    &&& m.session == session
    &&& m.gop == (GopModel {
        gop_size: super::gop::at_least_one(config.gop_size),
        next_index: 0,
        idr_requested: false,
        max_poc_lsb: 256,
    })
    &&& m.pipeline.current == 0
    &&& m.pipeline.last_value == 0
    &&& m.pipeline.next_value == 1
    &&& m.pipeline.slots.len() == super::pipeline::ENCODE_PIPELINE_DEPTH
    &&& forall|i: int|
        0 <= i < m.pipeline.slots.len() ==> #[trigger] m.pipeline.slots[i] == (SlotModel {
            layout: ImageLayout::VideoEncodeSrc,
            in_flight: false,
            pending: None,
        })
    &&& m.input_frame_num == 0
    &&& m.encode_frame_num == 0
    &&& m.slot_active =~= Seq::new(session.dpb_slot_count as nat, |i: int| false)
    &&& m.current_dpb_slot == 0
}

impl EncoderState {
    /// Start a stream.
    pub fn new(config: EncodeConfig, session: SessionPlan) -> (state: Self)
        requires
            1 <= session.dpb_slot_count <= MAX_DPB_SLOTS,
        ensures
            new_state(state@, config, session),
            state@.well_formed(),
    {
        let mut dpb_slot_active: Vec<bool> = Vec::new();
        let mut i: usize = 0;
        while i < session.dpb_slot_count
            invariant
                i <= session.dpb_slot_count,
                dpb_slot_active@ =~= Seq::new(i as nat, |j: int| false),
            decreases session.dpb_slot_count - i,
        {
            dpb_slot_active.push(false);
            i = i + 1;
        }
        let mut gop = GopStructure::new_ip_only(config.gop_size);
        // The picture order count LSB has 8 bits, as in the parameter sets.
        gop.set_max_poc_lsb(4);
        proof {
            vstd::arithmetic::power2::lemma2_to64();
        }
        EncoderState {
            config,
            session,
            gop,
            pipeline: EncodePipeline::new(),
            input_frame_num: 0,
            encode_frame_num: 0,
            dpb_slot_active,
            current_dpb_slot: 0,
        }
    }

    /// The configuration.
    pub fn config(&self) -> (config: EncodeConfig)
        ensures
            config == self@.config,
    {
        self.config
    }

    /// The session.
    pub fn session(&self) -> (session: SessionPlan)
        ensures
            session == self@.session,
    {
        self.session
    }

    /// DPB slot of the reconstructed picture.
    pub fn current_dpb_slot(&self) -> (slot: u8)
        ensures
            slot == self@.current_dpb_slot,
    {
        self.current_dpb_slot
    }

    /// Whether the current DPB slot has been used before.
    pub fn current_slot_active(&self) -> (active: bool)
        requires
            self@.well_formed(),
        ensures
            active == self@.slot_active[self@.current_dpb_slot as int],
    {
        self.dpb_slot_active[self.current_dpb_slot as usize]
    }

    /// Whether no frame has been submitted yet.
    pub fn is_first_frame(&self) -> (first: bool)
        ensures
            first == (self@.encode_frame_num == 0),
    {
        self.encode_frame_num == 0
    }

    /// The slot of the pipeline that the next frame will be encoded into; its input
    /// image can be the target of a color conversion.
    pub fn current_slot(&self) -> (slot: usize)
        ensures
            slot == self@.pipeline.current,
    {
        self.pipeline.current()
    }

    /// Whether an encode is in flight in a slot of the pipeline.
    pub fn in_flight(&self, slot: usize) -> (in_flight: bool)
        requires
            slot < self@.pipeline.slots.len(),
        ensures
            in_flight == self@.pipeline.slots[slot as int].in_flight,
    {
        self.pipeline.in_flight(slot)
    }

    /// The slots of the pipeline other than the current one that are in flight.
    pub fn others_in_flight(&self) -> (others: Vec<usize>)
        ensures
            others@.map_values(|i: usize| i as int) == super::dpb::select::present(
                self@.pipeline.others(),
            ),
    {
        self.pipeline.others_in_flight()
    }

    /// Whether another frame can be encoded before a counter runs out.
    pub fn can_encode(&self) -> (can: bool)
        ensures
            can == self@.can_count(),
    {
        self.input_frame_num < u64::MAX && self.encode_frame_num < u64::MAX
            && self.pipeline.can_submit()
    }

    /// Whether another frame can be submitted before a counter runs out.
    pub fn can_submit(&self) -> (can: bool)
        ensures
            can == (self@.encode_frame_num < u64::MAX && self@.pipeline.next_value < u64::MAX),
    {
        self.encode_frame_num < u64::MAX && self.pipeline.can_submit()
    }

    /// Values of the timeline semaphore for submitting the frame.
    pub fn timeline_values(&self) -> (values: TimelineValues)
        ensures
            values.wait == if self@.pipeline.last_value > 0 {
                Some(self@.pipeline.last_value as u64)
            } else {
                None
            },
            values.signal == self@.pipeline.next_value,
            values == self@.pipeline.timeline(),
    {
        self.pipeline.timeline_values()
    }

    /// Drain the current slot with what was read from its bitstream buffer.
    pub fn drain(
        &mut self,
        read: Result<Vec<u8>, PixelForgeError>,
        prefix: &Vec<u8>,
        missing: &str,
    ) -> (packet: Result<Option<EncodedPacket>, PixelForgeError>)
        requires
            old(self)@.well_formed(),
        ensures
            drains(
                old(self)@.pipeline,
                old(self)@.pipeline.current,
                read,
                prefix@,
                missing@,
                packet,
                final(self)@.pipeline,
            ),
            final(self)@ == (StateModel { pipeline: final(self)@.pipeline, ..old(self)@ }),
            final(self)@.well_formed(),
    {
        let slot: usize = self.pipeline.current();
        self.pipeline.drain_slot(slot, read, prefix, missing)
    }

    /// Start a frame: take its place in the GOP and count it.
    pub fn start_frame(&mut self) -> (frame: StartedFrame)
        requires
            old(self)@.well_formed(),
            old(self)@.input_frame_num < u64::MAX,
        ensures
            frame == old(self)@.coming(),
            final(self)@ == old(self)@.started(),
            final(self)@.well_formed(),
    {
        let position = self.gop.get_next_frame();
        let display_order: u64 = self.input_frame_num;
        self.input_frame_num = self.input_frame_num + 1;
        StartedFrame { position, display_order }
    }

    /// How to upload a source image to the current slot's input image; none if the
    /// source image is the input image itself.
    pub fn upload(&self, is_input_image: bool) -> (steps: Option<Vec<Step>>)
        requires
            self@.well_formed(),
        ensures
            match steps {
                None => is_input_image,
                Some(steps) => !is_input_image && modelled(steps@) == uploading(
                    self@.config.dimensions.width,
                    self@.config.dimensions.height,
                    self@.config.pixel_format,
                    self@.pipeline.slots[self@.pipeline.current].layout,
                ),
            },
    {
        if is_input_image {
            return None;
        }
        Some(
            upload_image_to_input(
                self.config.dimensions.width,
                self.config.dimensions.height,
                self.config.pixel_format,
                self.pipeline.input_image_layout(),
            ),
        )
    }

    /// Note that the steps of [`Self::upload`] have been done.
    pub fn uploaded(&mut self)
        requires
            old(self)@.well_formed(),
        ensures
            final(self)@ == old(self)@.filled(),
            final(self)@.well_formed(),
    {
        self.pipeline.set_input_image_layout(ImageLayout::VideoEncodeSrc);
    }

    /// Make all DPB slots inactive.
    pub fn deactivate_slots(&mut self)
        requires
            old(self)@.well_formed(),
        ensures
            final(self)@ == old(self)@.deactivated(),
            final(self)@.well_formed(),
    {
        let ghost m = self@;
        let n: usize = self.dpb_slot_active.len();
        let mut i: usize = 0;
        while i < n
            invariant
                i <= n,
                n == m.slot_active.len(),
                self@ == (StateModel { slot_active: self@.slot_active, ..m }),
                self@.slot_active.len() == n,
                forall|j: int| 0 <= j < i ==> !(#[trigger] self@.slot_active[j]),
            decreases n - i,
        {
            self.dpb_slot_active[i] = false;
            i = i + 1;
        }
        assert(self@.slot_active =~= m.deactivated().slot_active);
    }

    /// Finish a frame that has been submitted: mark its DPB slot active, count it,
    /// leave the info on its packet, and go on to the next slots.
    pub fn finish_frame(
        &mut self,
        frame: &StartedFrame,
        is_key_frame: bool,
        header: Option<Vec<u8>>,
        next_dpb_slot: u8,
    )
        requires
            old(self)@.well_formed(),
            old(self)@.encode_frame_num < u64::MAX,
            old(self)@.pipeline.next_value < u64::MAX,
            next_dpb_slot < old(self)@.session.dpb_slot_count,
        ensures
            final(self)@ == old(self)@.finished(
                old(self)@.metadata(*frame, is_key_frame, super::pipeline::header_seq(header)),
                next_dpb_slot,
            ),
            final(self)@.well_formed(),
    {
        self.pipeline.submit_current();
        self.dpb_slot_active[self.current_dpb_slot as usize] = true;
        let dts: u64 = self.encode_frame_num;
        self.encode_frame_num = self.encode_frame_num + 1;
        self.pipeline.set_pending_metadata(
            SlotPacketMetadata {
                frame_type: packet_frame_type(frame.position.frame_type),
                is_key_frame,
                pts: frame.display_order,
                dts,
                header,
            },
        );
        self.current_dpb_slot = next_dpb_slot;
        self.pipeline.advance();
    }

    /// The slots of the pipeline that are in flight, in submission order.
    pub fn flush_order(&self) -> (order: Vec<usize>)
        requires
            self@.well_formed(),
        ensures
            order@.len() == self@.pipeline.flush_order().len(),
            forall|k: int|
                0 <= k < order@.len() ==> #[trigger] order@[k] == self@.pipeline.flush_order()[k]
                    && order@[k] < self@.pipeline.slots.len(),
    {
        self.pipeline.flush_order()
    }

    /// Drain every in-flight slot, in submission order. `moves` says whether the slot at
    /// which that fails is then the current one.
    pub fn flush(
        &mut self,
        reads: Vec<Result<Vec<u8>, PixelForgeError>>,
        prefix: &Vec<u8>,
        missing: &str,
        moves: bool,
    ) -> (packets: Result<Vec<EncodedPacket>, PixelForgeError>)
        requires
            old(self)@.well_formed(),
            reads@.len() == old(self)@.pipeline.flush_order().len(),
        ensures
            flushes(
                old(self)@.pipeline,
                reads@,
                prefix@,
                missing@,
                moves,
                packets,
                final(self)@.pipeline,
            ),
            final(self)@ == (StateModel { pipeline: final(self)@.pipeline, ..old(self)@ }),
            final(self)@.well_formed(),
    {
        self.pipeline.flush(reads, prefix, missing, moves)
    }

    /// Request that the next frame be an IDR frame.
    pub fn request_idr(&mut self)
        requires
            old(self)@.well_formed(),
        ensures
            final(self)@ == old(self)@.requested(),
            final(self)@.well_formed(),
    {
        self.gop.request_idr();
    }

    /// Take over a color description, and request an IDR frame for its parameters.
    pub fn set_color_description(&mut self, desc: ColorDescription)
        requires
            old(self)@.well_formed(),
        ensures
            final(self)@ == old(self)@.recolored(desc),
            final(self)@.well_formed(),
    {
        self.config.color_description = Some(desc);
        self.gop.request_idr();
    }
}

} // verus!
