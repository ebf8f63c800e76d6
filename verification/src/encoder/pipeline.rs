//! Depth-N encode pipelining, shared by all codecs.
//!
//! Each in-flight frame owns a slot (its own input image, bitstream buffer,
//! encode command buffer, fence and query pool). [`EncodePipeline`] rotates
//! through the slots so that the CPU can record and submit frame N+1 while the
//! GPU is still encoding frame N.
//!
//! The DPB images and video session are shared across slots, so encode
//! submissions must still run in DPB order on the GPU. That ordering is enforced
//! with a single timeline semaphore (each submit waits on the previous submit's
//! value and signals its own), while bitstream readback is deferred until the
//! slot is reused.

use super::dpb::select::{
    lemma_present_drop_first, lemma_present_from, lemma_present_push, present, present_upto,
};
use super::{EncodedPacket, FrameType, PacketModel};
use crate::error::PixelForgeError;
use crate::vk::ImageLayout;
use vstd::prelude::*;

verus! {

/// Number of encode submissions allowed to be in flight at once.
pub const ENCODE_PIPELINE_DEPTH: usize = 2;

/// The message of H.264 and AV1 for a drained slot without packet info.
pub const NO_METADATA: &'static str =
    "Drained slot has bitstream but no metadata; encoder state corrupted";

/// The message of H.265 for a drained slot without packet info.
pub const NO_PACKET_METADATA: &'static str =
    "Drained encode slot has bitstream data but no packet metadata";

/// Per-frame packet info captured at submit time and attached to the bitstream
/// when the slot is later drained.
#[derive(Debug)]
pub struct SlotPacketMetadata {
    /// Frame type.
    pub frame_type: FrameType,
    /// Whether the frame is a keyframe.
    pub is_key_frame: bool,
    /// Presentation timestamp.
    pub pts: u64,
    /// Decode timestamp.
    pub dts: u64,
    /// Codec header (SPS/PPS, VPS/SPS/PPS, or AV1 sequence header) to prepend.
    /// `Some` only for frames that carry one (e.g. the IDR/key frame).
    pub header: Option<Vec<u8>>,
}

/// What packet info holds.
#[verifier::ext_equal]
pub struct MetadataModel {
    /// Frame type.
    pub frame_type: FrameType,
    /// Whether the frame is a keyframe.
    pub is_key_frame: bool,
    /// Presentation timestamp.
    pub pts: u64,
    /// Decode timestamp.
    pub dts: u64,
    /// Codec header to prepend.
    pub header: Option<Seq<u8>>,
}

/// The bytes of an optional header.
pub open spec fn header_seq(header: Option<Vec<u8>>) -> Option<Seq<u8>> {
    match header {
        Some(bytes) => Some(bytes@),
        None => None,
    }
}

impl View for SlotPacketMetadata {
    type V = MetadataModel;

    open spec fn view(&self) -> MetadataModel {
        MetadataModel {
            frame_type: self.frame_type,
            is_key_frame: self.is_key_frame,
            pts: self.pts,
            dts: self.dts,
            header: header_seq(self.header),
        }
    }
}

/// One slot of the pipeline.
#[derive(Debug)]
pub struct EncodeSlot {
    /// Layout of the input image.
    pub input_image_layout: ImageLayout,
    /// Whether an encode has been submitted to this slot and not yet drained.
    pub in_flight: bool,
    /// Info on the packet that the slot will produce.
    pub pending_metadata: Option<SlotPacketMetadata>,
}

/// What a slot holds.
#[verifier::ext_equal]
pub struct SlotModel {
    /// Layout of the input image.
    pub layout: ImageLayout,
    /// Whether an encode has been submitted and not yet drained.
    pub in_flight: bool,
    /// Info on the packet that the slot will produce.
    pub pending: Option<MetadataModel>,
}

impl View for EncodeSlot {
    type V = SlotModel;

    open spec fn view(&self) -> SlotModel {
        SlotModel {
            layout: self.input_image_layout,
            in_flight: self.in_flight,
            pending: match self.pending_metadata {
                Some(metadata) => Some(metadata@),
                None => None,
            },
        }
    }
}

/// Rotating set of slots, and the values of the timeline semaphore that orders
/// their encode submissions.
#[derive(Debug)]
pub struct EncodePipeline {
    slots: Vec<EncodeSlot>,
    current_slot: usize,
    /// Value the next submit will signal.
    next_value: u64,
    /// Value the most recent submit signaled (0 = none yet).
    last_value: u64,
}

/// What a pipeline holds.
#[verifier::ext_equal]
pub struct PipelineModel {
    /// The slots.
    pub slots: Seq<SlotModel>,
    /// The slot that the next frame will be encoded into.
    pub current: int,
    /// Value the next submit will signal.
    pub next_value: int,
    /// Value the most recent submit signaled (0 = none yet).
    pub last_value: int,
}

/// Values of the timeline semaphore that a submit waits on and signals.
#[derive(Debug, Clone, Copy, PartialEq, Eq, Structural)]
pub struct TimelineValues {
    /// Value to wait on, none for the first submit.
    pub wait: Option<u64>,
    /// Value to signal.
    pub signal: u64,
}

/// The slot `offset` places behind `current` in a rotation of `n` slots.
pub open spec fn rotated(current: int, offset: int, n: int) -> int {
    if current + offset < n {
        current + offset
    } else {
        current + offset - n
    }
}

impl PipelineModel {
    /// There is a current slot, and timeline values count up by one.
    pub open spec fn well_formed(self) -> bool {
        &&& 0 <= self.current < self.slots.len()
        &&& self.slots.len() <= 0xffff
        &&& 0 <= self.last_value
        &&& self.next_value == self.last_value + 1
    }

    /// The slots in rotation from the current one on; none for those that are not
    /// in flight.
    pub open spec fn rotation(self) -> Seq<Option<int>> {
        Seq::new(
            self.slots.len(),
            |offset: int|
                {
                    let i = rotated(self.current, offset, self.slots.len() as int);
                    if self.slots[i].in_flight {
                        Some(i)
                    } else {
                        None
                    }
                },
        )
    }

    /// The slots that are in flight, in submission order.
    pub open spec fn flush_order(self) -> Seq<int> {
        present(self.rotation())
    }

    /// The slots other than the current one that are in flight, by their index; none
    /// for the others.
    pub open spec fn others(self) -> Seq<Option<int>> {
        Seq::new(
            self.slots.len(),
            |i: int|
                if i != self.current && self.slots[i].in_flight {
                    Some(i)
                } else {
                    None
                },
        )
    }

    /// Info on the packets that are in flight, in rotation from the current slot on.
    pub open spec fn pending_rotation(self) -> Seq<Option<MetadataModel>> {
        Seq::new(
            self.slots.len(),
            |offset: int|
                {
                    let slot = self.slots[rotated(self.current, offset, self.slots.len() as int)];
                    if slot.in_flight {
                        slot.pending
                    } else {
                        None
                    }
                },
        )
    }

    /// Info on the packets that are in flight, in submission order.
    pub open spec fn queue(self) -> Seq<MetadataModel> {
        present(self.pending_rotation())
    }

    /// Every slot that is in flight has the info on its packet.
    pub open spec fn described(self) -> bool {
        forall|i: int|
            0 <= i < self.slots.len() && (#[trigger] self.slots[i]).in_flight
                ==> self.slots[i].pending is Some
    }

    /// The state with slot `i` drained.
    pub open spec fn drained(self, i: int) -> PipelineModel {
        PipelineModel {
            slots: self.slots.update(
                i,
                SlotModel { in_flight: false, pending: None, ..self.slots[i] },
            ),
            ..self
        }
    }

    /// The state with the first `k` of some slots drained.
    pub open spec fn drained_first(self, order: Seq<int>, k: nat) -> PipelineModel
        decreases k,
    {
        if k == 0 {
            self
        } else {
            self.drained_first(order, (k - 1) as nat).drained(order[k - 1])
        }
    }

    /// The state with slot `i` as the current one, if that moves.
    pub open spec fn stopped_at(self, i: int, moves: bool) -> PipelineModel {
        PipelineModel {
            current: if moves {
                i
            } else {
                self.current
            },
            ..self
        }
    }

    /// The state with the current slot changed.
    pub open spec fn with_current(self, slot: SlotModel) -> PipelineModel {
        PipelineModel { slots: self.slots.update(self.current, slot), ..self }
    }

    /// The state after a submit to the current slot.
    pub open spec fn submitted(self) -> PipelineModel {
        PipelineModel {
            next_value: self.next_value + 1,
            last_value: self.next_value,
            ..self.with_current(SlotModel { in_flight: true, ..self.slots[self.current] })
        }
    }

    /// The state with info on the packet of the current slot.
    pub open spec fn announced(self, metadata: MetadataModel) -> PipelineModel {
        self.with_current(SlotModel { pending: Some(metadata), ..self.slots[self.current] })
    }

    /// The state with the next slot as the current one.
    pub open spec fn advanced(self) -> PipelineModel {
        PipelineModel { current: rotated(self.current, 1, self.slots.len() as int), ..self }
    }

    /// Values of the timeline semaphore for submitting the current slot.
    pub open spec fn timeline(self) -> TimelineValues {
        TimelineValues {
            wait: if self.last_value > 0 {
                Some(self.last_value as u64)
            } else {
                None
            },
            signal: self.next_value as u64,
        }
    }
}

/// The bytes of an optional header, none without one.
pub open spec fn header_bytes(header: Option<Seq<u8>>) -> Seq<u8> {
    match header {
        Some(bytes) => bytes,
        None => Seq::empty(),
    }
}

/// The packet of a bitstream: the prefix of every packet, the header if it carries
/// one, and the bitstream.
pub open spec fn packet_of(
    prefix: Seq<u8>,
    metadata: MetadataModel,
    bitstream: Seq<u8>,
) -> PacketModel {
    PacketModel {
        data: prefix + header_bytes(metadata.header) + bitstream,
        frame_type: metadata.frame_type,
        is_key_frame: metadata.is_key_frame,
        pts: metadata.pts,
        dts: metadata.dts,
    }
}

/// Draining a slot of `m` with what was read from it gives this result and state.
pub open spec fn drains(
    m: PipelineModel,
    i: int,
    read: Result<Vec<u8>, PixelForgeError>,
    prefix: Seq<u8>,
    missing: Seq<char>,
    result: Result<Option<EncodedPacket>, PixelForgeError>,
    next: PipelineModel,
) -> bool {
    if !m.slots[i].in_flight {
        result matches Ok(packet) && packet is None && next == m
    } else {
        match read {
            Err(e) => result == Err::<Option<EncodedPacket>, PixelForgeError>(e) && next == m,
            Ok(bitstream) => next == m.drained(i) && match m.slots[i].pending {
                Some(metadata) => result matches Ok(packet) && packet is Some
                    && packet->Some_0@ == packet_of(prefix, metadata, bitstream@),
                None => result matches Err(e) && e.is_command_buffer(missing),
            },
        }
    }
}

/// Draining the `k`-th slot in flight fails.
pub open spec fn fails_at(
    m: PipelineModel,
    reads: Seq<Result<Vec<u8>, PixelForgeError>>,
    k: int,
) -> bool {
    reads[k] is Err || m.slots[m.flush_order()[k]].pending is None
}

/// Flushing `m` with what was read from the slots in flight gives this result and
/// state: the packets of all of them in submission order, or the first failure. The
/// current slot stays what it was, unless a flush that fails moves it to the slot at
/// which it failed.
pub open spec fn flushes(
    m: PipelineModel,
    reads: Seq<Result<Vec<u8>, PixelForgeError>>,
    prefix: Seq<u8>,
    missing: Seq<char>,
    moves: bool,
    result: Result<Vec<EncodedPacket>, PixelForgeError>,
    next: PipelineModel,
) -> bool {
    let order = m.flush_order();
    match result {
        Ok(packets) => {
            &&& forall|k: int| 0 <= k < order.len() ==> !#[trigger] fails_at(m, reads, k)
            &&& packets@.len() == order.len()
            &&& forall|k: int|
                0 <= k < order.len() ==> (#[trigger] packets@[k])@ == packet_of(
                    prefix,
                    m.slots[order[k]].pending->Some_0,
                    reads[k]->Ok_0@,
                )
            &&& next == m.drained_first(order, order.len())
        },
        Err(e) => exists|k: int|
            {
                &&& 0 <= k < order.len()
                &&& #[trigger] fails_at(m, reads, k)
                &&& forall|j: int| 0 <= j < k ==> !#[trigger] fails_at(m, reads, j)
                &&& match reads[k] {
                    Err(cause) => e == cause && next == m.drained_first(order, k as nat).stopped_at(
                        order[k],
                        moves,
                    ),
                    Ok(bitstream) => e.is_command_buffer(missing) && next == m.drained_first(
                        order,
                        (k + 1) as nat,
                    ).stopped_at(order[k], moves),
                }
            },
    }
}

proof fn lemma_order_upto(m: PipelineModel, n: nat)
    requires
        m.well_formed(),
        n <= m.slots.len(),
    ensures
        forall|k: int|
            0 <= k < present_upto(m.rotation(), n).len() ==> {
                &&& 0 <= #[trigger] present_upto(m.rotation(), n)[k] < m.slots.len()
                &&& m.slots[present_upto(m.rotation(), n)[k]].in_flight
            },
        forall|j: int, k: int|
            0 <= j < k < present_upto(m.rotation(), n).len() ==> #[trigger] present_upto(
                m.rotation(),
                n,
            )[j] != #[trigger] present_upto(m.rotation(), n)[k],
    decreases n,
{
    if n > 0 {
        let before = present_upto(m.rotation(), (n - 1) as nat);
        lemma_order_upto(m, (n - 1) as nat);
        if m.rotation()[n - 1] is Some {
            assert forall|j: int| 0 <= j < before.len() implies #[trigger] before[j]
                != m.rotation()[n - 1]->Some_0 by {
                lemma_present_from(m.rotation(), (n - 1) as nat, j);
                let i = choose|i: int|
                    0 <= i < n - 1 && #[trigger] m.rotation()[i] == Some(before[j]);
                assert(m.rotation()[i] == Some(before[j]));
            }
        }
    }
}

proof fn lemma_order(m: PipelineModel)
    requires
        m.well_formed(),
    ensures
        forall|k: int|
            0 <= k < m.flush_order().len() ==> 0 <= #[trigger] m.flush_order()[k] < m.slots.len()
                && m.slots[m.flush_order()[k]].in_flight,
        forall|j: int, k: int|
            0 <= j < k < m.flush_order().len() ==> #[trigger] m.flush_order()[j]
                != #[trigger] m.flush_order()[k],
{
    lemma_order_upto(m, m.slots.len());
}

impl View for EncodePipeline {
    type V = PipelineModel;

    closed spec fn view(&self) -> PipelineModel {
        PipelineModel {
            slots: Seq::new(self.slots@.len(), |i: int| self.slots@[i]@),
            current: self.current_slot as int,
            next_value: self.next_value as int,
            last_value: self.last_value as int,
        }
    }
}

impl EncodePipeline {
    /// Create a pipeline of [`ENCODE_PIPELINE_DEPTH`] slots whose input images have
    /// been cleared.
    pub fn new() -> (pipeline: Self)
        ensures
            pipeline@ == (PipelineModel {
                slots: Seq::new(
                    ENCODE_PIPELINE_DEPTH as nat,
                    |i: int|
                        SlotModel {
                            layout: ImageLayout::VideoEncodeSrc,
                            in_flight: false,
                            pending: None,
                        },
                ),
                current: 0,
                next_value: 1,
                last_value: 0,
            }),
            pipeline@.well_formed(),
    {
        let mut slots: Vec<EncodeSlot> = Vec::new();
        let mut i: usize = 0;
        while i < ENCODE_PIPELINE_DEPTH
            invariant
                i <= ENCODE_PIPELINE_DEPTH,
                slots@.len() == i,
                forall|j: int|
                    0 <= j < i ==> (#[trigger] slots@[j])@ == (SlotModel {
                        layout: ImageLayout::VideoEncodeSrc,
                        in_flight: false,
                        pending: None,
                    }),
            decreases ENCODE_PIPELINE_DEPTH - i,
        {
            slots.push(
                EncodeSlot {
                    input_image_layout: ImageLayout::VideoEncodeSrc,
                    in_flight: false,
                    pending_metadata: None,
                },
            );
            i = i + 1;
        }
        EncodePipeline { slots, current_slot: 0, next_value: 1, last_value: 0 }
    }

    /// Number of slots.
    pub fn depth(&self) -> (depth: usize)
        ensures
            depth == self@.slots.len(),
    {
        self.slots.len()
    }

    /// The slot the next frame will be encoded into.
    pub fn current(&self) -> (slot: usize)
        ensures
            slot == self@.current,
    {
        self.current_slot
    }

    /// Whether an encode has been submitted to a slot and not yet drained.
    pub fn in_flight(&self, slot: usize) -> (in_flight: bool)
        requires
            slot < self@.slots.len(),
        ensures
            in_flight == self@.slots[slot as int].in_flight,
    {
        self.slots[slot].in_flight
    }

    /// Layout of the current slot's input image.
    pub fn input_image_layout(&self) -> (layout: ImageLayout)
        requires
            self@.well_formed(),
        ensures
            layout == self@.slots[self@.current].layout,
    {
        self.slots[self.current_slot].input_image_layout
    }

    /// Record the layout of the current slot's input image.
    pub fn set_input_image_layout(&mut self, layout: ImageLayout)
        requires
            old(self)@.well_formed(),
        ensures
            final(self)@ == old(self)@.with_current(
                SlotModel { layout, ..old(self)@.slots[old(self)@.current] },
            ),
            final(self)@.well_formed(),
    {
        let ghost m = self@;
        self.slots[self.current_slot].input_image_layout = layout;
        assert(self@.slots =~= m.slots.update(
            m.current,
            SlotModel { layout, ..m.slots[m.current] },
        ));
    }

    /// Record the metadata for the packet that the current slot will produce.
    pub fn set_pending_metadata(&mut self, metadata: SlotPacketMetadata)
        requires
            old(self)@.well_formed(),
        ensures
            final(self)@ == old(self)@.announced(metadata@),
            final(self)@.well_formed(),
    {
        let ghost m = self@;
        let ghost announced = metadata@;
        self.slots[self.current_slot].pending_metadata = Some(metadata);
        assert(self@.slots =~= m.slots.update(
            m.current,
            SlotModel { pending: Some(announced), ..m.slots[m.current] },
        ));
    }

    /// Values of the timeline semaphore for submitting the current slot: the submit
    /// waits on the previous submit's value, if there was one, and signals the next.
    pub fn timeline_values(&self) -> (values: TimelineValues)
        ensures
            values.wait == if self@.last_value > 0 {
                Some(self@.last_value as u64)
            } else {
                None
            },
            values.signal == self@.next_value,
            values == self@.timeline(),
    {
        TimelineValues {
            wait: if self.last_value > 0 {
                Some(self.last_value)
            } else {
                None
            },
            signal: self.next_value,
        }
    }

    /// Whether the timeline semaphore has a value left for another submit.
    pub fn can_submit(&self) -> (can: bool)
        ensures
            can == (self@.next_value < u64::MAX),
    {
        self.next_value < u64::MAX
    }

    /// Note that the current slot has been submitted, with [`Self::timeline_values`].
    pub fn submit_current(&mut self)
        requires
            old(self)@.well_formed(),
            old(self)@.next_value < u64::MAX,
        ensures
            final(self)@ == old(self)@.submitted(),
            final(self)@.well_formed(),
    {
        let ghost m = self@;
        let signal_value: u64 = self.next_value;
        self.last_value = signal_value;
        self.next_value = signal_value + 1;
        self.slots[self.current_slot].in_flight = true;
        assert(self@.slots =~= m.slots.update(
            m.current,
            SlotModel { in_flight: true, ..m.slots[m.current] },
        ));
    }

    /// Advance to the next slot after a frame has been submitted.
    pub fn advance(&mut self)
        requires
            old(self)@.well_formed(),
        ensures
            final(self)@ == old(self)@.advanced(),
            final(self)@.well_formed(),
    {
        self.current_slot = if self.current_slot + 1 < self.slots.len() {
            self.current_slot + 1
        } else {
            0
        };
    }

    /// Drain a slot with what was read from its bitstream buffer, returning its
    /// packet if an encode was in flight.
    ///
    /// `prefix` starts every packet, and `missing` is the message if the slot has no
    /// packet info.
    pub fn drain_slot(
        &mut self,
        slot: usize,
        read: Result<Vec<u8>, PixelForgeError>,
        prefix: &Vec<u8>,
        missing: &str,
    ) -> (packet: Result<Option<EncodedPacket>, PixelForgeError>)
        requires
            slot < old(self)@.slots.len(),
        ensures
            drains(old(self)@, slot as int, read, prefix@, missing@, packet, final(self)@),
    {
        let ghost m = self@;
        if !self.slots[slot].in_flight {
            return Ok(None);
        }
        match read {
            Err(e) => Err(e),
            Ok(bitstream) => {
                self.slots[slot].in_flight = false;
                let metadata = self.slots[slot].pending_metadata.take();
                assert(self@.slots =~= m.drained(slot as int).slots);
                match metadata {
                    None => Err(PixelForgeError::CommandBuffer(missing.to_string())),
                    Some(metadata) => {
                        let mut data: Vec<u8> = prefix.clone();
                        let ghost start = data@;
                        match metadata.header {
                            Some(header) => {
                                let mut header: Vec<u8> = header;
                                data.append(&mut header);
                            },
                            None => {
                                assert(start + Seq::<u8>::empty() =~= start);
                            },
                        }
                        let mut bitstream: Vec<u8> = bitstream;
                        data.append(&mut bitstream);
                        Ok(
                            Some(
                                EncodedPacket {
                                    data,
                                    frame_type: metadata.frame_type,
                                    is_key_frame: metadata.is_key_frame,
                                    pts: metadata.pts,
                                    dts: metadata.dts,
                                },
                            ),
                        )
                    },
                }
            },
        }
    }

    /// The slots that are in flight, in submission order.
    pub fn flush_order(&self) -> (order: Vec<usize>)
        requires
            self@.well_formed(),
        ensures
            order@.len() == self@.flush_order().len(),
            forall|k: int|
                0 <= k < order@.len() ==> #[trigger] order@[k] == self@.flush_order()[k]
                    && order@[k] < self@.slots.len(),
    {
        let n: usize = self.slots.len();
        let mut order: Vec<usize> = Vec::new();
        let mut offset: usize = 0;
        while offset < n
            invariant
                offset <= n,
                n == self@.slots.len(),
                self@.well_formed(),
                order@.len() == present_upto(self@.rotation(), offset as nat).len(),
                forall|k: int|
                    0 <= k < order@.len() ==> #[trigger] order@[k] == present_upto(
                        self@.rotation(),
                        offset as nat,
                    )[k] && order@[k] < n,
            decreases n - offset,
        {
            let mut index: usize = self.current_slot + offset;
            if index >= n {
                index = index - n;
            }
            assert(index as int == rotated(self@.current, offset as int, n as int));
            if self.slots[index].in_flight {
                order.push(index);
            }
            offset = offset + 1;
        }
        order
    }

    /// The slots other than the current one that are in flight.
    pub fn others_in_flight(&self) -> (others: Vec<usize>)
        ensures
            others@.map_values(|i: usize| i as int) == present(self@.others()),
    {
        let n: usize = self.slots.len();
        let mut others: Vec<usize> = Vec::new();
        let mut i: usize = 0;
        while i < n
            invariant
                i <= n,
                n == self@.slots.len(),
                others@.map_values(|j: usize| j as int) =~= present_upto(
                    self@.others(),
                    i as nat,
                ),
            decreases n - i,
        {
            if i != self.current_slot && self.slots[i].in_flight {
                others.push(i);
            }
            i = i + 1;
        }
        others
    }

    /// Drain every in-flight slot, in submission order starting from the current
    /// one. Used to flush remaining packets at end of stream.
    ///
    /// `reads` holds what was read from the bitstream buffers of the slots of
    /// [`Self::flush_order`]. If draining a slot fails, flushing stops there; `moves` says
    /// whether that slot is then the current one.
    pub fn flush(
        &mut self,
        reads: Vec<Result<Vec<u8>, PixelForgeError>>,
        prefix: &Vec<u8>,
        missing: &str,
        moves: bool,
    ) -> (packets: Result<Vec<EncodedPacket>, PixelForgeError>)
        requires
            old(self)@.well_formed(),
            reads@.len() == old(self)@.flush_order().len(),
        ensures
            flushes(old(self)@, reads@, prefix@, missing@, moves, packets, final(self)@),
            final(self)@.well_formed(),
    {
        let ghost m = self@;
        let ghost all = reads@;
        let ghost indices = m.flush_order();
        let order: Vec<usize> = self.flush_order();
        proof {
            lemma_order(m);
        }
        let mut left = reads;
        let mut packets: Vec<EncodedPacket> = Vec::new();
        let mut k: usize = 0;
        while k < order.len()
            invariant
                k <= order@.len(),
                m.well_formed(),
                indices == m.flush_order(),
                order@.len() == indices.len(),
                all.len() == indices.len(),
                left@ =~= all.skip(k as int),
                m == old(self)@,
                all == reads@,
                forall|j: int|
                    0 <= j < order@.len() ==> order@[j] == #[trigger] indices[j] && order@[j]
                        < m.slots.len(),
                forall|j: int, l: int|
                    0 <= j < l < indices.len() ==> #[trigger] indices[j] != #[trigger] indices[l],
                forall|j: int|
                    0 <= j < indices.len() ==> m.slots[#[trigger] indices[j]].in_flight,
                self@ == m.drained_first(indices, k as nat),
                self@.well_formed(),
                self@.slots.len() == m.slots.len(),
                forall|j: int|
                    k <= j < indices.len() ==> self@.slots[#[trigger] indices[j]]
                        == m.slots[indices[j]],
                packets@.len() == k,
                forall|j: int| 0 <= j < k ==> !#[trigger] fails_at(m, all, j),
                forall|j: int|
                    0 <= j < k ==> (#[trigger] packets@[j])@ == packet_of(
                        prefix@,
                        m.slots[indices[j]].pending->Some_0,
                        all[j]->Ok_0@,
                    ),
            decreases order@.len() - k,
        {
            let ghost before = self@;
            let read = left.remove(0);
            assert(read == all[k as int]);
            assert(order@[k as int] == indices[k as int]);
            assert(m.drained_first(indices, (k + 1) as nat) == before.drained(indices[k as int]));
            let packet = self.drain_slot(order[k], read, prefix, missing);
            assert(fails_at(m, all, k as int) == (packet is Err));
            match packet {
                Err(e) => {
                    if moves {
                        self.current_slot = order[k];
                    }
                    return Err(e);
                },
                Ok(None) => {},
                Ok(Some(packet)) => {
                    packets.push(packet);
                },
            }
            k = k + 1;
        }
        Ok(packets)
    }
}

/// A frame that is submitted to a slot that is not in flight joins the frames in
/// flight as the last one.
pub proof fn law_submit_joins_last(m: PipelineModel, metadata: MetadataModel)
    requires
        m.well_formed(),
        m.described(),
        !m.slots[m.current].in_flight,
    ensures
        m.submitted().announced(metadata).advanced().queue() == m.queue().push(metadata),
        m.submitted().announced(metadata).advanced().described(),
{
    let next = m.submitted().announced(metadata).advanced();
    let before = m.pending_rotation();
    assert(next.pending_rotation() =~= before.drop_first().push(Some(metadata)));
    lemma_present_drop_first(before);
    lemma_present_push(before.drop_first(), Some(metadata));
}

/// Draining the current slot takes the frame that was submitted first, if the
/// slot is in flight.
pub proof fn law_drain_takes_first(m: PipelineModel)
    requires
        m.well_formed(),
        m.described(),
        m.slots[m.current].in_flight,
    ensures
        m.queue().len() > 0,
        m.slots[m.current].pending == Some(m.queue()[0]),
        m.drained(m.current).queue() == m.queue().drop_first(),
        m.drained(m.current).described(),
{
    let before = m.pending_rotation();
    let after = m.drained(m.current).pending_rotation();
    lemma_present_drop_first(before);
    lemma_present_drop_first(after);
    assert(after.drop_first() =~= before.drop_first());
}

proof fn lemma_order_follows_queue(m: PipelineModel, n: nat)
    requires
        m.well_formed(),
        m.described(),
        n <= m.slots.len(),
    ensures
        present_upto(m.rotation(), n).len() == present_upto(m.pending_rotation(), n).len(),
        forall|k: int|
            0 <= k < present_upto(m.rotation(), n).len() ==> m.slots[#[trigger] present_upto(
                m.rotation(),
                n,
            )[k]].pending == Some(present_upto(m.pending_rotation(), n)[k]),
    decreases n,
{
    if n > 0 {
        lemma_order_follows_queue(m, (n - 1) as nat);
        let i = rotated(m.current, n - 1, m.slots.len() as int);
        assert(m.slots[i].in_flight ==> m.slots[i].pending is Some);
    }
}

proof fn lemma_drained_first(m: PipelineModel, order: Seq<int>, k: nat)
    requires
        k <= order.len(),
        forall|j: int| 0 <= j < order.len() ==> 0 <= #[trigger] order[j] < m.slots.len(),
    ensures
        m.drained_first(order, k) == (PipelineModel {
            slots: m.drained_first(order, k).slots,
            ..m
        }),
        m.drained_first(order, k).slots.len() == m.slots.len(),
        forall|i: int|
            0 <= i < m.slots.len() && !m.slots[i].in_flight
                ==> !(#[trigger] m.drained_first(order, k).slots[i]).in_flight,
        forall|j: int|
            0 <= j < k ==> !m.drained_first(order, k).slots[#[trigger] order[j]].in_flight,
    decreases k,
{
    if k > 0 {
        lemma_drained_first(m, order, (k - 1) as nat);
    }
}

proof fn lemma_order_covers(m: PipelineModel, n: nat, offset: int)
    requires
        m.well_formed(),
        0 <= offset < n <= m.slots.len(),
        m.rotation()[offset] is Some,
    ensures
        exists|k: int|
            0 <= k < present_upto(m.rotation(), n).len() && #[trigger] present_upto(
                m.rotation(),
                n,
            )[k] == m.rotation()[offset]->Some_0,
    decreases n,
{
    let all = present_upto(m.rotation(), n);
    if offset == n - 1 {
        assert(all[all.len() - 1] == m.rotation()[offset]->Some_0);
    } else {
        lemma_order_covers(m, (n - 1) as nat, offset);
        let before = present_upto(m.rotation(), (n - 1) as nat);
        let k = choose|k: int|
            0 <= k < before.len() && #[trigger] before[k] == m.rotation()[offset]->Some_0;
        assert(all[k] == before[k]);
    }
}

/// Flushing goes through the frames in flight in submission order, and leaves none
/// in flight.
pub proof fn law_flush_takes_all(m: PipelineModel)
    requires
        m.well_formed(),
        m.described(),
    ensures
        m.flush_order().len() == m.queue().len(),
        forall|k: int|
            0 <= k < m.queue().len() ==> m.slots[#[trigger] m.flush_order()[k]].pending == Some(
                m.queue()[k],
            ),
        ({
            let end = m.drained_first(m.flush_order(), m.flush_order().len());
            &&& end.slots.len() == m.slots.len()
            &&& forall|i: int| 0 <= i < end.slots.len() ==> !(#[trigger] end.slots[i]).in_flight
        }),
{
    lemma_order(m);
    lemma_order_follows_queue(m, m.slots.len());
    let order = m.flush_order();
    let end = m.drained_first(order, order.len());
    lemma_drained_first(m, order, order.len());
    assert forall|i: int| 0 <= i < end.slots.len() implies !(#[trigger] end.slots[i]).in_flight by {
        if m.slots[i].in_flight {
            let offset = if i >= m.current {
                i - m.current
            } else {
                i - m.current + m.slots.len()
            };
            assert(m.rotation()[offset] == Some(i));
            lemma_order_covers(m, m.slots.len(), offset);
            let k = choose|k: int| 0 <= k < order.len() && #[trigger] order[k] == i;
            assert(!end.slots[order[k]].in_flight);
        }
    }
}

/// Each submit waits on the value that the submit before it signals, and signals a
/// greater one; only the first has nothing to wait on.
pub proof fn law_submits_are_chained(m: PipelineModel, metadata: MetadataModel)
    requires
        m.well_formed(),
    ensures
        ({
            let next = m.submitted().announced(metadata).advanced();
            &&& next.last_value == m.next_value
            &&& next.last_value > 0
            &&& next.next_value > m.next_value
        }),
{
}

/// Draining a slot frees it and leaves all else as it is, the layout of its input image
/// among it.
pub proof fn law_drain_frees_one_slot(m: PipelineModel, i: int, j: int)
    requires
        0 <= i < m.slots.len(),
        0 <= j < m.slots.len(),
    ensures
        ({
            let next = m.drained(i);
            &&& !next.slots[i].in_flight
            &&& next.slots[i].pending is None
            &&& next.slots[i].layout == m.slots[i].layout
            &&& j != i ==> next.slots[j] == m.slots[j]
            &&& next.slots.len() == m.slots.len()
            &&& next.current == m.current
            &&& next.next_value == m.next_value
            &&& next.last_value == m.last_value
        }),
{
}

/// A packet comes out of a slot exactly if it is in flight, its bitstream was read, and it
/// has the info on its packet. It then has what that says. A slot whose bitstream was not
/// read stays in flight.
pub proof fn law_drained_packet(
    m: PipelineModel,
    i: int,
    read: Result<Vec<u8>, PixelForgeError>,
    prefix: Seq<u8>,
    missing: Seq<char>,
    result: Result<Option<EncodedPacket>, PixelForgeError>,
    next: PipelineModel,
)
    requires
        0 <= i < m.slots.len(),
        drains(m, i, read, prefix, missing, result, next),
    ensures
        (result matches Ok(Some(_))) <==> m.slots[i].in_flight && read is Ok
            && m.slots[i].pending is Some,
        (result matches Ok(None)) <==> !m.slots[i].in_flight,
        next.slots[i].in_flight <==> m.slots[i].in_flight && read is Err,
        result matches Ok(Some(packet)) ==> {
            let metadata = m.slots[i].pending->Some_0;
            let head = match metadata.header {
                Some(header) => prefix + header,
                None => prefix,
            };
            &&& packet.data@ =~= head + read->Ok_0@
            &&& packet.frame_type == metadata.frame_type
            &&& packet.is_key_frame == metadata.is_key_frame
            &&& packet.pts == metadata.pts
            &&& packet.dts == metadata.dts
        },
{
    assert(prefix + Seq::<u8>::empty() =~= prefix);
}

proof fn lemma_others_upto(m: PipelineModel, n: nat, i: int)
    requires
        n <= m.slots.len(),
        0 <= i < m.slots.len(),
    ensures
        ({
            let all = present_upto(m.others(), n);
            &&& all.contains(i) <==> i < n && i != m.current && m.slots[i].in_flight
            &&& forall|k: int| 0 <= k < all.len() ==> 0 <= #[trigger] all[k] < n
            &&& forall|j: int, k: int|
                0 <= j < k < all.len() ==> #[trigger] all[j] < #[trigger] all[k]
        }),
    decreases n,
{
    let all = present_upto(m.others(), n);
    if n > 0 {
        lemma_others_upto(m, (n - 1) as nat, i);
        let before = present_upto(m.others(), (n - 1) as nat);
        if before.contains(i) {
            let k = choose|k: int| 0 <= k < before.len() && before[k] == i;
            assert(all[k] == i);
        }
        if m.others()[n - 1] is Some {
            assert(all[all.len() - 1] == n - 1);
        }
    }
}

/// The other slots in flight are those that are in flight but for the current one, each
/// once and by ascending index.
pub proof fn law_others_in_flight(m: PipelineModel, i: int)
    requires
        0 <= i < m.slots.len(),
    ensures
        present(m.others()).contains(i) <==> i != m.current && m.slots[i].in_flight,
        forall|j: int, k: int|
            0 <= j < k < present(m.others()).len() ==> #[trigger] present(m.others())[j]
                < #[trigger] present(m.others())[k],
{
    lemma_others_upto(m, m.slots.len(), i);
}

/// The slots that are in flight are flushed in rotation from the current one on.
pub proof fn law_flush_starts_with_the_current_slot(m: PipelineModel)
    requires
        m.well_formed(),
        m.slots[m.current].in_flight,
    ensures
        m.flush_order().len() > 0,
        m.flush_order()[0] == m.current,
{
    lemma_present_drop_first(m.rotation());
}

/// A flush that fails stops at the first slot that it cannot drain. The slots before it are
/// free; so is it if only the info on its packet was missing. It is the current one exactly
/// if flushing moves there.
pub proof fn law_failed_flush_stops(
    m: PipelineModel,
    reads: Seq<Result<Vec<u8>, PixelForgeError>>,
    prefix: Seq<u8>,
    missing: Seq<char>,
    moves: bool,
    error: PixelForgeError,
    next: PipelineModel,
) -> (k: int)
    requires
        m.well_formed(),
        reads.len() == m.flush_order().len(),
        flushes(m, reads, prefix, missing, moves, Err(error), next),
    ensures
        0 <= k < m.flush_order().len(),
        forall|j: int|
            0 <= j < k ==> (#[trigger] reads[j]) is Ok && !next.slots[m.flush_order()[j]].in_flight,
        reads[k] is Err || m.slots[m.flush_order()[k]].pending is None,
        next.slots[m.flush_order()[k]].in_flight <==> reads[k] is Err,
        next.current == if moves {
            m.flush_order()[k]
        } else {
            m.current
        },
{
    lemma_order(m);
    let order = m.flush_order();
    let k = choose|k: int|
        {
            &&& 0 <= k < order.len()
            &&& #[trigger] fails_at(m, reads, k)
            &&& forall|j: int| 0 <= j < k ==> !#[trigger] fails_at(m, reads, j)
            &&& match reads[k] {
                Err(cause) => error == cause && next == m.drained_first(order, k as nat).stopped_at(
                    order[k],
                    moves,
                ),
                Ok(bitstream) => error.is_command_buffer(missing) && next == m.drained_first(
                    order,
                    (k + 1) as nat,
                ).stopped_at(order[k], moves),
            }
        };
    lemma_drained_first(m, order, k as nat);
    lemma_drained_first(m, order, (k + 1) as nat);
    lemma_left_alone(m, order, k as nat, order[k]);
    assert forall|j: int| 0 <= j < k implies (#[trigger] reads[j]) is Ok
        && !next.slots[order[j]].in_flight by {
        assert(!fails_at(m, reads, j));
        assert(!m.drained_first(order, k as nat).slots[order[j]].in_flight);
        assert(!m.drained_first(order, (k + 1) as nat).slots[order[j]].in_flight);
    }
    assert(!m.drained_first(order, (k + 1) as nat).slots[order[k]].in_flight);
    k
}

proof fn lemma_left_alone(m: PipelineModel, order: Seq<int>, k: nat, i: int)
    requires
        k <= order.len(),
        0 <= i < m.slots.len(),
        forall|j: int| 0 <= j < order.len() ==> 0 <= #[trigger] order[j] < m.slots.len(),
        forall|j: int| 0 <= j < k ==> #[trigger] order[j] != i,
    ensures
        m.drained_first(order, k).slots.len() == m.slots.len(),
        m.drained_first(order, k).slots[i] == m.slots[i],
    decreases k,
{
    if k > 0 {
        lemma_left_alone(m, order, (k - 1) as nat, i);
    }
}

/// A submit waits on what the submit before it signals, so that frames are encoded one after
/// the other; the first one waits on nothing.
pub proof fn law_submit_waits_on_the_one_before(m: PipelineModel, metadata: MetadataModel)
    requires
        m.well_formed(),
        m.next_value < u64::MAX,
    ensures
        ({
            let next = m.submitted().announced(metadata).advanced();
            &&& next.timeline().wait == Some(m.timeline().signal)
            &&& next.timeline().signal == m.timeline().signal + 1
            &&& m.timeline().signal == 1 ==> m.timeline().wait is None
        }),
{
}

} // verus!
