//! What holds of encoding from one frame to the next.

use super::any::{frame_finished, needs_header, picture_started, recolored, EncoderModel};
use super::av1::frame::{Av1FramePlan, Av1FrameType, Av1Prediction, Av1Slot};
use super::av1::{is_key, temporal_delimiter, Av1Model};
use super::dpb::select::{present, present_upto};
use super::gop::{wrapped_poc, GopFrameType};
use super::h264::frame::H264FramePlan;
use super::h264::H264Model;
use super::h265::frame::{coded_step, poc_distance, poc_step, H265FramePlan, POC_RANGE};
use super::h265::H265Model;
use super::pipeline::{
    drains, flushes, law_drain_takes_first, law_submit_joins_last, packet_of, rotated,
    MetadataModel, PipelineModel, ENCODE_PIPELINE_DEPTH,
};
use super::references::{law_newest_is_remembered, law_next_slot_is_free};
use super::state::{new_state, StartedFrame, StateModel};
use super::{ColorDescription, EncodeConfig, EncodedPacket, PacketModel};
use crate::encoder::session::SessionPlan;
use crate::error::PixelForgeError;
use vstd::prelude::*;

verus! {

/// The pipeline with the current slot drained, if it is in flight.
pub open spec fn current_drained(m: PipelineModel) -> PipelineModel {
    if m.slots[m.current].in_flight {
        m.drained(m.current)
    } else {
        m
    }
}

/// The state after the next frame has been submitted without failure. The current slot
/// is now the one that the frame after it will take.
pub open spec fn frame_submitted(
    m: StateModel,
    is_key_frame: bool,
    header: Option<Seq<u8>>,
    next_dpb_slot: u8,
) -> StateModel {
    let started = m.started().filled();
    started.finished(started.metadata(m.coming(), is_key_frame, header), next_dpb_slot)
}

/// The state after the next frame has been encoded without failure: it is submitted, and
/// then the slot that the frame after it will take is drained.
pub open spec fn frame_encoded(
    m: StateModel,
    is_key_frame: bool,
    header: Option<Seq<u8>>,
    next_dpb_slot: u8,
) -> StateModel {
    let submitted = frame_submitted(m, is_key_frame, header, next_dpb_slot);
    StateModel { pipeline: current_drained(submitted.pipeline), ..submitted }
}

/// The frames in flight are the last ones that were started, in display order, and
/// none has been left out.
pub open spec fn in_display_order(m: StateModel) -> bool {
    let queue = m.pipeline.queue();
    &&& m.pipeline.described()
    &&& m.encode_frame_num == m.input_frame_num
    &&& queue.len() <= m.input_frame_num
    &&& forall|k: int|
        0 <= k < queue.len() ==> (#[trigger] queue[k]).pts == m.input_frame_num - queue.len() + k
            && queue[k].dts == queue[k].pts
}

/// While frames are encoded without failure, packets come out once for each frame,
/// in display order: a packet that comes out is that of the oldest frame in flight,
/// and the frames in flight stay those that come next. The slot of the next frame is
/// free. Decode and presentation timestamps agree.
pub proof fn law_packets_in_display_order(
    m: StateModel,
    is_key_frame: bool,
    header: Option<Seq<u8>>,
    next_dpb_slot: u8,
)
    requires
        m.well_formed(),
        m.can_count(),
        in_display_order(m),
        !m.pipeline.slots[m.pipeline.current].in_flight,
    ensures
        ({
            let submitted = frame_submitted(m, is_key_frame, header, next_dpb_slot);
            let next = frame_encoded(m, is_key_frame, header, next_dpb_slot);
            let drained = submitted.pipeline.slots[submitted.pipeline.current];
            let waiting = m.pipeline.queue().len() + 1;
            &&& in_display_order(next)
            &&& !next.pipeline.slots[next.pipeline.current].in_flight
            &&& drained.in_flight ==> {
                &&& drained.pending is Some
                &&& drained.pending->Some_0.pts == next.input_frame_num - waiting
                &&& drained.pending->Some_0.dts == drained.pending->Some_0.pts
            }
            &&& next.pipeline.queue().len() == if drained.in_flight {
                waiting - 1
            } else {
                waiting as int
            }
        }),
{
    let started = m.started().filled();
    let metadata = started.metadata(m.coming(), is_key_frame, header);
    let submitted = frame_submitted(m, is_key_frame, header, next_dpb_slot);
    let next = frame_encoded(m, is_key_frame, header, next_dpb_slot);
    assert(started.pipeline.pending_rotation() =~= m.pipeline.pending_rotation());
    assert(started.pipeline.described());
    law_submit_joins_last(started.pipeline, metadata);
    let before = m.pipeline.queue();
    let middle = submitted.pipeline.queue();
    assert(middle =~= before.push(metadata));
    assert forall|k: int| 0 <= k < middle.len() implies (#[trigger] middle[k]).pts
        == next.input_frame_num - middle.len() + k && middle[k].dts == middle[k].pts by {
        if k < before.len() {
            assert(middle[k] == before[k]);
        }
    }
    if submitted.pipeline.slots[submitted.pipeline.current].in_flight {
        law_drain_takes_first(submitted.pipeline);
        let after = next.pipeline.queue();
        assert forall|k: int| 0 <= k < after.len() implies (#[trigger] after[k]).pts
            == next.input_frame_num - after.len() + k && after[k].dts == after[k].pts by {
            assert(after[k] == middle[k + 1]);
        }
    }
}

/// A new encoder has no frame in flight, so its packets come out in display order.
pub proof fn law_new_encoder_is_in_order(m: StateModel, config: EncodeConfig, session: SessionPlan)
    requires
        new_state(m, config, session),
    ensures
        in_display_order(m),
        one_behind(m),
{
    let items = m.pipeline.pending_rotation();
    lemma_none_present(items, items.len());
}

proof fn lemma_none_present(items: Seq<Option<MetadataModel>>, n: nat)
    requires
        n <= items.len(),
        forall|i: int| 0 <= i < items.len() ==> #[trigger] items[i] is None,
    ensures
        present_upto(items, n).len() == 0,
    decreases n,
{
    if n > 0 {
        lemma_none_present(items, (n - 1) as nat);
    }
}

/// The slot of the next frame is free, and the other slot holds the last frame, if there
/// was one.
pub open spec fn one_behind(m: StateModel) -> bool {
    let other = m.pipeline.slots[rotated(m.pipeline.current, 1, 2)];
    &&& m.pipeline.well_formed()
    &&& m.pipeline.slots.len() == ENCODE_PIPELINE_DEPTH
    &&& 0 <= m.input_frame_num
    &&& m.encode_frame_num == m.input_frame_num
    &&& !m.pipeline.slots[m.pipeline.current].in_flight
    &&& other.in_flight == (m.input_frame_num > 0)
    &&& m.input_frame_num > 0 ==> {
        &&& other.pending is Some
        &&& other.pending->Some_0.pts == m.input_frame_num - 1
        &&& other.pending->Some_0.dts == m.input_frame_num - 1
    }
}

/// The first frame of a new encoder gives no packet, as the pipeline is still filling.
/// Each frame after it gives one: that of the frame before.
pub proof fn law_pipeline_fills_then_delivers(
    m: StateModel,
    is_key_frame: bool,
    header: Option<Seq<u8>>,
    next_dpb_slot: u8,
)
    requires
        one_behind(m),
        m.can_count(),
    ensures
        ({
            let submitted = frame_submitted(m, is_key_frame, header, next_dpb_slot);
            let drained = submitted.pipeline.slots[submitted.pipeline.current];
            &&& one_behind(frame_encoded(m, is_key_frame, header, next_dpb_slot))
            &&& drained.in_flight == (m.input_frame_num > 0)
            &&& m.input_frame_num > 0 ==> drained.pending is Some
                && drained.pending->Some_0.pts == m.input_frame_num - 1
        }),
{
}

/// One call that encodes a frame: what it goes through, and what comes of it.
pub struct EncodeCall {
    /// Whether the source image was uploaded to the input image; it may have been the
    /// input image itself.
    pub uploaded: bool,
    /// The encoder after the start of the picture.
    pub started: EncoderModel,
    /// The header, if one was retrieved.
    pub header: Option<Seq<u8>>,
    /// The encoder after the frame was finished.
    pub finished: EncoderModel,
    /// What was read from the slot that is drained.
    pub read: Result<Vec<u8>, PixelForgeError>,
    /// The packet, if there is one.
    pub packet: Option<EncodedPacket>,
    /// The encoder after the call.
    pub next: EncoderModel,
}

impl EncodeCall {
    /// The call starts at `m` and none of its steps fails.
    pub open spec fn succeeds(self, m: EncoderModel) -> bool {
        let frame = m.state().coming();
        let begun = if self.uploaded {
            m.state().started().filled()
        } else {
            m.state().started()
        };
        let finished = self.finished.state();
        let pipeline = self.next.state().pipeline;
        &&& picture_started(m.with_state(begun), frame, self.started)
        &&& frame_finished(self.started, frame, self.header, self.finished)
        &&& drains(
            finished.pipeline,
            finished.pipeline.current,
            self.read,
            m.prefix(),
            m.missing(),
            Ok(self.packet),
            pipeline,
        )
        &&& self.next == self.finished.with_state(StateModel { pipeline, ..finished })
    }
}

/// The encoder before call `k` of a run.
pub open spec fn before_call(first: EncoderModel, calls: Seq<EncodeCall>, k: int) -> EncoderModel {
    if k <= 0 {
        first
    } else {
        calls[k - 1].next
    }
}

/// Every call of a run succeeds.
pub open spec fn run_succeeds(first: EncoderModel, calls: Seq<EncodeCall>) -> bool {
    forall|k: int|
        0 <= k < calls.len() ==> (#[trigger] calls[k]).succeeds(before_call(first, calls, k))
}

/// The packets that the calls of a run return.
pub open spec fn returned(calls: Seq<EncodeCall>) -> Seq<PacketModel> {
    present(packets_or_none(calls))
}

/// What each call of a run returns: a packet or none.
pub open spec fn packets_or_none(calls: Seq<EncodeCall>) -> Seq<Option<PacketModel>> {
    Seq::new(
        calls.len(),
        |k: int|
            match calls[k].packet {
                Some(packet) => Some(packet@),
                None => None,
            },
    )
}

/// The packets of a `Vec`.
pub open spec fn packet_models(packets: Seq<EncodedPacket>) -> Seq<PacketModel> {
    Seq::new(packets.len(), |k: int| packets[k]@)
}

proof fn lemma_call(m: EncoderModel, call: EncodeCall)
    requires
        one_behind(m.state()),
        m.state().input_frame_num <= u64::MAX,
        call.succeeds(m),
    ensures
        one_behind(call.next.state()),
        call.next.state().input_frame_num == m.state().input_frame_num + 1,
        call.packet is Some <==> m.state().input_frame_num > 0,
        call.packet is Some ==> call.packet->Some_0@.pts == m.state().input_frame_num - 1
            && call.packet->Some_0@.dts == m.state().input_frame_num - 1,
{
    let begun = if call.uploaded {
        m.state().started().filled()
    } else {
        m.state().started()
    };
    let c = m.state().pipeline.current;
    let started = call.started.state();
    assert(started.pipeline == begun.pipeline);
    assert(started.input_frame_num == begun.input_frame_num);
    assert(started.encode_frame_num == begun.encode_frame_num);
    let finished = call.finished.state();
    assert(finished.pipeline.current == rotated(c, 1, 2));
    assert(finished.pipeline.slots[c].in_flight);
    assert(finished.pipeline.slots[c].pending is Some);
    assert(finished.pipeline.slots[rotated(c, 1, 2)] == m.state().pipeline.slots[rotated(c, 1, 2)]);
}

proof fn lemma_run(first: EncoderModel, calls: Seq<EncodeCall>, k: int)
    requires
        one_behind(first.state()),
        first.state().input_frame_num == 0,
        run_succeeds(first, calls),
        0 <= k <= calls.len() <= u64::MAX,
    ensures
        one_behind(before_call(first, calls, k).state()),
        before_call(first, calls, k).state().input_frame_num == k,
    decreases k,
{
    if k > 0 {
        lemma_run(first, calls, k - 1);
        assert(calls[k - 1].succeeds(before_call(first, calls, k - 1)));
        lemma_call(before_call(first, calls, k - 1), calls[k - 1]);
    }
}

/// On a new encoder of any codec on which every call succeeds, the first call returns
/// no packet, and each call after it exactly one: that of the frame of the call before.
pub proof fn law_each_call_returns_the_frame_before(
    first: EncoderModel,
    config: EncodeConfig,
    session: SessionPlan,
    calls: Seq<EncodeCall>,
    k: int,
)
    requires
        new_state(first.state(), config, session),
        run_succeeds(first, calls),
        0 <= k < calls.len() <= u64::MAX,
    ensures
        match calls[k].packet {
            None => k == 0,
            Some(packet) => k > 0 && packet@.pts == k - 1 && packet@.dts == k - 1,
        },
{
    law_new_encoder_is_in_order(first.state(), config, session);
    lemma_run(first, calls, k);
    assert(calls[k].succeeds(before_call(first, calls, k)));
    lemma_call(before_call(first, calls, k), calls[k]);
}

proof fn lemma_returned(
    first: EncoderModel,
    config: EncodeConfig,
    session: SessionPlan,
    calls: Seq<EncodeCall>,
    n: nat,
)
    requires
        new_state(first.state(), config, session),
        run_succeeds(first, calls),
        n <= calls.len() <= u64::MAX,
    ensures
        ({
            let out = present_upto(packets_or_none(calls), n);
            &&& out.len() == if n == 0 {
                0int
            } else {
                n - 1
            }
            &&& forall|i: int|
                0 <= i < out.len() ==> (#[trigger] out[i]).pts == i && out[i].dts == i
        }),
    decreases n,
{
    if n > 0 {
        lemma_returned(first, config, session, calls, (n - 1) as nat);
        law_each_call_returns_the_frame_before(first, config, session, calls, n - 1);
    }
}

proof fn lemma_idle(m: PipelineModel)
    requires
        m.slots.len() == 2,
        0 <= m.current < 2,
        !m.slots[0].in_flight,
        !m.slots[1].in_flight,
    ensures
        m.flush_order().len() == 0,
{
    reveal_with_fuel(present_upto, 3);
}

proof fn lemma_last_flush(
    m: StateModel,
    reads: Seq<Result<Vec<u8>, PixelForgeError>>,
    prefix: Seq<u8>,
    missing: Seq<char>,
    moves: bool,
    flushed: Vec<EncodedPacket>,
    end: PipelineModel,
)
    requires
        one_behind(m),
        flushes(m.pipeline, reads, prefix, missing, moves, Ok(flushed), end),
    ensures
        flushed@.len() == if m.input_frame_num > 0 {
            1int
        } else {
            0int
        },
        m.input_frame_num > 0 ==> flushed@[0]@.pts == m.input_frame_num - 1 && flushed@[0]@.dts
            == m.input_frame_num - 1,
        end.flush_order().len() == 0,
{
    let c = m.pipeline.current;
    let other = rotated(c, 1, 2);
    let order = m.pipeline.flush_order();
    assert(order.len() == (if m.input_frame_num > 0 {
        1int
    } else {
        0int
    }) && (m.input_frame_num > 0 ==> order[0] == other)) by {
        let items = m.pipeline.rotation();
        assert(items.len() == 2);
        assert(items[0] is None);
        assert(items[1] == if m.input_frame_num > 0 {
            Some(other)
        } else {
            None
        });
        reveal_with_fuel(present_upto, 3);
    }
    if m.input_frame_num > 0 {
        assert(flushed@[0]@ == packet_of(
            prefix,
            m.pipeline.slots[order[0]].pending->Some_0,
            reads[0]->Ok_0@,
        ));
        assert(end == m.pipeline.drained(other)) by {
            reveal_with_fuel(PipelineModel::drained_first, 2);
        }
    } else {
        assert(end == m.pipeline);
    }
    lemma_idle(end);
}

/// On a new encoder of any codec, after `n` frames that are encoded without failure and
/// a flush that succeeds, the packets of the calls followed by those of the flush are
/// those of the frames `0` to `n - 1`: every frame comes out once, in order. Nothing is
/// then left for another flush.
pub proof fn law_every_frame_comes_out_once(
    first: EncoderModel,
    config: EncodeConfig,
    session: SessionPlan,
    calls: Seq<EncodeCall>,
    reads: Seq<Result<Vec<u8>, PixelForgeError>>,
    flushed: Vec<EncodedPacket>,
    end: PipelineModel,
    again: Result<Vec<EncodedPacket>, PixelForgeError>,
    after: PipelineModel,
)
    requires
        new_state(first.state(), config, session),
        run_succeeds(first, calls),
        calls.len() <= u64::MAX,
        flushes(
            before_call(first, calls, calls.len() as int).state().pipeline,
            reads,
            first.prefix(),
            first.missing(),
            first.moves(),
            Ok(flushed),
            end,
        ),
        flushes(
            end,
            Seq::empty(),
            first.prefix(),
            first.missing(),
            first.moves(),
            again,
            after,
        ),
    ensures
        ({
            let out = returned(calls) + packet_models(flushed@);
            &&& out.len() == calls.len()
            &&& forall|i: int|
                0 <= i < out.len() ==> (#[trigger] out[i]).pts == i && out[i].dts == i
        }),
        again is Ok,
        again->Ok_0@.len() == 0,
{
    let n = calls.len();
    let m = before_call(first, calls, n as int).state();
    law_new_encoder_is_in_order(first.state(), config, session);
    lemma_run(first, calls, n as int);
    lemma_returned(first, config, session, calls, n);
    lemma_last_flush(m, reads, first.prefix(), first.missing(), first.moves(), flushed, end);
    let head = returned(calls);
    let out = head + packet_models(flushed@);
    assert forall|i: int| 0 <= i < out.len() implies (#[trigger] out[i]).pts == i && out[i].dts
        == i by {
        if i < head.len() {
            assert(out[i] == head[i]);
        } else {
            assert(out[i] == flushed@[i - head.len()]@);
        }
    }
}

/// After a request, or a new color description, the next frame is an IDR frame.
pub proof fn law_request_brings_idr(m: StateModel, desc: ColorDescription)
    requires
        m.well_formed(),
    ensures
        m.requested().coming().position.frame_type == GopFrameType::Idr,
        m.recolored(desc).coming().position.frame_type == GopFrameType::Idr,
        super::state::color_of(m.recolored(desc).config) == desc,
{
}

/// After a new color description the next frame is an IDR frame for which the header is
/// retrieved anew, and its packet holds that header.
pub proof fn law_new_color_description_comes_with_the_next_frame(
    m: EncoderModel,
    desc: ColorDescription,
    header: Seq<u8>,
    started: EncoderModel,
    next: EncoderModel,
)
    requires
        m.well_formed(),
        ({
            let state = recolored(m, desc).state();
            let begun = recolored(m, desc).with_state(state.started().filled());
            &&& picture_started(begun, state.coming(), started)
            &&& frame_finished(started, state.coming(), Some(header), next)
        }),
    ensures
        ({
            let state = recolored(m, desc).state();
            let begun = recolored(m, desc).with_state(state.started().filled());
            let pending = next.state().pipeline.slots[state.pipeline.current].pending;
            &&& state.coming().position.frame_type == GopFrameType::Idr
            &&& needs_header(begun, state.coming())
            &&& pending is Some
            &&& pending->0.is_key_frame
            &&& pending->0.header == Some(header)
        }),
{
    let state = recolored(m, desc).state();
    assert(0 <= state.pipeline.current < state.pipeline.slots.len());
}

/// The frames of a stream are IDR and P frames whose picture order counts lie in
/// their range.
pub proof fn law_started_frames(m: StateModel)
    requires
        m.well_formed(),
        m.gop.max_poc_lsb == 256,
    ensures
        ({
            let position = m.coming().position;
            &&& position.frame_type == GopFrameType::Idr || position.frame_type == GopFrameType::P
            &&& position.is_reference
            &&& 0 <= position.pic_order_cnt < POC_RANGE
        }),
{
}

/// The packet of an IDR or key frame holds the header in front of its bitstream,
/// for AV1 behind the Temporal Delimiter; that of any other frame holds none.
pub proof fn law_key_packets_carry_the_header(
    h264: H264Model,
    h265: H265Model,
    av1: Av1Model,
    frame: StartedFrame,
    header: Seq<u8>,
    bitstream: Seq<u8>,
)
    requires
        frame.position.frame_type == GopFrameType::Idr || frame.position.frame_type
            == GopFrameType::P,
        h265.header == Some(header),
        av1.header == Some(header),
    ensures
        ({
            let idr = frame.position.frame_type == GopFrameType::Idr;
            let h264_packet = packet_of(
                Seq::empty(),
                h264.state.metadata(
                    frame,
                    idr,
                    if idr {
                        Some(header)
                    } else {
                        None
                    },
                ),
                bitstream,
            );
            let h265_packet = packet_of(
                Seq::empty(),
                h265.state.metadata(frame, idr, h265.header_for(frame)),
                bitstream,
            );
            let av1_packet = packet_of(
                temporal_delimiter(),
                av1.state.metadata(frame, idr, av1.header_for(frame)),
                bitstream,
            );
            &&& h264_packet.data == if idr {
                header + bitstream
            } else {
                bitstream
            }
            &&& h265_packet.data == if idr {
                header + bitstream
            } else {
                bitstream
            }
            &&& av1_packet.data == if idr {
                temporal_delimiter() + header + bitstream
            } else {
                temporal_delimiter() + bitstream
            }
        }),
{
    assert(Seq::<u8>::empty() + header =~= header);
    assert(Seq::<u8>::empty() + Seq::<u8>::empty() + bitstream =~= bitstream);
    assert(temporal_delimiter() + Seq::<u8>::empty() =~= temporal_delimiter());
}

/// An H.264 IDR frame uses no reference.
pub proof fn law_h264_idr_is_self_contained(
    m: H264Model,
    frame: StartedFrame,
    plan: H264FramePlan,
)
    requires
        frame.position.frame_type == GopFrameType::Idr,
        plan.plans(m.state, m.picture_started(frame).context(), frame),
    ensures
        plan.references@.len() == 0,
        plan.lists is None,
        plan.begin_slots@ == seq![-1i32],
        plan.picture.frame_num == 0,
        plan.picture.idr_pic_id != m.idr_pic_id,
        plan.barriers@.len() == 1,
{
    assert(plan.begin_slots@ =~= seq![-1i32]);
}

/// An H.265 IDR frame uses no reference, and its reference picture set is empty.
pub proof fn law_h265_idr_is_self_contained(
    m: H265Model,
    frame: StartedFrame,
    next: H265Model,
    plan: H265FramePlan,
)
    requires
        frame.position.frame_type == GopFrameType::Idr,
        super::h265::picture_started(m, frame, next),
        plan.plans(next.state, next.context(), frame),
    ensures
        plan.references@.len() == 0,
        plan.lists is None,
        plan.rps.is_empty(),
        plan.begin_slots@ == seq![-1i32],
        plan.barriers@.len() == 1,
{
    assert(plan.begin_slots@ =~= seq![-1i32]);
}

/// An AV1 key frame uses no reference, and refreshes every reference slot.
pub proof fn law_av1_key_frame_is_self_contained(
    m: Av1Model,
    frame: StartedFrame,
    plan: Av1FramePlan,
)
    requires
        is_key(frame),
        plan.plans(m.picture_started(frame).state, m.picture_started(frame).context(frame)),
    ensures
        plan.reference is None,
        plan.prediction == Av1Prediction::IntraOnly,
        plan.picture.order_hint == 0,
        plan.picture.frame_presentation_time == 0,
        plan.picture.mapping.refresh_frame_flags == 0xff,
        plan.begin_slots@ == seq![-1i32],
        plan.barriers@.len() == 1,
{
    assert(plan.begin_slots@ =~= seq![-1i32]);
}

/// The picture in a DPB slot is the only reference of an AV1 stream, and the next frame
/// does not overwrite it.
pub open spec fn av1_refers_to(m: Av1Model, dpb_slot: u8, order_hint: u32) -> bool {
    &&& m.references.len() == 1
    &&& m.references[0].dpb_slot == dpb_slot
    &&& m.references[0].order_hint == order_hint
    &&& m.state.current_dpb_slot != dpb_slot
}

/// While frames are encoded without failure, every AV1 frame but the key frames is
/// predicted from the last key frame alone, whose picture stays in its slot until the
/// next key frame. That takes a second DPB slot.
pub proof fn law_av1_frames_refer_to_the_last_key_frame(
    m: Av1Model,
    frame: StartedFrame,
    plan: Av1FramePlan,
    key_slot: u8,
)
    requires
        m.well_formed(),
        m.state.session.dpb_slot_count >= 2,
        !is_key(frame) ==> av1_refers_to(m, key_slot, 0),
        is_key(frame) ==> key_slot == m.state.current_dpb_slot,
        plan.plans(m.picture_started(frame).state, m.picture_started(frame).context(frame)),
    ensures
        av1_refers_to(m.picture_started(frame).finished(frame), key_slot, 0),
        !is_key(frame) ==> {
            &&& plan.reference == Some(
                Av1Slot { dpb_slot: key_slot, frame_type: Av1FrameType::Key, order_hint: 0 },
            )
            &&& plan.setup.dpb_slot != key_slot
            &&& plan.prediction == Av1Prediction::SingleReference
        },
{
    if is_key(frame) {
        law_next_slot_is_free(
            seq![m.state.current_dpb_slot],
            m.state.session.dpb_slot_count as u8,
            m.state.current_dpb_slot,
        );
        assert(seq![m.state.current_dpb_slot].contains(m.state.current_dpb_slot)) by {
            assert(seq![m.state.current_dpb_slot][0] == m.state.current_dpb_slot);
        }
    }
}

/// The references of an H.264 stream are the frames before the one at this index of
/// its GOP, as many as may be active, with the most recent first.
pub open spec fn h264_references_follow(m: H264Model, index: int) -> bool {
    &&& m.references.len() == if index < m.state.session.active_reference_count {
        index
    } else {
        m.state.session.active_reference_count as int
    }
    &&& m.frame_num == index % 256
    &&& forall|i: int|
        0 <= i < m.references.len() ==> (#[trigger] m.references[i]).poc == wrapped_poc(
            index - 1 - i,
            256,
        ) && m.references[i].frame_num == (index - 1 - i) % 256
}

/// The references of an H.265 stream are the frames before the one at this index of
/// its GOP, as many as may be active, with the most recent first.
pub open spec fn h265_references_follow(m: H265Model, index: int) -> bool {
    &&& m.references.len() == if index < m.state.session.active_reference_count {
        index
    } else {
        m.state.session.active_reference_count as int
    }
    &&& forall|i: int|
        0 <= i < m.references.len() ==> (#[trigger] m.references[i]).poc == wrapped_poc(
            index - 1 - i,
            256,
        )
}

/// While frames are encoded without failure, the references of an H.264 stream are
/// the most recent frames of the GOP.
pub proof fn law_h264_references_are_recent(
    m: H264Model,
    frame: StartedFrame,
    index: int,
    header: Option<Seq<u8>>,
)
    requires
        index >= 0,
        frame.position.is_reference,
        frame.position.frame_type != GopFrameType::B,
        frame.position.pic_order_cnt == wrapped_poc(index, 256),
        index == 0 <==> frame.position.frame_type == GopFrameType::Idr,
        index > 0 ==> h264_references_follow(m, index),
    ensures
        h264_references_follow(m.picture_started(frame), index),
        h264_references_follow(m.picture_started(frame).finished(frame, header), index + 1),
{
    let started = m.picture_started(frame);
    let active = started.state.session.active_reference_count as nat;
    let newest = super::h264::ReferenceInfo {
        dpb_slot: started.state.current_dpb_slot,
        frame_num: started.frame_num,
        poc: frame.position.pic_order_cnt,
    };
    law_newest_is_remembered(started.references, newest, active);
    let next = started.finished(frame, header);
    assert forall|i: int| 0 <= i < next.references.len() implies (
    #[trigger] next.references[i]).poc == wrapped_poc(index - i, 256)
        && next.references[i].frame_num == (index - i) % 256 by {
        if i > 0 {
            assert(next.references[i] == started.references[i - 1]);
        }
    }
}

/// While frames are encoded without failure, the references of an H.265 stream are
/// the most recent frames of the GOP.
pub proof fn law_h265_references_are_recent(
    m: H265Model,
    frame: StartedFrame,
    index: int,
    started: H265Model,
    next: H265Model,
)
    requires
        index >= 0,
        frame.position.is_reference,
        frame.position.pic_order_cnt == wrapped_poc(index, 256),
        index == 0 <==> frame.position.frame_type == GopFrameType::Idr,
        index > 0 ==> h265_references_follow(m, index),
        super::h265::picture_started(m, frame, started),
        super::h265::frame_finished(started, frame, next),
    ensures
        h265_references_follow(started, index),
        h265_references_follow(next, index + 1),
{
    let active = started.state.session.active_reference_count as nat;
    let newest = super::h265::ReferenceInfo {
        dpb_slot: started.state.current_dpb_slot,
        poc: frame.position.pic_order_cnt,
    };
    law_newest_is_remembered(started.references, newest, active);
    assert forall|i: int| 0 <= i < next.references.len() implies (
    #[trigger] next.references[i]).poc == wrapped_poc(index - i, 256) by {
        if i > 0 {
            assert(next.references[i] == started.references[i - 1]);
        }
    }
}

/// The reference picture set of an H.265 frame says that its references lie two
/// picture order counts apart each, also where the counts have started over.
pub proof fn law_h265_references_are_two_apart(
    m: H265Model,
    poc: i32,
    index: int,
    i: int,
)
    requires
        index >= 0,
        h265_references_follow(m, index),
        poc == wrapped_poc(index, 256),
        0 <= i < m.references.len(),
        i < 15,
    ensures
        poc_distance(m.references[i].poc, poc) == -2 * (i + 1),
        poc_step(m.references, poc, i) == 2,
        coded_step(poc_step(m.references, poc, i)) == 1,
{
    lemma_distance(m.references[i].poc, poc, index, i);
    if i > 0 {
        lemma_distance(m.references[i - 1].poc, poc, index, i - 1);
    }
}

proof fn lemma_distance(reference: i32, poc: i32, index: int, i: int)
    requires
        0 <= i < 15,
        index - 1 - i >= 0,
        reference == wrapped_poc(index - 1 - i, 256),
        poc == wrapped_poc(index, 256),
    ensures
        poc_distance(reference, poc) == -2 * (i + 1),
{
}

} // verus!
