//! Plan of the encode of one H.264 frame.

use crate::encoder::pictures::{
    begin_indices, begin_slots, dpb_barriers, dpb_barriers_of, minus1, picture_type,
    picture_type_of, reference_list, slice_type, slice_type_of, CodedPictureType, SliceType,
    NO_REFERENCE_PICTURE,
};
use crate::encoder::rate_control::{
    constant_qp, constant_qp_of, constant_quality, is_constant_quality, qp_range, qp_range_of,
    rate_control, rate_control_of, QpRange, RateControl,
};
use crate::encoder::resources::DpbBarrier;
use crate::encoder::state::{EncoderState, StartedFrame, StateModel};
use crate::encoder::{Dimensions, EncodeConfig};
use crate::encoder::gop::GopFrameType;
use vstd::prelude::*;

verus! {

/// Number of entries of a reference list.
pub const LIST_SIZE: usize = 32;

/// A reference picture.
#[derive(Clone, Copy, Debug, PartialEq, Eq, Structural)]
pub struct ReferenceInfo {
    /// DPB slot that holds the picture.
    pub dpb_slot: u8,
    /// Frame number.
    pub frame_num: u32,
    /// Picture order count.
    pub poc: i32,
}

/// A DPB slot with the picture in it.
#[derive(Clone, Copy, Debug, PartialEq, Eq, Structural)]
pub struct H264Slot {
    /// DPB slot.
    pub dpb_slot: u8,
    /// Type of the picture.
    pub picture_type: CodedPictureType,
    /// Frame number.
    pub frame_num: u32,
    /// Picture order count.
    pub pic_order_cnt: i32,
}

/// Reference lists of a frame.
#[derive(Clone, Copy, Debug)]
pub struct H264ReferenceLists {
    /// DPB slots of list 0.
    pub list0: [u8; LIST_SIZE],
    /// DPB slots of list 1.
    pub list1: [u8; LIST_SIZE],
    /// Number of active entries of list 0, minus 1.
    pub num_ref_idx_l0_active_minus1: u8,
    /// Number of active entries of list 1, minus 1.
    pub num_ref_idx_l1_active_minus1: u8,
}

/// Slice header of a frame.
#[derive(Clone, Copy, Debug, PartialEq, Eq, Structural)]
pub struct H264Slice {
    /// Slice type.
    pub slice_type: SliceType,
    /// The slice gives the number of its references, in place of the default.
    pub num_ref_idx_active_override: bool,
    /// Quantization parameter, minus 26.
    pub slice_qp_delta: i8,
}

/// Picture information of a frame.
#[derive(Clone, Copy, Debug, PartialEq, Eq, Structural)]
pub struct H264Picture {
    /// The picture is an IDR picture.
    pub idr: bool,
    /// Later pictures may refer to the picture.
    pub is_reference: bool,
    /// Identifier that differs between successive IDR pictures.
    pub idr_pic_id: u16,
    /// Picture type.
    pub picture_type: CodedPictureType,
    /// Frame number.
    pub frame_num: u32,
    /// Picture order count.
    pub pic_order_cnt: i32,
}

/// Plan of the encode of one frame.
#[derive(Debug)]
pub struct H264FramePlan {
    /// Extent of all pictures.
    pub coded_extent: Dimensions,
    /// Barriers on the DPB before the encode.
    pub barriers: Vec<DpbBarrier>,
    /// The slot that is set up, with the reconstructed picture.
    pub setup: H264Slot,
    /// The slots of the references.
    pub references: Vec<H264Slot>,
    /// Indices of the slots that video coding begins with: the slot that is set up,
    /// then those of the references.
    pub begin_slots: Vec<i32>,
    /// Slice header.
    pub slice: H264Slice,
    /// Picture information.
    pub picture: H264Picture,
    /// Reference lists, for frames with references.
    pub lists: Option<H264ReferenceLists>,
    /// Constant quantization parameter of the slice.
    pub constant_qp: i32,
    /// Rate control.
    pub rate_control: RateControl,
    /// Quantization parameters that rate control may choose.
    pub qp_range: QpRange,
    /// Whether the frame is the first one. Then the session is reset, and rate
    /// control and quality level are set by a control command in place of at the
    /// beginning of video coding.
    pub first_frame: bool,
}

/// What the encode of a frame depends on besides the shared state.
#[verifier::ext_equal]
pub struct H264Context {
    /// Frame number.
    pub frame_num: u32,
    /// Identifier of the last IDR picture.
    pub idr_pic_id: u32,
    /// References, the most recent first.
    pub references: Seq<ReferenceInfo>,
    /// Reference after the frame in display order.
    pub backward: Option<ReferenceInfo>,
}

/// The DPB slots of references.
pub open spec fn slots_of(references: Seq<ReferenceInfo>) -> Seq<u8> {
    references.map_values(|r: ReferenceInfo| r.dpb_slot)
}

/// A reference as the device is told of it.
pub open spec fn slot_of(reference: ReferenceInfo) -> H264Slot {
    H264Slot {
        dpb_slot: reference.dpb_slot,
        picture_type: CodedPictureType::P,
        frame_num: reference.frame_num,
        pic_order_cnt: reference.poc,
    }
}

/// The frame is predicted from a reference before and one after it.
pub open spec fn bidirectional(frame_type: GopFrameType, backward: Option<ReferenceInfo>) -> bool {
    frame_type == GopFrameType::B && backward is Some
}

/// The references that a frame uses: the most recent and the one after it if it is
/// predicted from both sides, none for an IDR frame, otherwise all.
pub open spec fn references_used(frame_type: GopFrameType, context: H264Context) -> Seq<
    ReferenceInfo,
> {
    if bidirectional(frame_type, context.backward) {
        (if context.references.len() > 0 {
            seq![context.references[0]]
        } else {
            Seq::empty()
        }).push(context.backward->Some_0)
    } else if frame_type == GopFrameType::Idr {
        Seq::empty()
    } else {
        context.references
    }
}

/// The slots of list 0.
pub open spec fn list0_slots(
    frame_type: GopFrameType,
    context: H264Context,
    active_reference_count: u32,
) -> Seq<u8> {
    let all = slots_of(context.references);
    if bidirectional(frame_type, context.backward) {
        all.take(1)
    } else if all.len() <= active_reference_count && all.len() <= LIST_SIZE {
        all
    } else if active_reference_count <= LIST_SIZE {
        all.take(active_reference_count as int)
    } else {
        all.take(LIST_SIZE as int)
    }
}

/// The slots of list 1.
pub open spec fn list1_slots(frame_type: GopFrameType, context: H264Context) -> Seq<u8> {
    if bidirectional(frame_type, context.backward) {
        seq![context.backward->Some_0.dpb_slot]
    } else {
        Seq::empty()
    }
}

impl H264ReferenceLists {
    /// The lists hold these slots.
    pub open spec fn hold(self, list0: Seq<u8>, list1: Seq<u8>) -> bool {
        &&& self.list0@ =~= reference_list(list0, LIST_SIZE as nat)
        &&& self.list1@ =~= reference_list(list1, LIST_SIZE as nat)
        &&& self.num_ref_idx_l0_active_minus1 == minus1(list0.len())
        &&& self.num_ref_idx_l1_active_minus1 == minus1(list1.len())
    }
}

/// Difference of the quantization parameter to 26, where the configuration fixes it.
pub open spec fn qp_delta(config: EncodeConfig) -> i8 {
    if constant_quality(config.rate_control_mode) {
        (config.quality_level as i32 - 26) as i8
    } else {
        0
    }
}

/// The quality level can be lowered by 26.
pub open spec fn qp_delta_fits(config: EncodeConfig) -> bool {
    constant_quality(config.rate_control_mode) ==> config.quality_level as i32 >= i32::MIN + 26
}

impl H264FramePlan {
    /// The plan is that of this frame.
    pub open spec fn plans(self, m: StateModel, context: H264Context, frame: StartedFrame) -> bool {
        let frame_type = frame.position.frame_type;
        let idr = frame_type == GopFrameType::Idr;
        let used = references_used(frame_type, context);
        &&& self.coded_extent == m.session.coded_extent
        &&& self.barriers@ == dpb_barriers_of(
            m.session.use_layered_dpb,
            m.current_dpb_slot,
            slots_of(context.references),
            m.slot_active[m.current_dpb_slot as int],
        )
        &&& self.setup == (H264Slot {
            dpb_slot: m.current_dpb_slot,
            picture_type: if idr {
                CodedPictureType::Idr
            } else {
                CodedPictureType::P
            },
            frame_num: context.frame_num,
            pic_order_cnt: frame.position.pic_order_cnt,
        })
        &&& self.references@ == used.map_values(|r: ReferenceInfo| slot_of(r))
        &&& self.begin_slots@ == begin_indices(slots_of(used))
        &&& self.slice == (H264Slice {
            slice_type: slice_type_of(frame_type),
            num_ref_idx_active_override: !idr,
            slice_qp_delta: qp_delta(m.config),
        })
        &&& self.picture == (H264Picture {
            idr,
            is_reference: frame.position.is_reference,
            idr_pic_id: context.idr_pic_id as u16,
            picture_type: picture_type_of(frame_type),
            frame_num: context.frame_num,
            pic_order_cnt: frame.position.pic_order_cnt,
        })
        &&& match self.lists {
            None => idr || context.references.len() == 0,
            Some(lists) => {
                &&& !idr && context.references.len() > 0
                &&& lists.hold(
                    list0_slots(frame_type, context, m.session.active_reference_count),
                    list1_slots(frame_type, context),
                )
            },
        }
        &&& self.constant_qp == constant_qp_of(m.config)
        &&& self.rate_control == rate_control_of(m.config)
        &&& self.qp_range == qp_range_of(m.config, 18, 42)
        &&& self.first_frame == (m.encode_frame_num == 0)
    }
}

/// The DPB slots of references.
pub fn reference_slots(references: &Vec<ReferenceInfo>) -> (slots: Vec<u8>)
    ensures
        slots@ == slots_of(references@),
{
    let n: usize = references.len();
    let mut slots: Vec<u8> = Vec::new();
    let mut i: usize = 0;
    while i < n
        invariant
            i <= n,
            n == references@.len(),
            slots@ =~= slots_of(references@.take(i as int)),
        decreases n - i,
    {
        slots.push(references[i].dpb_slot);
        i = i + 1;
    }
    assert(references@.take(n as int) =~= references@);
    slots
}

fn describe_references(references: &Vec<ReferenceInfo>) -> (slots: Vec<H264Slot>)
    ensures
        slots@ == references@.map_values(|r: ReferenceInfo| slot_of(r)),
{
    let n: usize = references.len();
    let mut slots: Vec<H264Slot> = Vec::new();
    let mut i: usize = 0;
    while i < n
        invariant
            i <= n,
            n == references@.len(),
            slots@ =~= references@.take(i as int).map_values(|r: ReferenceInfo| slot_of(r)),
        decreases n - i,
    {
        let reference = references[i];
        slots.push(
            H264Slot {
                dpb_slot: reference.dpb_slot,
                picture_type: CodedPictureType::P,
                frame_num: reference.frame_num,
                pic_order_cnt: reference.poc,
            },
        );
        i = i + 1;
    }
    assert(references@.take(n as int) =~= references@);
    slots
}

/// The references that a frame uses.
fn select_references(
    frame_type: GopFrameType,
    references: &Vec<ReferenceInfo>,
    backward: Option<ReferenceInfo>,
    Ghost(context): Ghost<H264Context>,
) -> (used: Vec<ReferenceInfo>)
    requires
        references@ == context.references,
        backward == context.backward,
    ensures
        used@ == references_used(frame_type, context),
{
    let mut used: Vec<ReferenceInfo> = Vec::new();
    match (frame_type, backward) {
        (GopFrameType::B, Some(after)) => {
            if references.len() > 0 {
                used.push(references[0]);
            }
            used.push(after);
            assert(used@ =~= references_used(frame_type, context));
        },
        (GopFrameType::Idr, _) => {},
        _ => {
            let n: usize = references.len();
            let mut i: usize = 0;
            while i < n
                invariant
                    i <= n,
                    n == references@.len(),
                    used@ =~= references@.take(i as int),
                decreases n - i,
            {
                used.push(references[i]);
                i = i + 1;
            }
            assert(references@.take(n as int) =~= references@);
        },
    }
    used
}

fn fill_list(slots: &Vec<u8>, count: usize) -> (list: [u8; LIST_SIZE])
    requires
        count <= slots@.len(),
        count <= LIST_SIZE,
    ensures
        list@ == reference_list(slots@.take(count as int), LIST_SIZE as nat),
{
    let mut list: [u8; LIST_SIZE] = [NO_REFERENCE_PICTURE; LIST_SIZE];
    let mut i: usize = 0;
    while i < count
        invariant
            i <= count <= LIST_SIZE,
            count <= slots@.len(),
            list@ =~= reference_list(slots@.take(i as int), LIST_SIZE as nat),
        decreases count - i,
    {
        list[i] = slots[i];
        i = i + 1;
    }
    list
}

/// Build the reference lists of a frame with references.
fn build_lists(
    frame_type: GopFrameType,
    slots: &Vec<u8>,
    backward: Option<ReferenceInfo>,
    active_reference_count: u32,
    Ghost(context): Ghost<H264Context>,
) -> (lists: H264ReferenceLists)
    requires
        slots@ == slots_of(context.references),
        slots@.len() > 0,
        backward == context.backward,
    ensures
        lists.hold(
            list0_slots(frame_type, context, active_reference_count),
            list1_slots(frame_type, context),
        ),
{
    let mut behind: Vec<u8> = Vec::new();
    let mut count: usize = slots.len();
    match (frame_type, backward) {
        (GopFrameType::B, Some(after)) => {
            count = 1;
            behind.push(after.dpb_slot);
        },
        _ => {
            if active_reference_count as usize <= count {
                count = active_reference_count as usize;
            }
            if count > LIST_SIZE {
                count = LIST_SIZE;
            }
        },
    }
    proof {
        assert(slots@.take(slots@.len() as int) =~= slots@);
        assert(behind@.take(behind@.len() as int) =~= behind@);
        assert(slots@.take(count as int) =~= list0_slots(
            frame_type,
            context,
            active_reference_count,
        ));
        assert(behind@ =~= list1_slots(frame_type, context));
    }
    H264ReferenceLists {
        list0: fill_list(slots, count),
        list1: fill_list(&behind, behind.len()),
        num_ref_idx_l0_active_minus1: if count > 0 {
            (count - 1) as u8
        } else {
            0
        },
        num_ref_idx_l1_active_minus1: 0,
    }
}

fn slice_qp_delta(config: &EncodeConfig) -> (delta: i8)
    requires
        qp_delta_fits(*config),
    ensures
        delta == qp_delta(*config),
{
    if is_constant_quality(config.rate_control_mode) {
        let qp: i32 = config.quality_level as i32;
        (qp - 26) as i8
    } else {
        0
    }
}

/// Plan the encode of a frame.
pub fn plan_frame(
    state: &EncoderState,
    frame: &StartedFrame,
    frame_num: u32,
    idr_pic_id: u32,
    references: &Vec<ReferenceInfo>,
    backward: Option<ReferenceInfo>,
) -> (plan: H264FramePlan)
    requires
        state@.well_formed(),
        qp_delta_fits(state@.config),
    ensures
        plan.plans(
            state@,
            (H264Context { frame_num, idr_pic_id, references: references@, backward }),
            *frame,
        ),
{
    let ghost context = H264Context {
        frame_num,
        idr_pic_id,
        references: references@,
        backward,
    };
    let config = state.config();
    let session = state.session();
    let position = frame.position;
    let is_idr: bool = position.frame_type.is_idr();
    let slots: Vec<u8> = reference_slots(references);
    let used: Vec<ReferenceInfo> = select_references(
        position.frame_type,
        references,
        backward,
        Ghost(context),
    );
    let lists = if !is_idr && slots.len() > 0 {
        Some(
            build_lists(
                position.frame_type,
                &slots,
                backward,
                session.active_reference_count,
                Ghost(context),
            ),
        )
    } else {
        None
    };
    H264FramePlan {
        coded_extent: session.coded_extent,
        barriers: dpb_barriers(
            session.use_layered_dpb,
            state.current_dpb_slot(),
            &slots,
            state.current_slot_active(),
        ),
        setup: H264Slot {
            dpb_slot: state.current_dpb_slot(),
            picture_type: if is_idr {
                CodedPictureType::Idr
            } else {
                CodedPictureType::P
            },
            frame_num,
            pic_order_cnt: position.pic_order_cnt,
        },
        references: describe_references(&used),
        begin_slots: begin_slots(&reference_slots(&used)),
        slice: H264Slice {
            slice_type: slice_type(&position),
            num_ref_idx_active_override: !is_idr,
            slice_qp_delta: slice_qp_delta(&config),
        },
        picture: H264Picture {
            idr: is_idr,
            is_reference: position.is_reference,
            idr_pic_id: idr_pic_id as u16,
            picture_type: picture_type(&position),
            frame_num,
            pic_order_cnt: position.pic_order_cnt,
        },
        lists,
        constant_qp: constant_qp(&config),
        rate_control: rate_control(&config),
        qp_range: qp_range(&config, 18, 42),
        first_frame: state.is_first_frame(),
    }
}

} // verus!
