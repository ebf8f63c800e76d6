//! Plan of the encode of one H.265 frame.

use crate::encoder::dpb::rps::{lemma_set_low_bit, low_ones};
use crate::encoder::gop::GopFrameType;
use crate::encoder::pictures::{
    begin_indices, begin_slots, dpb_barriers, dpb_barriers_of, minus1, picture_type,
    picture_type_of, reference_list, slice_type, slice_type_of, CodedPictureType, SliceType,
    NO_REFERENCE_PICTURE,
};
use crate::encoder::rate_control::{
    constant_qp, constant_qp_of, qp_range, qp_range_of, rate_control, rate_control_of, QpRange,
    RateControl,
};
use crate::encoder::resources::{record_post_encode_dpb_barrier, reference_barrier, DpbBarrier};
use crate::encoder::state::{EncoderState, StartedFrame, StateModel};
use crate::encoder::Dimensions;
use vstd::prelude::*;

verus! {

/// Number of entries of a reference list.
pub const LIST_SIZE: usize = 15;

/// Number of entries of the arrays of a reference picture set.
pub const RPS_SIZE: usize = 16;

/// Range of picture order counts, twice that of their LSB.
pub const POC_RANGE: i32 = 512;

/// A reference picture.
#[derive(Clone, Copy, Debug, PartialEq, Eq, Structural)]
pub struct ReferenceInfo {
    /// DPB slot that holds the picture.
    pub dpb_slot: u8,
    /// Picture order count.
    pub poc: i32,
}

/// A DPB slot with the picture in it.
#[derive(Clone, Copy, Debug, PartialEq, Eq, Structural)]
pub struct H265Slot {
    /// DPB slot.
    pub dpb_slot: u8,
    /// Type of the picture.
    pub picture_type: CodedPictureType,
    /// Picture order count.
    pub pic_order_cnt: i32,
}

/// Reference lists of a frame.
#[derive(Clone, Copy, Debug)]
pub struct H265ReferenceLists {
    /// DPB slots of list 0.
    pub list0: [u8; LIST_SIZE],
    /// DPB slots of list 1.
    pub list1: [u8; LIST_SIZE],
    /// Number of active entries of list 0, minus 1.
    pub num_ref_idx_l0_active_minus1: u8,
    /// Number of active entries of list 1, minus 1.
    pub num_ref_idx_l1_active_minus1: u8,
}

/// Short-term reference picture set of a frame.
#[derive(Clone, Copy, Debug)]
pub struct H265ShortTermRefPicSet {
    /// Which references before the frame it uses.
    pub used_by_curr_pic_s0_flag: u16,
    /// Which references after the frame it uses.
    pub used_by_curr_pic_s1_flag: u16,
    /// Number of references before the frame.
    pub num_negative_pics: u8,
    /// Number of references after the frame.
    pub num_positive_pics: u8,
    /// Distances between successive references before the frame, minus 1.
    pub delta_poc_s0_minus1: [u16; RPS_SIZE],
    /// Distances between successive references after the frame, minus 1.
    pub delta_poc_s1_minus1: [u16; RPS_SIZE],
}

/// Slice segment header of a frame. What it leaves out is zero.
#[derive(Clone, Copy, Debug, PartialEq, Eq, Structural)]
pub struct H265Slice {
    /// The slice is the first of the picture.
    pub first_slice_segment_in_pic: bool,
    /// The sample adaptive offset filter is used for luma.
    pub slice_sao_luma: bool,
    /// The sample adaptive offset filter is used for chroma.
    pub slice_sao_chroma: bool,
    /// The slice gives the number of its references, in place of the default.
    pub num_ref_idx_active_override: bool,
    /// Slice type.
    pub slice_type: SliceType,
    /// Number of candidates of merge mode.
    pub max_num_merge_cand: u8,
}

/// Picture information of a frame.
#[derive(Clone, Copy, Debug, PartialEq, Eq, Structural)]
pub struct H265Picture {
    /// Later pictures may refer to the picture.
    pub is_reference: bool,
    /// The picture is a random access point.
    pub irap: bool,
    /// The picture is output.
    pub pic_output: bool,
    /// Pictures before this one are not output.
    pub no_output_of_prior_pics: bool,
    /// Picture type.
    pub picture_type: CodedPictureType,
    /// Picture order count.
    pub pic_order_cnt: i32,
}

/// Plan of the encode of one frame.
#[derive(Debug)]
pub struct H265FramePlan {
    /// Extent of all pictures.
    pub coded_extent: Dimensions,
    /// Barriers on the DPB before the encode.
    pub barriers: Vec<DpbBarrier>,
    /// The slot that is set up, with the reconstructed picture.
    pub setup: H265Slot,
    /// The slots of the references.
    pub references: Vec<H265Slot>,
    /// Indices of the slots that video coding begins with: the slot that is set up,
    /// then those of the references.
    pub begin_slots: Vec<i32>,
    /// Slice segment header.
    pub slice: H265Slice,
    /// Picture information.
    pub picture: H265Picture,
    /// Short-term reference picture set.
    pub rps: H265ShortTermRefPicSet,
    /// Reference lists, for frames with references.
    pub lists: Option<H265ReferenceLists>,
    /// Constant quantization parameter of the slice.
    pub constant_qp: i32,
    /// Rate control.
    pub rate_control: RateControl,
    /// Quantization parameters that rate control may choose.
    pub qp_range: QpRange,
    /// Whether the frame is the first one. Then the session is reset, and rate
    /// control and quality level are set by a control command in place of at the
    /// beginning of video coding.
    pub first_frame: bool,
    /// Barrier on the DPB after the encode.
    pub post_barrier: DpbBarrier,
}

/// What the encode of a frame depends on besides the shared state.
#[verifier::ext_equal]
pub struct H265Context {
    /// References, the most recent first.
    pub references: Seq<ReferenceInfo>,
    /// Reference after the frame in display order.
    pub backward: Option<ReferenceInfo>,
}

/// Picture order counts for which differences can be computed.
pub open spec fn poc_fits(poc: i32) -> bool {
    0 <= poc < 0x4000_0000
}

/// The picture order counts of the references fit.
pub open spec fn pocs_fit(context: H265Context) -> bool {
    &&& forall|i: int|
        0 <= i < context.references.len() ==> poc_fits((#[trigger] context.references[i]).poc)
    &&& context.backward is Some ==> poc_fits(context.backward->Some_0.poc)
}

/// The DPB slots of references.
pub open spec fn slots_of(references: Seq<ReferenceInfo>) -> Seq<u8> {
    references.map_values(|r: ReferenceInfo| r.dpb_slot)
}

/// A reference as the device is told of it.
pub open spec fn slot_of(reference: ReferenceInfo) -> H265Slot {
    H265Slot {
        dpb_slot: reference.dpb_slot,
        picture_type: CodedPictureType::P,
        pic_order_cnt: reference.poc,
    }
}

/// The frame is predicted from a reference before and one after it.
pub open spec fn bidirectional(frame_type: GopFrameType, backward: Option<ReferenceInfo>) -> bool {
    frame_type == GopFrameType::B && backward is Some
}

/// The references that a frame uses: all before it unless it is an IDR frame, and
/// the one after it for a B frame.
pub open spec fn references_used(frame_type: GopFrameType, context: H265Context) -> Seq<
    ReferenceInfo,
> {
    let before = if frame_type == GopFrameType::Idr {
        Seq::empty()
    } else {
        context.references
    };
    if bidirectional(frame_type, context.backward) {
        before.push(context.backward->Some_0)
    } else {
        before
    }
}

/// The slots of list 0.
pub open spec fn list0_slots(frame_type: GopFrameType, context: H265Context) -> Seq<u8> {
    let all = slots_of(context.references);
    if bidirectional(frame_type, context.backward) {
        all.take(1)
    } else if all.len() <= LIST_SIZE {
        all
    } else {
        all.take(LIST_SIZE as int)
    }
}

/// The slots of list 1.
pub open spec fn list1_slots(frame_type: GopFrameType, context: H265Context) -> Seq<u8> {
    if bidirectional(frame_type, context.backward) {
        seq![context.backward->Some_0.dpb_slot]
    } else {
        Seq::empty()
    }
}

impl H265ReferenceLists {
    /// The lists hold these slots.
    pub open spec fn hold(self, list0: Seq<u8>, list1: Seq<u8>) -> bool {
        &&& self.list0@ =~= reference_list(list0, LIST_SIZE as nat)
        &&& self.list1@ =~= reference_list(list1, LIST_SIZE as nat)
        &&& self.num_ref_idx_l0_active_minus1 == minus1(list0.len())
        &&& self.num_ref_idx_l1_active_minus1 == minus1(list1.len())
    }
}

/// Distance from a picture order count to that of a reference, where counts have
/// started over between them taken into account.
pub open spec fn poc_distance(reference: i32, poc: i32) -> int {
    let delta = reference - poc;
    if delta > POC_RANGE / 2 {
        delta - POC_RANGE
    } else if delta < -POC_RANGE / 2 {
        delta + POC_RANGE
    } else {
        delta
    }
}

/// Distance of the reference `i` from the one before it in the list, or from the
/// frame if it is the first.
pub open spec fn poc_step(references: Seq<ReferenceInfo>, poc: i32, i: int) -> int {
    let previous = if i == 0 {
        0
    } else {
        poc_distance(references[i - 1].poc, poc)
    };
    previous - poc_distance(references[i].poc, poc)
}

/// A distance as it is coded: minus 1, and at least 0.
pub open spec fn coded_step(step: int) -> u16 {
    if step > 1 {
        (step - 1) as u16
    } else {
        0
    }
}

/// Number of references that a reference picture set holds.
pub open spec fn negative_count(references: Seq<ReferenceInfo>) -> nat {
    if references.len() > 15 {
        15
    } else {
        references.len()
    }
}

impl H265ShortTermRefPicSet {
    /// The set holds no reference.
    pub open spec fn is_empty(self) -> bool {
        &&& self.used_by_curr_pic_s0_flag == 0
        &&& self.used_by_curr_pic_s1_flag == 0
        &&& self.num_negative_pics == 0
        &&& self.num_positive_pics == 0
        &&& self.delta_poc_s0_minus1@ =~= Seq::new(RPS_SIZE as nat, |i: int| 0u16)
        &&& self.delta_poc_s1_minus1@ =~= Seq::new(RPS_SIZE as nat, |i: int| 0u16)
    }

    /// The set holds the references of a frame that is no IDR frame.
    pub open spec fn holds(self, frame_type: GopFrameType, poc: i32, context: H265Context) -> bool {
        let n = negative_count(context.references);
        let two_sided = bidirectional(frame_type, context.backward);
        &&& self.num_negative_pics == n
        &&& self.used_by_curr_pic_s0_flag == low_ones(n as int)
        &&& self.delta_poc_s0_minus1@ =~= Seq::new(
            RPS_SIZE as nat,
            |i: int|
                if i < n {
                    coded_step(poc_step(context.references, poc, i))
                } else {
                    0u16
                },
        )
        &&& self.num_positive_pics == if two_sided {
            1int
        } else {
            0int
        }
        &&& self.used_by_curr_pic_s1_flag == if two_sided {
            1int
        } else {
            0int
        }
        &&& self.delta_poc_s1_minus1@ =~= Seq::new(
            RPS_SIZE as nat,
            |i: int|
                if i == 0 && two_sided {
                    coded_step(context.backward->Some_0.poc - poc)
                } else {
                    0u16
                },
        )
    }
}

impl H265FramePlan {
    /// The plan is that of this frame.
    pub open spec fn plans(self, m: StateModel, context: H265Context, frame: StartedFrame) -> bool {
        let frame_type = frame.position.frame_type;
        let idr = frame_type == GopFrameType::Idr;
        let poc = frame.position.pic_order_cnt;
        let used = references_used(frame_type, context);
        let with_references = !idr && context.references.len() > 0;
        &&& self.coded_extent == m.session.coded_extent
        &&& self.barriers@ == dpb_barriers_of(
            m.session.use_layered_dpb,
            m.current_dpb_slot,
            slots_of(context.references),
            m.slot_active[m.current_dpb_slot as int],
        )
        &&& self.setup == (H265Slot {
            dpb_slot: m.current_dpb_slot,
            picture_type: picture_type_of(frame_type),
            pic_order_cnt: poc,
        })
        &&& self.references@ == used.map_values(|r: ReferenceInfo| slot_of(r))
        &&& self.begin_slots@ == begin_indices(slots_of(used))
        &&& self.slice == (H265Slice {
            first_slice_segment_in_pic: true,
            slice_sao_luma: true,
            slice_sao_chroma: true,
            num_ref_idx_active_override: true,
            slice_type: slice_type_of(frame_type),
            max_num_merge_cand: 5,
        })
        &&& self.picture == (H265Picture {
            is_reference: frame.position.is_reference,
            irap: idr,
            pic_output: true,
            no_output_of_prior_pics: idr,
            picture_type: picture_type_of(frame_type),
            pic_order_cnt: poc,
        })
        &&& if with_references {
            self.rps.holds(frame_type, poc, context)
        } else {
            self.rps.is_empty()
        }
        &&& match self.lists {
            None => !with_references,
            Some(lists) => {
                &&& with_references
                &&& lists.hold(list0_slots(frame_type, context), list1_slots(frame_type, context))
            },
        }
        &&& self.constant_qp == constant_qp_of(m.config)
        &&& self.rate_control == rate_control_of(m.config)
        &&& self.qp_range == qp_range_of(m.config, 26, 51)
        &&& self.first_frame == (m.encode_frame_num == 0)
        &&& self.post_barrier == reference_barrier(m.session.use_layered_dpb, m.current_dpb_slot)
    }
}

/// The DPB slots of references.
pub fn reference_slots(references: &Vec<ReferenceInfo>) -> (slots: Vec<u8>)
    ensures
        slots@ == slots_of(references@),
{
    let n: usize = references.len();
    let mut slots: Vec<u8> = Vec::new();
    let mut i: usize = 0;
    while i < n
        invariant
            i <= n,
            n == references@.len(),
            slots@ =~= slots_of(references@.take(i as int)),
        decreases n - i,
    {
        slots.push(references[i].dpb_slot);
        i = i + 1;
    }
    assert(references@.take(n as int) =~= references@);
    slots
}

fn describe_references(references: &Vec<ReferenceInfo>) -> (slots: Vec<H265Slot>)
    ensures
        slots@ == references@.map_values(|r: ReferenceInfo| slot_of(r)),
{
    let n: usize = references.len();
    let mut slots: Vec<H265Slot> = Vec::new();
    let mut i: usize = 0;
    while i < n
        invariant
            i <= n,
            n == references@.len(),
            slots@ =~= references@.take(i as int).map_values(|r: ReferenceInfo| slot_of(r)),
        decreases n - i,
    {
        let reference = references[i];
        slots.push(
            H265Slot {
                dpb_slot: reference.dpb_slot,
                picture_type: CodedPictureType::P,
                pic_order_cnt: reference.poc,
            },
        );
        i = i + 1;
    }
    assert(references@.take(n as int) =~= references@);
    slots
}

/// The references that a frame uses.
fn select_references(
    frame_type: GopFrameType,
    references: &Vec<ReferenceInfo>,
    backward: Option<ReferenceInfo>,
    Ghost(context): Ghost<H265Context>,
) -> (used: Vec<ReferenceInfo>)
    requires
        references@ == context.references,
        backward == context.backward,
    ensures
        used@ == references_used(frame_type, context),
{
    let mut used: Vec<ReferenceInfo> = Vec::new();
    if frame_type != GopFrameType::Idr {
        let n: usize = references.len();
        let mut i: usize = 0;
        while i < n
            invariant
                i <= n,
                n == references@.len(),
                used@ =~= references@.take(i as int),
            decreases n - i,
        {
            used.push(references[i]);
            i = i + 1;
        }
        assert(references@.take(n as int) =~= references@);
    }
    match (frame_type, backward) {
        (GopFrameType::B, Some(after)) => {
            used.push(after);
        },
        _ => {},
    }
    used
}

fn fill_list(slots: &Vec<u8>, count: usize) -> (list: [u8; LIST_SIZE])
    requires
        count <= slots@.len(),
        count <= LIST_SIZE,
    ensures
        list@ == reference_list(slots@.take(count as int), LIST_SIZE as nat),
{
    let mut list: [u8; LIST_SIZE] = [NO_REFERENCE_PICTURE; LIST_SIZE];
    let mut i: usize = 0;
    while i < count
        invariant
            i <= count <= LIST_SIZE,
            count <= slots@.len(),
            list@ =~= reference_list(slots@.take(i as int), LIST_SIZE as nat),
        decreases count - i,
    {
        list[i] = slots[i];
        i = i + 1;
    }
    list
}

/// Build the reference lists of a frame with references.
fn build_lists(
    frame_type: GopFrameType,
    slots: &Vec<u8>,
    backward: Option<ReferenceInfo>,
    Ghost(context): Ghost<H265Context>,
) -> (lists: H265ReferenceLists)
    requires
        slots@ == slots_of(context.references),
        slots@.len() > 0,
        backward == context.backward,
    ensures
        lists.hold(list0_slots(frame_type, context), list1_slots(frame_type, context)),
{
    let mut behind: Vec<u8> = Vec::new();
    let mut count: usize = slots.len();
    match (frame_type, backward) {
        (GopFrameType::B, Some(after)) => {
            count = 1;
            behind.push(after.dpb_slot);
        },
        _ => {
            if count > LIST_SIZE {
                count = LIST_SIZE;
            }
        },
    }
    proof {
        assert(slots@.take(slots@.len() as int) =~= slots@);
        assert(behind@.take(behind@.len() as int) =~= behind@);
        assert(slots@.take(count as int) =~= list0_slots(frame_type, context));
        assert(behind@ =~= list1_slots(frame_type, context));
    }
    H265ReferenceLists {
        list0: fill_list(slots, count),
        list1: fill_list(&behind, behind.len()),
        num_ref_idx_l0_active_minus1: (count - 1) as u8,
        num_ref_idx_l1_active_minus1: 0,
    }
}

fn distance(reference: i32, poc: i32) -> (delta: i32)
    requires
        poc_fits(reference),
        poc_fits(poc),
    ensures
        delta == poc_distance(reference, poc),
        -0x4000_0000 < delta < 0x4000_0000,
{
    let delta: i32 = reference - poc;
    if delta > POC_RANGE / 2 {
        delta - POC_RANGE
    } else if delta < -256 {
        delta + POC_RANGE
    } else {
        delta
    }
}

fn code_step(step: i32) -> (coded: u16)
    requires
        step > i32::MIN,
    ensures
        coded == coded_step(step as int),
{
    if step > 1 {
        (step - 1) as u16
    } else {
        0
    }
}

fn empty_rps() -> (rps: H265ShortTermRefPicSet)
    ensures
        rps.is_empty(),
{
    H265ShortTermRefPicSet {
        used_by_curr_pic_s0_flag: 0,
        used_by_curr_pic_s1_flag: 0,
        num_negative_pics: 0,
        num_positive_pics: 0,
        delta_poc_s0_minus1: [0u16; RPS_SIZE],
        delta_poc_s1_minus1: [0u16; RPS_SIZE],
    }
}

/// Build the short-term reference picture set of a frame with references.
fn build_rps(
    frame_type: GopFrameType,
    poc: i32,
    references: &Vec<ReferenceInfo>,
    backward: Option<ReferenceInfo>,
    Ghost(context): Ghost<H265Context>,
) -> (rps: H265ShortTermRefPicSet)
    requires
        references@ == context.references,
        backward == context.backward,
        poc_fits(poc),
        pocs_fit(context),
    ensures
        rps.holds(frame_type, poc, context),
{
    let mut rps = empty_rps();
    let mut count: usize = references.len();
    if count > 15 {
        count = 15;
    }
    let mut previous: i32 = 0;
    let mut i: usize = 0;
    proof {
        assert(1u32 << 0u32 == 1) by (bit_vector);
    }
    while i < count
        invariant
            i <= count,
            count == negative_count(context.references),
            references@ == context.references,
            poc_fits(poc),
            pocs_fit(context),
            previous == if i == 0 {
                0
            } else {
                poc_distance(context.references[i - 1].poc, poc)
            },
            -0x4000_0000 < previous < 0x4000_0000,
            rps.num_negative_pics == i,
            rps.used_by_curr_pic_s0_flag == low_ones(i as int),
            rps.delta_poc_s0_minus1@ =~= Seq::new(
                RPS_SIZE as nat,
                |j: int|
                    if j < i {
                        coded_step(poc_step(context.references, poc, j))
                    } else {
                        0u16
                    },
            ),
            rps.used_by_curr_pic_s1_flag == 0,
            rps.num_positive_pics == 0,
            rps.delta_poc_s1_minus1@ =~= Seq::new(RPS_SIZE as nat, |j: int| 0u16),
        decreases count - i,
    {
        let reference = references[i];
        assert(poc_fits(context.references[i as int].poc));
        let delta: i32 = distance(reference.poc, poc);
        rps.delta_poc_s0_minus1[i] = code_step(previous - delta);
        previous = delta;
        proof {
            lemma_set_low_bit(i as u16);
        }
        rps.used_by_curr_pic_s0_flag = rps.used_by_curr_pic_s0_flag | (1u16 << (i as u16));
        rps.num_negative_pics = (i + 1) as u8;
        i = i + 1;
    }
    match (frame_type, backward) {
        (GopFrameType::B, Some(after)) => {
            rps.delta_poc_s1_minus1[0] = code_step(after.poc - poc);
            rps.num_positive_pics = 1;
            rps.used_by_curr_pic_s1_flag = 1;
        },
        _ => {},
    }
    rps
}

/// Plan the encode of a frame.
pub fn plan_frame(
    state: &EncoderState,
    frame: &StartedFrame,
    references: &Vec<ReferenceInfo>,
    backward: Option<ReferenceInfo>,
) -> (plan: H265FramePlan)
    requires
        state@.well_formed(),
        poc_fits(frame.position.pic_order_cnt),
        pocs_fit(H265Context { references: references@, backward }),
    ensures
        plan.plans(state@, (H265Context { references: references@, backward }), *frame),
{
    let ghost context = H265Context { references: references@, backward };
    let config = state.config();
    let session = state.session();
    let position = frame.position;
    let is_idr: bool = position.frame_type.is_idr();
    let slots: Vec<u8> = reference_slots(references);
    let used: Vec<ReferenceInfo> = select_references(
        position.frame_type,
        references,
        backward,
        Ghost(context),
    );
    let with_references: bool = !is_idr && slots.len() > 0;
    let rps = if with_references {
        build_rps(
            position.frame_type,
            position.pic_order_cnt,
            references,
            backward,
            Ghost(context),
        )
    } else {
        empty_rps()
    };
    let lists = if with_references {
        Some(build_lists(position.frame_type, &slots, backward, Ghost(context)))
    } else {
        None
    };
    H265FramePlan {
        coded_extent: session.coded_extent,
        barriers: dpb_barriers(
            session.use_layered_dpb,
            state.current_dpb_slot(),
            &slots,
            state.current_slot_active(),
        ),
        setup: H265Slot {
            dpb_slot: state.current_dpb_slot(),
            picture_type: picture_type(&position),
            pic_order_cnt: position.pic_order_cnt,
        },
        references: describe_references(&used),
        begin_slots: begin_slots(&reference_slots(&used)),
        slice: H265Slice {
            first_slice_segment_in_pic: true,
            slice_sao_luma: true,
            slice_sao_chroma: true,
            num_ref_idx_active_override: true,
            slice_type: slice_type(&position),
            max_num_merge_cand: 5,
        },
        picture: H265Picture {
            is_reference: position.is_reference,
            irap: is_idr,
            pic_output: true,
            no_output_of_prior_pics: is_idr,
            picture_type: picture_type(&position),
            pic_order_cnt: position.pic_order_cnt,
        },
        rps,
        lists,
        constant_qp: constant_qp(&config),
        rate_control: rate_control(&config),
        qp_range: qp_range(&config, 26, 51),
        first_frame: state.is_first_frame(),
        post_barrier: record_post_encode_dpb_barrier(
            session.use_layered_dpb,
            state.current_dpb_slot(),
        ),
    }
}

} // verus!
