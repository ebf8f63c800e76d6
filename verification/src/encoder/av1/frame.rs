//! Plan of the encode of one AV1 frame.

use crate::encoder::pictures::{begin_indices, begin_slots, dpb_barriers, dpb_barriers_of};
use crate::encoder::rate_control::{
    constant_quality, is_constant_quality, rate_control, rate_control_of, RateControl,
};
use crate::encoder::resources::{record_post_encode_dpb_barrier, reference_barrier, DpbBarrier};
use crate::encoder::state::{EncoderState, StateModel};
use crate::encoder::{Dimensions, EncodeConfig};
use vstd::prelude::*;

verus! {

/// A reference picture. References are key frames.
#[derive(Clone, Copy, Debug, PartialEq, Eq, Structural)]
pub struct ReferenceInfo {
    /// DPB slot that holds the picture.
    pub dpb_slot: u8,
    /// Order hint.
    pub order_hint: u32,
}

/// Frame types.
#[derive(Clone, Copy, Debug, PartialEq, Eq, Structural)]
pub enum Av1FrameType {
    /// Key frame.
    Key,
    /// Inter frame.
    Inter,
}

/// How a frame is predicted, and the rate control group that goes with it.
#[derive(Clone, Copy, Debug, PartialEq, Eq, Structural)]
pub enum Av1Prediction {
    /// Intra prediction only; the intra group.
    IntraOnly,
    /// Prediction from a single reference; the predictive group.
    SingleReference,
}

/// A DPB slot with the picture in it.
#[derive(Clone, Copy, Debug, PartialEq, Eq, Structural)]
pub struct Av1Slot {
    /// DPB slot, which is also the identifier of the frame.
    pub dpb_slot: u8,
    /// Type of the frame.
    pub frame_type: Av1FrameType,
    /// Order hint.
    pub order_hint: u8,
}

/// References of a frame, as the bitstream names them.
#[derive(Clone, Copy, Debug)]
pub struct Av1ReferenceMapping {
    /// Reference slot of each reference name.
    pub ref_frame_idx: [i8; 7],
    /// Order hint of each reference slot.
    pub ref_order_hint: [u8; 8],
    /// Reference name whose state a frame starts from; 7 for none.
    pub primary_ref_frame: u8,
    /// Reference slots that the frame is stored in.
    pub refresh_frame_flags: u8,
}

/// Picture information of a frame. What it leaves out is zero.
#[derive(Clone, Copy, Debug)]
pub struct Av1Picture {
    /// Frame type.
    pub frame_type: Av1FrameType,
    /// The frame is shown.
    pub show_frame: bool,
    /// The frame does not depend on earlier ones being decoded.
    pub error_resilient_mode: bool,
    /// The frame can be shown again.
    pub showable_frame: bool,
    /// Number of the frame since the last key frame.
    pub frame_presentation_time: u32,
    /// Identifier of the frame.
    pub current_frame_id: u32,
    /// Order hint.
    pub order_hint: u8,
    /// Width as shown, minus 1.
    pub render_width_minus_1: u16,
    /// Height as shown, minus 1.
    pub render_height_minus_1: u16,
    /// The transform size is chosen for each block.
    pub tx_mode_select: bool,
    /// References.
    pub mapping: Av1ReferenceMapping,
    /// Base quantizer index.
    pub base_q_idx: u8,
    /// Reference deltas of the loop filter.
    pub loop_filter_ref_deltas: [i8; 8],
    /// The loop filter's mode deltas are updated.
    pub update_mode_delta: u8,
}

/// Plan of the encode of one frame.
#[derive(Debug)]
pub struct Av1FramePlan {
    /// Extent of all pictures.
    pub frame_extent: Dimensions,
    /// Barriers on the DPB before the encode.
    pub barriers: Vec<DpbBarrier>,
    /// The slot that is set up, with the reconstructed picture.
    pub setup: Av1Slot,
    /// The slot of the reference, if there is one.
    pub reference: Option<Av1Slot>,
    /// Indices of the slots that video coding begins with: the slot that is set up,
    /// then that of the reference.
    pub begin_slots: Vec<i32>,
    /// Picture information.
    pub picture: Av1Picture,
    /// DPB slot of each reference name, -1 for none.
    pub reference_name_slot_indices: [i32; 7],
    /// How the frame is predicted.
    pub prediction: Av1Prediction,
    /// Constant quantizer index, if rate control is disabled; it is then also the
    /// least and the greatest.
    pub constant_q_index: Option<u32>,
    /// Rate control.
    pub rate_control: RateControl,
    /// Whether the frame is the first one. Then the session is reset, and rate
    /// control and quality level are set by a control command in place of at the
    /// beginning of video coding.
    pub first_frame: bool,
    /// Barrier on the DPB after the encode.
    pub post_barrier: DpbBarrier,
}

/// What the encode of a frame depends on besides the shared state.
#[verifier::ext_equal]
pub struct Av1Context {
    /// Whether the frame is a key frame.
    pub key: bool,
    /// Number of the frame since the last key frame.
    pub frame_num: u32,
    /// Order hint of the frame.
    pub order_hint: u32,
    /// References.
    pub references: Seq<ReferenceInfo>,
}

/// The DPB slots of references.
pub open spec fn slots_of(references: Seq<ReferenceInfo>) -> Seq<u8> {
    references.map_values(|r: ReferenceInfo| r.dpb_slot)
}

impl Av1ReferenceMapping {
    /// The mapping is that of a frame. A key frame refreshes all reference slots. An
    /// inter frame uses the first reference as its last frame and refreshes the
    /// reference slot with the number of its DPB slot.
    pub open spec fn maps(self, key: bool, references: Seq<ReferenceInfo>, dpb_slot: u8) -> bool {
        let inter = !key && references.len() > 0;
        &&& self.ref_frame_idx@ =~= Seq::new(
            7,
            |i: int|
                if i == 0 && inter {
                    references[0].dpb_slot as i8
                } else {
                    0i8
                },
        )
        &&& self.ref_order_hint@ =~= Seq::new(
            8,
            |i: int|
                if i == 0 && inter {
                    references[0].order_hint as u8
                } else {
                    0u8
                },
        )
        &&& self.primary_ref_frame == if inter {
            0int
        } else {
            7int
        }
        &&& self.refresh_frame_flags == if key {
            0xffu8
        } else if inter {
            1u8 << dpb_slot
        } else {
            0u8
        }
    }
}

/// Quantizer index: the quality level if the configuration fixes it, otherwise the
/// middle of the range.
pub open spec fn q_index_of(config: EncodeConfig) -> u32 {
    if constant_quality(config.rate_control_mode) {
        config.quality_level
    } else {
        128
    }
}

/// Reference deltas of the loop filter.
pub open spec fn default_ref_deltas() -> Seq<i8> {
    seq![1i8, 0i8, 0i8, 0i8, -1i8, 0i8, -1i8, -1i8]
}

impl Av1Picture {
    /// The picture information is that of a frame.
    pub open spec fn describes(self, m: StateModel, context: Av1Context) -> bool {
        &&& self.frame_type == frame_type_of(context.key)
        &&& self.show_frame
        &&& self.error_resilient_mode == context.key
        &&& self.showable_frame == !context.key
        &&& self.frame_presentation_time == context.frame_num
        &&& self.current_frame_id == m.current_dpb_slot
        &&& self.order_hint == context.order_hint as u8
        &&& self.render_width_minus_1 == (m.config.dimensions.width - 1) as u16
        &&& self.render_height_minus_1 == (m.config.dimensions.height - 1) as u16
        &&& self.tx_mode_select
        &&& self.mapping.maps(context.key, context.references, m.current_dpb_slot)
        &&& self.base_q_idx == q_index_of(m.config) as u8
        &&& self.loop_filter_ref_deltas@ =~= default_ref_deltas()
        &&& self.update_mode_delta == 1
    }
}

/// Type of a frame.
pub open spec fn frame_type_of(key: bool) -> Av1FrameType {
    if key {
        Av1FrameType::Key
    } else {
        Av1FrameType::Inter
    }
}

/// The reference that a frame uses: the first, none for a key frame.
pub open spec fn reference_used(context: Av1Context) -> Option<ReferenceInfo> {
    if !context.key && context.references.len() > 0 {
        Some(context.references[0])
    } else {
        None
    }
}

/// The slots of the reference that a frame uses.
pub open spec fn used_slots(context: Av1Context) -> Seq<u8> {
    match reference_used(context) {
        Some(reference) => seq![reference.dpb_slot],
        None => Seq::empty(),
    }
}

impl Av1FramePlan {
    /// The plan is that of this frame.
    pub open spec fn plans(self, m: StateModel, context: Av1Context) -> bool {
        &&& self.frame_extent == m.config.dimensions
        &&& self.barriers@ == dpb_barriers_of(
            false,
            m.current_dpb_slot,
            slots_of(context.references),
            m.slot_active[m.current_dpb_slot as int],
        )
        &&& self.setup == (Av1Slot {
            dpb_slot: m.current_dpb_slot,
            frame_type: frame_type_of(context.key),
            order_hint: context.order_hint as u8,
        })
        &&& self.reference == match reference_used(context) {
            Some(reference) => Some(
                Av1Slot {
                    dpb_slot: reference.dpb_slot,
                    frame_type: Av1FrameType::Key,
                    order_hint: reference.order_hint as u8,
                },
            ),
            None => None,
        }
        &&& self.begin_slots@ == begin_indices(used_slots(context))
        &&& self.picture.describes(m, context)
        &&& self.reference_name_slot_indices@ =~= Seq::new(
            7,
            |i: int|
                match reference_used(context) {
                    Some(reference) => if i == 0 {
                        reference.dpb_slot as i32
                    } else {
                        -1i32
                    },
                    None => -1i32,
                },
        )
        &&& self.prediction == if context.key {
            Av1Prediction::IntraOnly
        } else {
            Av1Prediction::SingleReference
        }
        &&& self.constant_q_index == if constant_quality(m.config.rate_control_mode) {
            Some(q_index_of(m.config))
        } else {
            None
        }
        &&& self.rate_control == rate_control_of(m.config)
        &&& self.first_frame == (m.encode_frame_num == 0)
        &&& self.post_barrier == reference_barrier(false, m.current_dpb_slot)
    }
}

/// Calculate the reference frame mapping of a frame.
pub fn calculate_reference_frame_mapping(
    is_key_frame: bool,
    references: &Vec<ReferenceInfo>,
    current_dpb_slot: u8,
) -> (mapping: Av1ReferenceMapping)
    requires
        current_dpb_slot < 8,
    ensures
        mapping.maps(is_key_frame, references@, current_dpb_slot),
{
    let mut mapping = Av1ReferenceMapping {
        ref_frame_idx: [0i8; 7],
        ref_order_hint: [0u8; 8],
        primary_ref_frame: 7,
        refresh_frame_flags: 0,
    };
    if is_key_frame {
        // A key frame refreshes all 8 reference slots.
        mapping.refresh_frame_flags = 0xff;
    } else if references.len() > 0 {
        // Map LAST_FRAME to the most recent reference. The other names are ignored in
        // prediction from a single reference.
        let last = references[0];
        mapping.ref_frame_idx[0] = last.dpb_slot as i8;
        mapping.ref_order_hint[0] = last.order_hint as u8;
        mapping.primary_ref_frame = 0;
        mapping.refresh_frame_flags = 1u8 << current_dpb_slot;
    }
    mapping
}

fn q_index(config: &EncodeConfig) -> (q: u32)
    ensures
        q == q_index_of(*config),
{
    if is_constant_quality(config.rate_control_mode) {
        config.quality_level
    } else {
        128
    }
}

/// The DPB slots of references.
pub fn reference_slots(references: &Vec<ReferenceInfo>) -> (slots: Vec<u8>)
    ensures
        slots@ == slots_of(references@),
{
    let n: usize = references.len();
    let mut slots: Vec<u8> = Vec::new();
    let mut i: usize = 0;
    while i < n
        invariant
            i <= n,
            n == references@.len(),
            slots@ =~= slots_of(references@.take(i as int)),
        decreases n - i,
    {
        slots.push(references[i].dpb_slot);
        i = i + 1;
    }
    assert(references@.take(n as int) =~= references@);
    slots
}

/// Plan the encode of a frame.
pub fn plan_frame(
    state: &EncoderState,
    is_key_frame: bool,
    frame_num: u32,
    order_hint: u32,
    references: &Vec<ReferenceInfo>,
) -> (plan: Av1FramePlan)
    requires
        state@.well_formed(),
        state@.current_dpb_slot < 8,
        state@.config.dimensions.width >= 1,
        state@.config.dimensions.height >= 1,
    ensures
        plan.plans(
            state@,
            (Av1Context { key: is_key_frame, frame_num, order_hint, references: references@ }),
        ),
{
    let config = state.config();
    let current: u8 = state.current_dpb_slot();
    let frame_type = if is_key_frame {
        Av1FrameType::Key
    } else {
        Av1FrameType::Inter
    };
    let mut reference: Option<Av1Slot> = None;
    let mut used: Vec<u8> = Vec::new();
    let mut names: [i32; 7] = [-1i32; 7];
    if !is_key_frame && references.len() > 0 {
        let last = references[0];
        reference = Some(
            Av1Slot {
                dpb_slot: last.dpb_slot,
                frame_type: Av1FrameType::Key,
                order_hint: last.order_hint as u8,
            },
        );
        used.push(last.dpb_slot);
        names[0] = last.dpb_slot as i32;
    }
    let q: u32 = q_index(&config);
    let picture = Av1Picture {
        frame_type,
        show_frame: true,
        error_resilient_mode: is_key_frame,
        showable_frame: !is_key_frame,
        frame_presentation_time: frame_num,
        current_frame_id: current as u32,
        order_hint: order_hint as u8,
        render_width_minus_1: (config.dimensions.width - 1) as u16,
        render_height_minus_1: (config.dimensions.height - 1) as u16,
        tx_mode_select: true,
        mapping: calculate_reference_frame_mapping(is_key_frame, references, current),
        base_q_idx: q as u8,
        loop_filter_ref_deltas: [1i8, 0i8, 0i8, 0i8, -1i8, 0i8, -1i8, -1i8],
        update_mode_delta: 1,
    };
    proof {
        let context = Av1Context {
            key: is_key_frame,
            frame_num,
            order_hint,
            references: references@,
        };
        assert(used@ =~= used_slots(context));
    }
    Av1FramePlan {
        frame_extent: config.dimensions,
        barriers: dpb_barriers(
            false,
            current,
            &reference_slots(references),
            state.current_slot_active(),
        ),
        setup: Av1Slot { dpb_slot: current, frame_type, order_hint: order_hint as u8 },
        reference,
        begin_slots: begin_slots(&used),
        picture,
        reference_name_slot_indices: names,
        prediction: if is_key_frame {
            Av1Prediction::IntraOnly
        } else {
            Av1Prediction::SingleReference
        },
        constant_q_index: if is_constant_quality(config.rate_control_mode) {
            Some(q)
        } else {
            None
        },
        rate_control: rate_control(&config),
        first_frame: state.is_first_frame(),
        post_barrier: record_post_encode_dpb_barrier(false, current),
    }
}

} // verus!
