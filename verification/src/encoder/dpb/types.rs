//! Parameters of the decoded picture buffer.

use super::{PictureType, MAX_DPB_SIZE, MAX_REF_LIST_SIZE};
use vstd::arithmetic::power2::pow2;
use vstd::prelude::*;

verus! {

/// Configuration of a DPB.
#[derive(Debug, Clone, Copy, PartialEq, Eq, Structural)]
pub struct DpbConfig {
    /// Number of DPB slots.
    pub dpb_size: u32,
    /// Maximum number of reference frames.
    pub max_num_ref_frames: u32,
    /// Whether a picture may refer to several pictures.
    pub use_multiple_references: bool,
    /// Maximum number of long-term references.
    pub max_long_term_refs: u32,
    /// log2 of the frame number range, minus 4.
    pub log2_max_frame_num_minus4: u8,
    /// log2 of the picture order count LSB range, minus 4.
    pub log2_max_pic_order_cnt_lsb_minus4: u8,
    /// Number of temporal layers.
    pub num_temporal_layers: u32,
}

impl DpbConfig {
    /// Number of values that the picture order count LSB takes.
    pub fn max_pic_order_cnt_lsb(&self) -> (r: i32)
        requires
            self.log2_max_pic_order_cnt_lsb_minus4 <= 26,
        ensures
            r as int == pow2((self.log2_max_pic_order_cnt_lsb_minus4 + 4) as nat),
            r >= 16,
    {
        let shift: u32 = self.log2_max_pic_order_cnt_lsb_minus4 as u32 + 4;
        proof {
            vstd::arithmetic::power2::lemma2_to64();
            if shift < 30 {
                vstd::arithmetic::power2::lemma_pow2_strictly_increases(shift as nat, 30);
            }
            if shift > 4 {
                vstd::arithmetic::power2::lemma_pow2_strictly_increases(4, shift as nat);
            }
            vstd::bits::lemma_u32_shl_is_mul(1u32, shift);
        }
        (1u32 << shift) as i32
    }
}

impl Default for DpbConfig {
    fn default() -> (config: Self)
        ensures
            config == (DpbConfig {
                dpb_size: 4,
                max_num_ref_frames: 1,
                use_multiple_references: true,
                max_long_term_refs: 0,
                log2_max_frame_num_minus4: 4,
                log2_max_pic_order_cnt_lsb_minus4: 4,
                num_temporal_layers: 1,
            }),
    {
        DpbConfig {
            dpb_size: 4,
            max_num_ref_frames: 1,
            use_multiple_references: true,
            max_long_term_refs: 0,
            log2_max_frame_num_minus4: 4,
            log2_max_pic_order_cnt_lsb_minus4: 4,
            num_temporal_layers: 1,
        }
    }
}

/// What the DPB is told of a picture when its encoding starts.
#[derive(Debug, Clone, Copy, PartialEq, Eq, Structural)]
pub struct PictureStartInfo {
    /// Identifier of the frame.
    pub frame_id: u64,
    /// Picture order count.
    pub pic_order_cnt: i32,
    /// Frame number.
    pub frame_num: u32,
    /// Coding type.
    pub pic_type: PictureType,
    /// Whether the picture will be used for reference.
    pub is_reference: bool,
    /// Whether the picture is to be output.
    pub pic_output_flag: bool,
    /// Whether pictures before an IDR are dropped without output.
    pub no_output_of_prior_pics_flag: bool,
    /// Temporal layer.
    pub temporal_id: u8,
    /// Timestamp.
    pub timestamp: u64,
}

impl Default for PictureStartInfo {
    fn default() -> (info: Self)
        ensures
            info == (PictureStartInfo {
                frame_id: 0,
                pic_order_cnt: 0,
                frame_num: 0,
                pic_type: PictureType::P,
                is_reference: true,
                pic_output_flag: true,
                no_output_of_prior_pics_flag: false,
                temporal_id: 0,
                timestamp: 0,
            }),
    {
        PictureStartInfo {
            frame_id: 0,
            pic_order_cnt: 0,
            frame_num: 0,
            pic_type: PictureType::P,
            is_reference: true,
            pic_output_flag: true,
            no_output_of_prior_pics_flag: false,
            temporal_id: 0,
            timestamp: 0,
        }
    }
}

/// Short-term reference picture set, as coded in an H.265 slice header.
#[derive(Debug, Clone, Copy)]
pub struct ShortTermRefPicSet {
    /// Number of references before the current picture.
    pub num_negative_pics: u8,
    /// Number of references after the current picture.
    pub num_positive_pics: u8,
    /// Distances between successive references before the current picture,
    /// minus 1.
    pub delta_poc_s0_minus1: [u8; MAX_DPB_SIZE],
    /// Distances between successive references after the current picture,
    /// minus 1.
    pub delta_poc_s1_minus1: [u8; MAX_DPB_SIZE],
    /// Bit `i` is set when reference `i` before the current picture is used by it.
    pub used_by_curr_pic_s0_flag: u16,
    /// Bit `i` is set when reference `i` after the current picture is used by it.
    pub used_by_curr_pic_s1_flag: u16,
}

impl ShortTermRefPicSet {
    /// The set without references.
    pub open spec fn no_references(self) -> bool {
        &&& self.num_negative_pics == 0
        &&& self.num_positive_pics == 0
        &&& self.delta_poc_s0_minus1@ =~= Seq::new(MAX_DPB_SIZE as nat, |i: int| 0u8)
        &&& self.delta_poc_s1_minus1@ =~= Seq::new(MAX_DPB_SIZE as nat, |i: int| 0u8)
        &&& self.used_by_curr_pic_s0_flag == 0
        &&& self.used_by_curr_pic_s1_flag == 0
    }
}

impl Default for ShortTermRefPicSet {
    fn default() -> (rps: Self)
        ensures
            rps.no_references(),
    {
        ShortTermRefPicSet {
            num_negative_pics: 0,
            num_positive_pics: 0,
            delta_poc_s0_minus1: [0u8; MAX_DPB_SIZE],
            delta_poc_s1_minus1: [0u8; MAX_DPB_SIZE],
            used_by_curr_pic_s0_flag: 0,
            used_by_curr_pic_s1_flag: 0,
        }
    }
}

/// DPB slots of the references of the current picture; -1 where a reference is
/// not in the DPB.
#[derive(Debug, Clone, Copy)]
pub struct RefPicSet {
    /// Slots of the short-term references before the current picture.
    pub st_curr_before: [i8; MAX_REF_LIST_SIZE],
    /// Slots of the short-term references after the current picture.
    pub st_curr_after: [i8; MAX_REF_LIST_SIZE],
    /// Slots of the long-term references.
    pub lt_curr: [i8; MAX_REF_LIST_SIZE],
    /// Number of entries of `st_curr_before`.
    pub num_st_curr_before: u8,
    /// Number of entries of `st_curr_after`.
    pub num_st_curr_after: u8,
    /// Number of entries of `lt_curr`.
    pub num_lt_curr: u8,
}

/// The slots `s`, followed by -1 up to the end of the list.
pub open spec fn slots_padded(s: Seq<i8>) -> Seq<i8> {
    Seq::new(MAX_REF_LIST_SIZE as nat, |i: int| if i < s.len() { s[i] } else { -1i8 })
}

impl RefPicSet {
    /// The set holds exactly these slots.
    pub open spec fn holds(self, before: Seq<i8>, after: Seq<i8>, lt: Seq<i8>) -> bool {
        &&& self.st_curr_before@ =~= slots_padded(before)
        &&& self.st_curr_after@ =~= slots_padded(after)
        &&& self.lt_curr@ =~= slots_padded(lt)
        &&& self.num_st_curr_before == before.len()
        &&& self.num_st_curr_after == after.len()
        &&& self.num_lt_curr == lt.len()
    }

    /// Create an empty set.
    pub fn new() -> (set: Self)
        ensures
            set.holds(Seq::empty(), Seq::empty(), Seq::empty()),
    {
        RefPicSet {
            st_curr_before: [-1i8; MAX_REF_LIST_SIZE],
            st_curr_after: [-1i8; MAX_REF_LIST_SIZE],
            lt_curr: [-1i8; MAX_REF_LIST_SIZE],
            num_st_curr_before: 0,
            num_st_curr_after: 0,
            num_lt_curr: 0,
        }
    }
}

impl Default for RefPicSet {
    fn default() -> (set: Self)
        ensures
            set.holds(Seq::empty(), Seq::empty(), Seq::empty()),
    {
        RefPicSet::new()
    }
}

} // verus!
