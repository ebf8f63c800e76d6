//! GOP (group of pictures) structure.
//!
//! A GOP starts with an IDR frame, followed by P frames that each serve as a
//! reference. An IDR frame can also be requested at any time; it starts a new
//! GOP.

use vstd::arithmetic::power2::pow2;
use vstd::prelude::*;

verus! {

/// Role of a frame in its GOP.
#[derive(Debug, Clone, Copy, PartialEq, Eq, Structural)]
pub enum GopFrameType {
    /// Instantaneous decoder refresh frame, the start of a GOP.
    Idr,
    /// Intra frame.
    I,
    /// Predicted frame.
    P,
    /// Bidirectionally predicted frame.
    B,
}

impl GopFrameType {
    /// Whether the frame starts a GOP.
    pub fn is_idr(&self) -> (idr: bool)
        ensures
            idr == (*self == GopFrameType::Idr),
    {
        *self == GopFrameType::Idr
    }
}

/// Place of a frame in its GOP.
#[derive(Debug, Clone, Copy, PartialEq, Eq, Structural)]
pub struct GopPosition {
    /// Role of the frame.
    pub frame_type: GopFrameType,
    /// Whether later frames may refer to the frame.
    pub is_reference: bool,
    /// Picture order count. It counts in steps of two from the IDR frame on and
    /// starts over at twice the range of the picture order count LSB.
    pub pic_order_cnt: i32,
}

/// Structure of the GOPs of a stream.
#[derive(Debug, Clone, Copy)]
pub struct GopStructure {
    /// Frames from one IDR frame to the next.
    gop_size: u32,
    /// Index in its GOP of the next frame.
    next_index: u32,
    /// Whether the next frame is to be an IDR frame in any case.
    idr_requested: bool,
    /// Range of the picture order count LSB.
    max_poc_lsb: u32,
}

/// State of a GOP structure.
#[verifier::ext_equal]
pub struct GopModel {
    /// Frames from one IDR frame to the next.
    pub gop_size: int,
    /// Index in its GOP of the next frame.
    pub next_index: int,
    /// Whether the next frame is to be an IDR frame in any case.
    pub idr_requested: bool,
    /// Range of the picture order count LSB.
    pub max_poc_lsb: int,
}

impl GopModel {
    /// A GOP has at least one frame, the next frame lies in it, and picture order
    /// counts fit.
    pub open spec fn well_formed(self) -> bool {
        &&& 1 <= self.gop_size
        &&& 0 <= self.next_index < self.gop_size
        &&& 16 <= self.max_poc_lsb <= 0x4000_0000
    }

    /// The next frame is an IDR frame.
    pub open spec fn idr_comes(self) -> bool {
        self.idr_requested || self.next_index == 0
    }

    /// Index in its GOP of the next frame, requests considered.
    pub open spec fn coming_index(self) -> int {
        if self.idr_comes() {
            0
        } else {
            self.next_index
        }
    }

    /// Place of the next frame.
    pub open spec fn coming(self) -> GopPosition {
        GopPosition {
            frame_type: if self.idr_comes() {
                GopFrameType::Idr
            } else {
                GopFrameType::P
            },
            is_reference: true,
            pic_order_cnt: wrapped_poc(self.coming_index(), self.max_poc_lsb) as i32,
        }
    }

    /// The state after the next frame.
    pub open spec fn stepped(self) -> GopModel {
        GopModel {
            next_index: if self.coming_index() + 1 >= self.gop_size {
                0
            } else {
                self.coming_index() + 1
            },
            idr_requested: false,
            ..self
        }
    }

    /// The state after `n` frames.
    pub open spec fn after(self, n: nat) -> GopModel
        decreases n,
    {
        if n == 0 {
            self
        } else {
            self.after((n - 1) as nat).stepped()
        }
    }
}

/// Picture order count of the frame at an index of its GOP.
pub open spec fn wrapped_poc(index: int, max_poc_lsb: int) -> int {
    index % max_poc_lsb * 2
}

/// A GOP size of at least one frame.
pub open spec fn at_least_one(gop_size: u32) -> int {
    if gop_size == 0 {
        1
    } else {
        gop_size as int
    }
}

impl View for GopStructure {
    type V = GopModel;

    closed spec fn view(&self) -> GopModel {
        GopModel {
            gop_size: self.gop_size as int,
            next_index: self.next_index as int,
            idr_requested: self.idr_requested,
            max_poc_lsb: self.max_poc_lsb as int,
        }
    }
}

impl GopStructure {
    /// Create a structure of IDR and P frames. The distance between IDR frames is
    /// at least one frame.
    pub fn new_ip_only(gop_size: u32) -> (gop: Self)
        ensures
            gop@ == (GopModel {
                gop_size: at_least_one(gop_size),
                next_index: 0,
                idr_requested: false,
                max_poc_lsb: 256,
            }),
            gop@.well_formed(),
    {
        GopStructure {
            gop_size: if gop_size == 0 {
                1
            } else {
                gop_size
            },
            next_index: 0,
            idr_requested: false,
            max_poc_lsb: 256,
        }
    }

    /// Set the range of the picture order count LSB, by its logarithm minus 4.
    pub fn set_max_poc_lsb(&mut self, log2_max_poc_lsb_minus4: u8)
        requires
            old(self)@.well_formed(),
            log2_max_poc_lsb_minus4 <= 26,
        ensures
            final(self)@ == (GopModel {
                max_poc_lsb: pow2((log2_max_poc_lsb_minus4 + 4) as nat) as int,
                ..old(self)@
            }),
            final(self)@.well_formed(),
    {
        let shift: u32 = log2_max_poc_lsb_minus4 as u32 + 4;
        proof {
            vstd::arithmetic::power2::lemma2_to64();
            if shift < 30 {
                vstd::arithmetic::power2::lemma_pow2_strictly_increases(shift as nat, 30);
            }
            if shift > 4 {
                vstd::arithmetic::power2::lemma_pow2_strictly_increases(4, shift as nat);
            }
            vstd::bits::lemma_u32_shl_is_mul(1u32, shift);
        }
        self.max_poc_lsb = 1u32 << shift;
    }

    /// Request that the next frame be an IDR frame.
    pub fn request_idr(&mut self)
        ensures
            final(self)@ == (GopModel { idr_requested: true, ..old(self)@ }),
    {
        self.idr_requested = true;
    }

    /// Go on to the next frame and return its place.
    pub fn get_next_frame(&mut self) -> (position: GopPosition)
        requires
            old(self)@.well_formed(),
        ensures
            position == old(self)@.coming(),
            final(self)@ == old(self)@.stepped(),
            final(self)@.well_formed(),
    {
        let idr: bool = self.idr_requested || self.next_index == 0;
        let index: u32 = if idr {
            0
        } else {
            self.next_index
        };
        let pic_order_cnt: i32 = (index % self.max_poc_lsb) as i32 * 2;
        self.next_index = if index >= self.gop_size - 1 {
            0
        } else {
            index + 1
        };
        self.idr_requested = false;
        GopPosition {
            frame_type: if idr {
                GopFrameType::Idr
            } else {
                GopFrameType::P
            },
            is_reference: true,
            pic_order_cnt,
        }
    }
}

/// Without requests, the first frame and every `gop_size`-th frame after it is an
/// IDR frame, and no other.
pub proof fn law_idr_period(m: GopModel, n: nat)
    requires
        m.well_formed(),
        m.next_index == 0,
        !m.idr_requested,
    ensures
        m.after(n).well_formed(),
        m.after(n).next_index == n as int % m.gop_size,
        m.after(n).idr_comes() <==> n as int % m.gop_size == 0,
    decreases n,
{
    lemma_keeps(m, n);
    if n > 0 {
        let k = n as int - 1;
        let g = m.gop_size;
        law_idr_period(m, k as nat);
        vstd::arithmetic::div_mod::lemma_fundamental_div_mod(k, g);
        let q = k / g;
        let r = k % g;
        if r + 1 < g {
            assert(n as int == q * g + (r + 1)) by (nonlinear_arith)
                requires
                    k == g * q + r,
                    n as int == k + 1,
            ;
            vstd::arithmetic::div_mod::lemma_fundamental_div_mod_converse(n as int, g, q, r + 1);
        } else {
            assert(n as int == (q + 1) * g + 0) by (nonlinear_arith)
                requires
                    k == g * q + r,
                    n as int == k + 1,
                    r + 1 == g,
            ;
            vstd::arithmetic::div_mod::lemma_fundamental_div_mod_converse(n as int, g, q + 1, 0);
        }
    }
}

proof fn lemma_keeps(m: GopModel, n: nat)
    ensures
        m.after(n).gop_size == m.gop_size,
        m.after(n).max_poc_lsb == m.max_poc_lsb,
        n > 0 ==> !m.after(n).idr_requested,
    decreases n,
{
    if n > 0 {
        lemma_keeps(m, (n - 1) as nat);
    }
}

/// After a request the next frame is an IDR frame, and its GOP then takes its
/// full length.
pub proof fn law_request_starts_a_gop(m: GopModel, n: nat)
    requires
        m.well_formed(),
    ensures
        (GopModel { idr_requested: true, ..m }).coming().frame_type == GopFrameType::Idr,
        (GopModel { idr_requested: true, ..m }).coming().pic_order_cnt == 0,
        0 < n < m.gop_size ==> (GopModel { idr_requested: true, ..m }).after(n).coming().frame_type
            == GopFrameType::P,
        n == m.gop_size ==> (GopModel { idr_requested: true, ..m }).after(n).coming().frame_type
            == GopFrameType::Idr,
{
    let asked = GopModel { idr_requested: true, ..m };
    let fresh = GopModel { idr_requested: false, next_index: 0, ..m };
    lemma_request_is_fresh(asked, fresh, n);
    law_idr_period(fresh, n);
    vstd::arithmetic::div_mod::lemma_small_mod(0, m.max_poc_lsb as nat);
    if 0 < n < m.gop_size {
        vstd::arithmetic::div_mod::lemma_small_mod(n, m.gop_size as nat);
    }
    if n == m.gop_size {
        vstd::arithmetic::div_mod::lemma_mod_self_0(m.gop_size);
    }
}

proof fn lemma_request_is_fresh(asked: GopModel, fresh: GopModel, n: nat)
    requires
        asked.well_formed(),
        asked.idr_requested,
        fresh == (GopModel { idr_requested: false, next_index: 0, ..asked }),
    ensures
        n > 0 ==> asked.after(n) == fresh.after(n),
    decreases n,
{
    if n > 1 {
        lemma_request_is_fresh(asked, fresh, (n - 1) as nat);
    } else if n == 1 {
        assert(asked.after(0) == asked);
        assert(fresh.after(0) == fresh);
    }
}

/// Without requests, the frame after `n` frames is an IDR frame at the start of a GOP and
/// otherwise a P frame. Every frame may be referred to. Picture order counts go up by two
/// from 0 at the IDR frame, and start over at twice the range of their LSB.
pub proof fn law_positions(m: GopModel, n: nat)
    requires
        m.well_formed(),
        m.next_index == 0,
        !m.idr_requested,
    ensures
        ({
            let position = m.after(n).coming();
            let index = n as int % m.gop_size;
            &&& index == 0 ==> position.frame_type == GopFrameType::Idr
            &&& index > 0 ==> position.frame_type == GopFrameType::P
            &&& position.is_reference
            &&& position.pic_order_cnt == 2 * (index % m.max_poc_lsb)
            &&& index < m.max_poc_lsb ==> position.pic_order_cnt == 2 * index
            &&& 0 <= position.pic_order_cnt < 2 * m.max_poc_lsb
        }),
{
    law_idr_period(m, n);
    lemma_keeps(m, n);
    let index = n as int % m.gop_size;
    vstd::arithmetic::div_mod::lemma_mod_bound(index, m.max_poc_lsb);
    if index < m.max_poc_lsb {
        vstd::arithmetic::div_mod::lemma_small_mod(index as nat, m.max_poc_lsb as nat);
    }
}

/// A GOP has the size that was asked for; without frames it could not be, so it then has
/// one.
pub proof fn law_gop_size(gop_size: u32)
    ensures
        at_least_one(gop_size) >= 1,
        gop_size >= 1 ==> at_least_one(gop_size) == gop_size,
        gop_size == 0 ==> at_least_one(gop_size) == 1,
{
}

} // verus!
