//! H.265/HEVC-specific DPB implementation.
//!
//! This module implements the H.265 DPB, including:
//! - Reference Picture Set (RPS) management
//! - Short-term and long-term reference picture handling
//! - Reference picture list construction for P and B frames
//! - Temporal layer support
//! - CRA (Clean Random Access) handling

use super::bumping::{
    all_in_use, bump, can_flush, can_free, change_first, dropped, empty_flags, find_empty,
    flush_slots, flushed, long_term_slot_flags, make_room, none_in_use, released, room_made,
    short_term_flags, slots_empty, slots_full, unmark_slots,
};
use super::entry::{DpbEntry, DpbState, MarkingState};
use super::marking::{
    count_long_term, count_short_term, layer_unmarked, slide_window, surplus_unmarked,
    unmark_layer, unmark_surplus, window_slid,
};
use super::reference_lists::{
    active_minus1, h265_list0, h265_list1, rps_candidates, slots_present,
    H265ReferenceListBuilder, ReferenceList,
};
use super::rps::{
    code_side, codes, collect_used_lsbs, collect_used_pocs, find_by_lsb, find_short_term,
    kept_negative, kept_positive, lemma_ranks_match_deltas, long_term_slots, nearest_first,
    negative_refs, note_slots, positive_refs, rps_eligible, rps_poc, short_term_slots,
    store_slots, unlisted_unmarked, used_lsbs, used_pocs,
};
use super::select::{
    count_true, first_true, lemma_first_true, lemma_sort_permutes, present, present_upto,
    sort_by_rank, unranked,
};
use super::types::{DpbConfig, PictureStartInfo, RefPicSet, ShortTermRefPicSet};
use super::{PictureType, MAX_DPB_SIZE};
use vstd::arithmetic::power2::pow2;
use vstd::prelude::*;

verus! {

/// H.265-specific DPB implementation.
#[derive(Debug)]
pub struct DpbH265 {
    /// DPB entries.
    entries: [DpbEntry; MAX_DPB_SIZE],
    /// Current DPB slot index (-1 if none).
    current_slot: i8,
    /// Maximum DPB size.
    max_dpb_size: i8,
    /// Number of POC values in stCurrBefore.
    num_poc_st_curr_before: i8,
    /// Number of POC values in stCurrAfter.
    num_poc_st_curr_after: i8,
    /// Number of POC values in stFoll.
    num_poc_st_foll: i8,
    /// Number of POC values in ltCurr.
    num_poc_lt_curr: i8,
    /// Number of POC values in ltFoll.
    num_poc_lt_foll: i8,
    /// Last IDR timestamp.
    last_idr_timestamp: u64,
    /// POC of CRA picture (for refresh pending).
    pic_order_cnt_cra: i32,
    /// Whether a refresh is pending.
    refresh_pending: bool,
    /// Long-term flags bitmask.
    long_term_flags: u32,
    /// Whether to use multiple references.
    use_multiple_refs: bool,
    /// Maximum POC LSB value.
    max_poc_lsb: i32,
    /// Number of temporal layers.
    num_temporal_layers: u32,
}

/// What a DPB holds.
#[verifier::ext_equal]
pub struct DpbModel {
    /// The entries of all slots.
    pub slots: Seq<DpbEntry>,
    /// Number of slots that are used.
    pub size: int,
    /// Slot of the current picture, -1 without one.
    pub current: int,
    /// Sizes of the parts of the last reference picture set that was applied.
    pub rps_sizes: RpsSizes,
    /// Timestamp of the last IDR picture.
    pub last_idr_timestamp: u64,
    /// POC of the last CRA picture.
    pub cra_poc: i32,
    /// Whether a refresh is pending.
    pub refresh_pending: bool,
    /// Long-term flags bitmask.
    pub long_term_flags: u32,
    /// Whether a picture may have several references.
    pub multiple_refs: bool,
    /// Number of values of the POC LSB.
    pub max_poc_lsb: i32,
    /// Number of temporal layers.
    pub layers: u32,
}

/// Sizes of the five parts of a reference picture set.
#[verifier::ext_equal]
pub struct RpsSizes {
    pub st_curr_before: int,
    pub st_curr_after: int,
    pub st_foll: int,
    pub lt_curr: int,
    pub lt_foll: int,
}

/// Sizes of an empty reference picture set.
pub open spec fn no_rps() -> RpsSizes {
    RpsSizes { st_curr_before: 0, st_curr_after: 0, st_foll: 0, lt_curr: 0, lt_foll: 0 }
}

impl DpbModel {
    /// The sizes fit the DPB, and the current slot is one of those in use.
    pub open spec fn well_formed(self) -> bool {
        &&& self.slots.len() == MAX_DPB_SIZE
        &&& 0 <= self.size <= MAX_DPB_SIZE
        &&& -1 <= self.current < self.size
        &&& self.max_poc_lsb >= 1
    }

    /// Number of short-term references.
    pub open spec fn short_term_refs(self) -> nat {
        count_true(short_term_flags(self.slots, self.size))
    }

    /// Number of long-term references.
    pub open spec fn long_term_refs(self) -> nat {
        count_true(long_term_slot_flags(self.slots, self.size))
    }
}

impl View for DpbH265 {
    type V = DpbModel;

    closed spec fn view(&self) -> DpbModel {
        DpbModel {
            slots: self.entries@,
            size: self.max_dpb_size as int,
            current: self.current_slot as int,
            rps_sizes: RpsSizes {
                st_curr_before: self.num_poc_st_curr_before as int,
                st_curr_after: self.num_poc_st_curr_after as int,
                st_foll: self.num_poc_st_foll as int,
                lt_curr: self.num_poc_lt_curr as int,
                lt_foll: self.num_poc_lt_foll as int,
            },
            last_idr_timestamp: self.last_idr_timestamp,
            cra_poc: self.pic_order_cnt_cra,
            refresh_pending: self.refresh_pending,
            long_term_flags: self.long_term_flags,
            multiple_refs: self.use_multiple_refs,
            max_poc_lsb: self.max_poc_lsb,
            layers: self.num_temporal_layers,
        }
    }
}

/// The DPB after reference picture marking.
pub open spec fn after_marking(
    m: DpbModel,
    current_poc: i32,
    pic_type: PictureType,
    long_term_refs_present: bool,
) -> DpbModel {
    if pic_type == PictureType::Idr {
        DpbModel { slots: change_first(m.slots, m.size, |e: DpbEntry| e.unmarked()), ..m }
    } else {
        let refreshing = m.refresh_pending && current_poc > m.cra_poc;
        let refreshed = if refreshing {
            change_first(
                m.slots,
                m.size,
                |e: DpbEntry|
                    if e.pic_order_cnt != m.cra_poc {
                        e.unmarked()
                    } else {
                        e
                    },
            )
        } else {
            m.slots
        };
        DpbModel {
            slots: if m.multiple_refs {
                surplus_unmarked(refreshed, m.size, long_term_refs_present)
            } else {
                refreshed
            },
            refresh_pending: pic_type == PictureType::I || (m.refresh_pending && !refreshing),
            cra_poc: if pic_type == PictureType::I {
                current_poc
            } else {
                m.cra_poc
            },
            ..m
        }
    }
}

/// The DPB after the current picture was encoded.
pub open spec fn after_picture_end(m: DpbModel, is_reference: bool) -> DpbModel {
    if m.current < 0 {
        m
    } else {
        let layered = if m.layers > 1 {
            layer_unmarked(m.slots, m.size, m.current)
        } else {
            m.slots
        };
        let marked = layered.update(
            m.current,
            DpbEntry {
                marking: if is_reference {
                    MarkingState::ShortTerm
                } else {
                    MarkingState::Unused
                },
                ..layered[m.current]
            },
        );
        DpbModel {
            slots: if is_reference {
                window_slid(marked, m.size, m.current)
            } else {
                marked
            },
            ..m
        }
    }
}

/// The slots when the slot of a new picture is chosen.
pub open spec fn prepared(m: DpbModel, info: PictureStartInfo) -> Seq<DpbEntry> {
    if info.pic_type == PictureType::Idr {
        if info.no_output_of_prior_pics_flag {
            change_first(m.slots, m.size, |e: DpbEntry| dropped(e))
        } else {
            change_first(m.slots, m.size, |e: DpbEntry| flushed(e))
        }
    } else {
        room_made(change_first(m.slots, m.size, |e: DpbEntry| released(e)), m.size)
    }
}

/// The slot of a new picture: the first empty one, -1 if the DPB has no slots.
pub open spec fn chosen_slot(slots: Seq<DpbEntry>, n: int) -> int {
    match first_true(empty_flags(slots, n)) {
        Some(i) => i,
        None => -1,
    }
}

/// POCs of all slots, as a new picture records them.
pub open spec fn recorded_pocs(slots: Seq<DpbEntry>, n: int) -> Seq<i32> {
    Seq::new(
        MAX_DPB_SIZE as nat,
        |i: int|
            if i < n {
                slots[i].pic_order_cnt
            } else {
                0i32
            },
    )
}

/// Bit mask of the slots marked as long-term references.
pub open spec fn long_term_mask(slots: Seq<DpbEntry>, n: nat) -> u32
    decreases n,
{
    if n == 0 {
        0u32
    } else if slots[n - 1].marking == MarkingState::LongTerm {
        long_term_mask(slots, (n - 1) as nat) | (1u32 << ((n - 1) as u32))
    } else {
        long_term_mask(slots, (n - 1) as nat)
    }
}

/// `e` is the entry of a picture that was started in slot `slot`.
pub open spec fn is_started(
    e: DpbEntry,
    slots: Seq<DpbEntry>,
    n: int,
    slot: int,
    info: PictureStartInfo,
) -> bool {
    &&& e == DpbEntry {
        state: DpbState::InUse,
        frame_id: info.frame_id,
        pic_order_cnt: info.pic_order_cnt,
        output: info.pic_output_flag,
        corrupted: false,
        temporal_id: info.temporal_id as i32,
        pic_type: info.pic_type,
        ref_pic_order_cnt: e.ref_pic_order_cnt,
        long_term_ref_pic: long_term_mask(slots, n as nat),
        ..slots[slot]
    }
    &&& e.ref_pic_order_cnt@ =~= recorded_pocs(slots, n)
}

/// The DPB after a picture was started.
pub open spec fn after_picture_start(m: DpbModel, info: PictureStartInfo, next: DpbModel) -> bool {
    let slots = prepared(m, info);
    let slot = chosen_slot(slots, m.size);
    &&& next == DpbModel {
        slots: if slot >= 0 {
            slots.update(slot, next.slots[slot])
        } else {
            slots
        },
        current: slot,
        last_idr_timestamp: if info.pic_type == PictureType::Idr && slot >= 0 {
            info.timestamp
        } else {
            m.last_idr_timestamp
        },
        ..m
    }
    &&& slot >= 0 ==> is_started(next.slots[slot], slots, m.size, slot, info)
}

/// Starting a picture comes to an end: an IDR picture can output all others,
/// and for any other picture a slot is free or can be freed.
pub open spec fn can_start(m: DpbModel, info: PictureStartInfo) -> bool {
    if info.pic_type == PictureType::Idr {
        info.no_output_of_prior_pics_flag || can_flush(m.slots, m.size)
    } else {
        exists|i: int| 0 <= i < m.size && can_free(#[trigger] m.slots[i])
    }
}

/// `set` and `next` are what applying a reference picture set to the DPB gives: the slots of
/// the pictures that the current one uses, and the DPB without the other references.
pub open spec fn set_applied(
    m: DpbModel,
    current_poc: i32,
    rps: ShortTermRefPicSet,
    num_long_term_pics: u32,
    long_term_poc_lsb: Seq<u32>,
    used_by_curr_pic_lt: u32,
    set: RefPicSet,
    next: DpbModel,
) -> bool {
    let num_negative = rps.num_negative_pics as nat;
    let num_positive = rps.num_positive_pics as nat;
    let before_pocs = used_pocs(
        current_poc,
        rps.delta_poc_s0_minus1@,
        false,
        rps.used_by_curr_pic_s0_flag,
        num_negative,
    );
    let after_pocs = used_pocs(
        current_poc,
        rps.delta_poc_s1_minus1@,
        true,
        rps.used_by_curr_pic_s1_flag,
        num_positive,
    );
    let num_lt = if num_long_term_pics < long_term_poc_lsb.len() {
        num_long_term_pics as nat
    } else {
        long_term_poc_lsb.len()
    };
    let lsbs = used_lsbs(long_term_poc_lsb, used_by_curr_pic_lt, num_lt);
    let before = short_term_slots(m.slots, m.size, before_pocs);
    let after = short_term_slots(m.slots, m.size, after_pocs);
    let lt = long_term_slots(m.slots, m.size, m.max_poc_lsb, lsbs);
    &&& set.holds(before, after, lt)
    &&& next == (DpbModel {
        slots: unlisted_unmarked(m.slots, m.size, before, after, lt),
        rps_sizes: RpsSizes {
            st_curr_before: before.len() as int,
            st_curr_after: after.len() as int,
            st_foll: num_negative - before.len() + num_positive - after.len(),
            lt_curr: lt.len() as int,
            lt_foll: num_lt - lt.len(),
        },
        ..m
    })
}

/// The lists are those of a picture with this reference picture set.
pub open spec fn lists_set_up(
    m: DpbModel,
    pic_type: PictureType,
    set: RefPicSet,
    num_ref_l0: u32,
    num_ref_l1: u32,
    l0: ReferenceList,
    l1: ReferenceList,
) -> bool {
    let before = set.st_curr_before@;
    let after = set.st_curr_after@;
    let lt = set.lt_curr@;
    let minus1_l0 = active_minus1(
        num_ref_l0,
        m.multiple_refs,
        slots_present(before, false).len(),
    );
    let minus1_l1 = active_minus1(
        num_ref_l1,
        m.multiple_refs && pic_type == PictureType::B,
        slots_present(after, false).len(),
    );
    &&& l0.holds(
        h265_list0(
            m.slots,
            m.size as i8,
            pic_type,
            rps_candidates(before, after, lt),
            minus1_l0,
        ),
        minus1_l0,
    )
    &&& l1.holds(
        h265_list1(
            m.slots,
            m.size as i8,
            pic_type,
            rps_candidates(after, before, lt),
            minus1_l1,
        ),
        minus1_l1,
    )
}

/// The signed number with the same low eight bits as `n`.
pub open spec fn as_signed_byte(n: u32) -> int {
    if n % 256 < 128 {
        (n % 256) as int
    } else {
        n % 256 - 256
    }
}

/// DPB size that a configuration leads to.
pub open spec fn configured_size(dpb_size: u32) -> int {
    if as_signed_byte(dpb_size) < MAX_DPB_SIZE {
        as_signed_byte(dpb_size)
    } else {
        MAX_DPB_SIZE as int
    }
}

proof fn lemma_as_signed_byte(n: u32)
    ensures
        (n as i8) as int == as_signed_byte(n),
{
    assert((n as i8) == (if n % 256 < 128 {
        (n % 256) as i64
    } else {
        ((n % 256) as i64 - 256i64) as i64
    })) by (bit_vector);
}

/// `next` is the DPB after a sequence was started: all slots are blank, and what else it
/// holds comes from the configuration, but for two values that count only once another
/// picture has set them.
pub open spec fn sequence_begun(m: DpbModel, config: DpbConfig, next: DpbModel) -> bool {
    &&& next == DpbModel {
        slots: next.slots,
        size: configured_size(config.dpb_size),
        current: -1,
        rps_sizes: no_rps(),
        last_idr_timestamp: m.last_idr_timestamp,
        cra_poc: m.cra_poc,
        refresh_pending: false,
        long_term_flags: 0,
        multiple_refs: config.use_multiple_references,
        max_poc_lsb: pow2((config.log2_max_pic_order_cnt_lsb_minus4 + 4) as nat) as i32,
        layers: config.num_temporal_layers,
    }
    &&& next.slots.len() == MAX_DPB_SIZE
    &&& forall|i: int| 0 <= i < MAX_DPB_SIZE ==> (#[trigger] next.slots[i]).blank()
}

/// A DPB without slots, as it is before a sequence starts.
pub open spec fn fresh(m: DpbModel) -> bool {
    &&& m == DpbModel {
        slots: m.slots,
        size: 0,
        current: -1,
        rps_sizes: no_rps(),
        last_idr_timestamp: 0,
        cra_poc: 0,
        refresh_pending: false,
        long_term_flags: 0,
        multiple_refs: true,
        max_poc_lsb: 16,
        layers: 1,
    }
    &&& forall|i: int| 0 <= i < MAX_DPB_SIZE ==> (#[trigger] m.slots[i]).blank()
}

impl Default for DpbH265 {
    fn default() -> (dpb: Self)
        ensures
            dpb@.well_formed(),
            fresh(dpb@),
    {
        DpbH265::new()
    }
}

impl DpbH265 {
    /// Create a new H.265 DPB.
    pub fn new() -> (dpb: Self)
        ensures
            dpb@.well_formed(),
            fresh(dpb@),
    {
        DpbH265 {
            entries: [DpbEntry::new();MAX_DPB_SIZE],
            current_slot: -1,
            max_dpb_size: 0,
            num_poc_st_curr_before: 0,
            num_poc_st_curr_after: 0,
            num_poc_st_foll: 0,
            num_poc_lt_curr: 0,
            num_poc_lt_foll: 0,
            last_idr_timestamp: 0,
            pic_order_cnt_cra: 0,
            refresh_pending: false,
            long_term_flags: 0,
            use_multiple_refs: true,
            max_poc_lsb: 16,
            num_temporal_layers: 1,
        }
    }

    /// Get reference to the entries array.
    pub fn entries(&self) -> (entries: &[DpbEntry; MAX_DPB_SIZE])
        ensures
            entries@ == self@.slots,
    {
        &self.entries
    }

    /// Get the maximum DPB size.
    pub fn dpb_size(&self) -> (size: i8)
        ensures
            size == self@.size,
    {
        self.max_dpb_size
    }

    /// Get the maximum POC LSB value.
    pub fn max_poc_lsb(&self) -> (lsb: i32)
        ensures
            lsb == self@.max_poc_lsb,
    {
        self.max_poc_lsb
    }

    /// Reference picture marking for H.265.
    ///
    /// Marks pictures as unused based on picture type and long-term flags.
    pub fn reference_picture_marking(
        &mut self,
        current_poc: i32,
        pic_type: PictureType,
        long_term_refs_present: bool,
    )
        requires
            old(self)@.well_formed(),
            pic_type != PictureType::Idr && old(self)@.multiple_refs ==> old(self)@.size >= 1,
        ensures
            final(self)@.well_formed(),
            final(self)@ == after_marking(old(self)@, current_poc, pic_type, long_term_refs_present),
    {
        let ghost m = self@;
        let n: usize = self.max_dpb_size as usize;
        if pic_type == PictureType::Idr {
            // IDR: mark all as unused.
            unmark_slots(&mut self.entries, n);
            return ;
        }
        // Handle CRA refresh pending.

        if self.refresh_pending && current_poc > self.pic_order_cnt_cra {
            let cra: i32 = self.pic_order_cnt_cra;
            let ghost f = |e: DpbEntry|
                if e.pic_order_cnt != m.cra_poc {
                    e.unmarked()
                } else {
                    e
                };
            let mut i: usize = 0;
            while i < n
                invariant
                    i <= n <= MAX_DPB_SIZE,
                    m.slots.len() == MAX_DPB_SIZE,
                    cra == m.cra_poc,
                    f == (|e: DpbEntry|
                        if e.pic_order_cnt != m.cra_poc {
                            e.unmarked()
                        } else {
                            e
                        }),
                    self@ == (DpbModel { slots: self@.slots, ..m }),
                    self@.slots =~= change_first(m.slots, i as int, f),
                decreases n - i,
            {
                if self.entries[i].pic_order_cnt != cra {
                    self.entries[i].mark_unused();
                }
                i = i + 1;
            }
            self.refresh_pending = false;
        }
        // CRA picture triggers refresh.

        if pic_type == PictureType::I {
            self.refresh_pending = true;
            self.pic_order_cnt_cra = current_poc;
        }
        if !self.use_multiple_refs {
            return ;
        }
        // Balance short-term and long-term references.

        unmark_surplus(&mut self.entries, n, long_term_refs_present);
    }

    /// Apply the Reference Picture Set to mark pictures.
    ///
    /// This categorizes reference pictures into:
    /// - stCurrBefore: short-term refs with POC < current
    /// - stCurrAfter: short-term refs with POC > current
    /// - ltCurr: long-term refs used by current
    /// - stFoll: short-term refs not used by current
    /// - ltFoll: long-term refs not used by current
    pub fn apply_reference_picture_set(
        &mut self,
        current_poc: i32,
        pic_type: PictureType,
        short_term_rps: &ShortTermRefPicSet,
        num_long_term_pics: u32,
        long_term_poc_lsb: &[u32],
        used_by_curr_pic_lt: u32,
    ) -> (ref_pic_set: RefPicSet)
        requires
            old(self)@.well_formed(),
            pic_type != PictureType::Idr ==> {
                &&& short_term_rps.num_negative_pics <= MAX_DPB_SIZE
                &&& short_term_rps.num_positive_pics <= MAX_DPB_SIZE
                &&& num_long_term_pics <= 32 || long_term_poc_lsb@.len() <= 32
                &&& forall|i: int|
                    0 <= i < short_term_rps.num_negative_pics ==> i32::MIN <= #[trigger] rps_poc(
                        current_poc,
                        short_term_rps.delta_poc_s0_minus1@,
                        false,
                        i,
                    ) <= i32::MAX
                &&& forall|i: int|
                    0 <= i < short_term_rps.num_positive_pics ==> i32::MIN <= #[trigger] rps_poc(
                        current_poc,
                        short_term_rps.delta_poc_s1_minus1@,
                        true,
                        i,
                    ) <= i32::MAX
            },
        ensures
            final(self)@.well_formed(),
            pic_type == PictureType::Idr ==> {
                &&& ref_pic_set.holds(Seq::empty(), Seq::empty(), Seq::empty())
                &&& final(self)@ == (DpbModel { rps_sizes: no_rps(), ..old(self)@ })
            },
            pic_type != PictureType::Idr ==> ({
                let m = old(self)@;
                let before_pocs = used_pocs(
                    current_poc,
                    short_term_rps.delta_poc_s0_minus1@,
                    false,
                    short_term_rps.used_by_curr_pic_s0_flag,
                    short_term_rps.num_negative_pics as nat,
                );
                let after_pocs = used_pocs(
                    current_poc,
                    short_term_rps.delta_poc_s1_minus1@,
                    true,
                    short_term_rps.used_by_curr_pic_s1_flag,
                    short_term_rps.num_positive_pics as nat,
                );
                let num_lt = if num_long_term_pics < long_term_poc_lsb@.len() {
                    num_long_term_pics as nat
                } else {
                    long_term_poc_lsb@.len()
                };
                let lsbs = used_lsbs(long_term_poc_lsb@, used_by_curr_pic_lt, num_lt);
                let before = short_term_slots(m.slots, m.size, before_pocs);
                let after = short_term_slots(m.slots, m.size, after_pocs);
                let lt = long_term_slots(m.slots, m.size, m.max_poc_lsb, lsbs);
                &&& ref_pic_set.holds(before, after, lt)
                &&& final(self)@ == (DpbModel {
                    slots: unlisted_unmarked(m.slots, m.size, before, after, lt),
                    rps_sizes: RpsSizes {
                        st_curr_before: before.len() as int,
                        st_curr_after: after.len() as int,
                        st_foll: short_term_rps.num_negative_pics - before.len()
                            + short_term_rps.num_positive_pics - after.len(),
                        lt_curr: lt.len() as int,
                        lt_foll: num_lt - lt.len(),
                    },
                    ..m
                })
            }),
            pic_type != PictureType::Idr ==> set_applied(
                old(self)@,
                current_poc,
                *short_term_rps,
                num_long_term_pics,
                long_term_poc_lsb@,
                used_by_curr_pic_lt,
                ref_pic_set,
                final(self)@,
            ),
    {
        let ghost m = self@;
        let mut ref_pic_set = RefPicSet::new();
        let n: usize = self.max_dpb_size as usize;
        if pic_type == PictureType::Idr {
            // IDR has no references.
            self.num_poc_st_curr_before = 0;
            self.num_poc_st_curr_after = 0;
            self.num_poc_st_foll = 0;
            self.num_poc_lt_curr = 0;
            self.num_poc_lt_foll = 0;
            return ref_pic_set;
        }
        // Build POC lists.

        let num_neg: usize = short_term_rps.num_negative_pics as usize;
        let num_pos: usize = short_term_rps.num_positive_pics as usize;
        let before_pocs: Vec<i32> = collect_used_pocs(
            current_poc,
            &short_term_rps.delta_poc_s0_minus1,
            false,
            short_term_rps.used_by_curr_pic_s0_flag,
            num_neg,
        );
        let after_pocs: Vec<i32> = collect_used_pocs(
            current_poc,
            &short_term_rps.delta_poc_s1_minus1,
            true,
            short_term_rps.used_by_curr_pic_s1_flag,
            num_pos,
        );
        let num_lt: usize = if (num_long_term_pics as usize) < long_term_poc_lsb.len() {
            num_long_term_pics as usize
        } else {
            long_term_poc_lsb.len()
        };
        let lsbs: Vec<i32> = collect_used_lsbs(long_term_poc_lsb, used_by_curr_pic_lt, num_lt);
        self.num_poc_st_curr_before = before_pocs.len() as i8;
        self.num_poc_st_curr_after = after_pocs.len() as i8;
        self.num_poc_st_foll = (num_neg - before_pocs.len() + (num_pos - after_pocs.len())) as i8;
        self.num_poc_lt_curr = lsbs.len() as i8;
        self.num_poc_lt_foll = (num_lt - lsbs.len()) as i8;

        // Map POCs to DPB indices.
        let before: Vec<i8> = self.slots_of_pocs(&before_pocs, n);
        let after: Vec<i8> = self.slots_of_pocs(&after_pocs, n);
        let lt: Vec<i8> = self.slots_of_lsbs(&lsbs, n);
        store_slots(&mut ref_pic_set.st_curr_before, &before);
        ref_pic_set.num_st_curr_before = before.len() as u8;
        store_slots(&mut ref_pic_set.st_curr_after, &after);
        ref_pic_set.num_st_curr_after = after.len() as u8;
        store_slots(&mut ref_pic_set.lt_curr, &lt);
        ref_pic_set.num_lt_curr = lt.len() as u8;

        // Mark pictures not in RPS as unused.
        let mut in_use: [bool; MAX_DPB_SIZE] = [false;MAX_DPB_SIZE];
        note_slots(&mut in_use, &before);
        note_slots(&mut in_use, &after);
        note_slots(&mut in_use, &lt);
        let ghost mid = self@;
        let ghost target = unlisted_unmarked(m.slots, m.size, before@, after@, lt@);
        let mut i: usize = 0;
        while i < n
            invariant
                i <= n <= MAX_DPB_SIZE,
                n == m.size,
                m.slots.len() == MAX_DPB_SIZE,
                mid.slots == m.slots,
                self@ == (DpbModel { slots: self@.slots, ..mid }),
                self@.slots.len() == MAX_DPB_SIZE,
                target == unlisted_unmarked(m.slots, m.size, before@, after@, lt@),
                forall|d: int|
                    0 <= d < MAX_DPB_SIZE ==> #[trigger] in_use@[d] == (before@.contains(d as i8)
                        || after@.contains(d as i8) || lt@.contains(d as i8)),
                forall|j: int|
                    0 <= j < MAX_DPB_SIZE ==> #[trigger] self@.slots[j] == if j < i {
                        target[j]
                    } else {
                        m.slots[j]
                    },
            decreases n - i,
        {
            assert(self@.slots[i as int] == m.slots[i as int]);
            if !in_use[i] && self.entries[i].marking != MarkingState::Unused {
                self.entries[i].mark_unused();
            }
            i = i + 1;
        }
        assert(self@.slots =~= target);
        ref_pic_set
    }

    /// Slots of short-term references by POC.
    fn slots_of_pocs(&self, pocs: &Vec<i32>, n: usize) -> (slots: Vec<i8>)
        requires
            n <= MAX_DPB_SIZE,
        ensures
            slots@ == short_term_slots(self@.slots, n as int, pocs@),
            forall|k: int| 0 <= k < slots@.len() ==> -1 <= #[trigger] slots@[k] < MAX_DPB_SIZE,
    {
        let mut slots: Vec<i8> = Vec::new();
        let mut i: usize = 0;
        while i < pocs.len()
            invariant
                i <= pocs@.len(),
                n <= MAX_DPB_SIZE,
                slots@ =~= short_term_slots(self@.slots, n as int, pocs@.take(i as int)),
                forall|k: int| 0 <= k < slots@.len() ==> -1 <= #[trigger] slots@[k] < MAX_DPB_SIZE,
            decreases pocs@.len() - i,
        {
            slots.push(find_short_term(&self.entries, n, pocs[i]));
            i = i + 1;
        }
        assert(pocs@.take(i as int) =~= pocs@);
        slots
    }

    /// Slots of references by POC LSB.
    fn slots_of_lsbs(&self, lsbs: &Vec<i32>, n: usize) -> (slots: Vec<i8>)
        requires
            n <= MAX_DPB_SIZE,
            self@.max_poc_lsb >= 1,
        ensures
            slots@ == long_term_slots(self@.slots, n as int, self@.max_poc_lsb, lsbs@),
            forall|k: int| 0 <= k < slots@.len() ==> -1 <= #[trigger] slots@[k] < MAX_DPB_SIZE,
    {
        let mut slots: Vec<i8> = Vec::new();
        let mut i: usize = 0;
        while i < lsbs.len()
            invariant
                i <= lsbs@.len(),
                n <= MAX_DPB_SIZE,
                self@.max_poc_lsb >= 1,
                slots@ =~= long_term_slots(
                    self@.slots,
                    n as int,
                    self@.max_poc_lsb,
                    lsbs@.take(i as int),
                ),
                forall|k: int| 0 <= k < slots@.len() ==> -1 <= #[trigger] slots@[k] < MAX_DPB_SIZE,
            decreases lsbs@.len() - i,
        {
            slots.push(find_by_lsb(&self.entries, n, self.max_poc_lsb, lsbs[i]));
            i = i + 1;
        }
        assert(lsbs@.take(i as int) =~= lsbs@);
        slots
    }

    /// Initialize the short-term RPS for a P/B frame.
    ///
    /// This builds the short-term reference picture set based on current DPB state.
    pub fn initialize_short_term_rps(
        &self,
        current_poc: i32,
        pic_type: PictureType,
        current_temporal_id: i32,
        num_ref_l0: u32,
        num_ref_l1: u32,
    ) -> (rps: ShortTermRefPicSet)
        requires
            self@.well_formed(),
            pic_type != PictureType::Idr ==> {
                &&& forall|i: int|
                    0 <= i < self@.size && rps_eligible(
                        #[trigger] self@.slots[i],
                        current_temporal_id,
                    ) ==> i32::MIN <= self@.slots[i].pic_order_cnt - current_poc <= i32::MAX
                &&& ({
                    let kept = kept_negative(
                        self@.size,
                        nearest_first(
                            negative_refs(
                                self@.slots,
                                self@.size,
                                current_poc,
                                current_temporal_id,
                            ),
                        ),
                        nearest_first(
                            positive_refs(
                                self@.slots,
                                self@.size,
                                current_poc,
                                current_temporal_id,
                                self@.multiple_refs,
                            ),
                        ),
                    );
                    kept.len() > 0 ==> kept[0] > i32::MIN
                })
            },
        ensures
            pic_type == PictureType::Idr ==> rps.no_references(),
            pic_type != PictureType::Idr ==> ({
                let neg = nearest_first(
                    negative_refs(self@.slots, self@.size, current_poc, current_temporal_id),
                );
                let pos = nearest_first(
                    positive_refs(
                        self@.slots,
                        self@.size,
                        current_poc,
                        current_temporal_id,
                        self@.multiple_refs,
                    ),
                );
                codes(
                    rps,
                    kept_negative(self@.size, neg, pos),
                    kept_positive(self@.size, neg, pos),
                    num_ref_l0,
                    num_ref_l1,
                )
            }),
    {
        let mut rps = ShortTermRefPicSet::default();
        if pic_type == PictureType::Idr {
            return rps;
        }
        let n: usize = self.max_dpb_size as usize;
        let ghost neg_items = negative_refs(
            self@.slots,
            self@.size,
            current_poc,
            current_temporal_id,
        );
        let ghost pos_items = positive_refs(
            self@.slots,
            self@.size,
            current_poc,
            current_temporal_id,
            self@.multiple_refs,
        );

        // Collect short-term references.
        let mut negative: Vec<(i64, i32)> = Vec::new();
        let mut positive: Vec<(i64, i32)> = Vec::new();
        let mut i: usize = 0;
        while i < n
            invariant
                i <= n <= MAX_DPB_SIZE,
                n == self@.size,
                neg_items == negative_refs(
                    self@.slots,
                    self@.size,
                    current_poc,
                    current_temporal_id,
                ),
                pos_items == positive_refs(
                    self@.slots,
                    self@.size,
                    current_poc,
                    current_temporal_id,
                    self@.multiple_refs,
                ),
                negative@ == present_upto(neg_items, i as nat),
                positive@ == present_upto(pos_items, i as nat),
                negative@.len() + positive@.len() <= i,
                forall|i: int|
                    0 <= i < self@.size && rps_eligible(
                        #[trigger] self@.slots[i],
                        current_temporal_id,
                    ) ==> i32::MIN <= self@.slots[i].pic_order_cnt - current_poc <= i32::MAX,
            decreases n - i,
        {
            let entry = self.entries[i];
            assert(entry == self@.slots[i as int]);
            if entry.is_short_term_reference() && !entry.corrupted && entry.temporal_id
                <= current_temporal_id {
                let delta_poc: i32 = entry.pic_order_cnt - current_poc;
                if delta_poc < 0 {
                    negative.push((-(entry.pic_order_cnt as i64), delta_poc));
                } else if delta_poc > 0 && self.use_multiple_refs {
                    positive.push((entry.pic_order_cnt as i64, delta_poc));
                }
            }
            i = i + 1;
        }

        // Closest to the current picture first.
        let negative: Vec<(i64, i32)> = sort_by_rank(&negative);
        let positive: Vec<(i64, i32)> = sort_by_rank(&positive);
        proof {
            lemma_sort_permutes(present(neg_items));
            lemma_sort_permutes(present(pos_items));
            lemma_ranks_match_deltas(neg_items, current_poc, true);
            lemma_ranks_match_deltas(pos_items, current_poc, false);
        }

        // Limit to DPB size - 1.
        let mut num_neg: usize = negative.len();
        let mut num_pos: usize = positive.len();
        if n >= 1 && num_neg + num_pos > n - 1 {
            let surplus: usize = num_neg + num_pos - (n - 1);
            if surplus <= num_neg {
                num_neg = num_neg - surplus;
            } else {
                num_pos = num_pos - (surplus - num_neg);
                num_neg = 0;
            }
        }
        let ghost neg = unranked(negative@);
        let ghost pos = unranked(positive@);
        assert(neg.take(num_neg as int) =~= kept_negative(self@.size, neg, pos));
        assert(pos.take(num_pos as int) =~= kept_positive(self@.size, neg, pos));
        assert(num_neg > 0 ==> neg[0] == negative@[0].1);

        // Build the RPS structure.
        rps.num_negative_pics = num_neg as u8;
        rps.num_positive_pics = num_pos as u8;
        rps.used_by_curr_pic_s0_flag = code_side(
            &negative,
            num_neg,
            num_ref_l0,
            false,
            &mut rps.delta_poc_s0_minus1,
        );
        rps.used_by_curr_pic_s1_flag = code_side(
            &positive,
            num_pos,
            num_ref_l1,
            true,
            &mut rps.delta_poc_s1_minus1,
        );
        rps
    }

    /// Setup reference picture lists L0 and L1.
    pub fn setup_reference_lists(
        &self,
        pic_type: PictureType,
        ref_pic_set: &RefPicSet,
        num_ref_l0: u32,
        num_ref_l1: u32,
    ) -> (lists: (ReferenceList, ReferenceList))
        requires
            self@.well_formed(),
            pic_type == PictureType::P || pic_type == PictureType::B ==> rps_candidates(
                ref_pic_set.st_curr_before@,
                ref_pic_set.st_curr_after@,
                ref_pic_set.lt_curr@,
            ).len() > 0,
        ensures
            lists.0.well_formed(),
            lists.1.well_formed(),
            ({
                let before = ref_pic_set.st_curr_before@;
                let after = ref_pic_set.st_curr_after@;
                let lt = ref_pic_set.lt_curr@;
                let minus1_l0 = active_minus1(
                    num_ref_l0,
                    self@.multiple_refs,
                    slots_present(before, false).len(),
                );
                let minus1_l1 = active_minus1(
                    num_ref_l1,
                    self@.multiple_refs && pic_type == PictureType::B,
                    slots_present(after, false).len(),
                );
                let size = self@.size as i8;
                &&& lists.0.holds(
                    h265_list0(
                        self@.slots,
                        size,
                        pic_type,
                        rps_candidates(before, after, lt),
                        minus1_l0,
                    ),
                    minus1_l0,
                )
                &&& lists.1.holds(
                    h265_list1(
                        self@.slots,
                        size,
                        pic_type,
                        rps_candidates(after, before, lt),
                        minus1_l1,
                    ),
                    minus1_l1,
                )
            }),
            lists_set_up(
                self@,
                pic_type,
                *ref_pic_set,
                num_ref_l0,
                num_ref_l1,
                lists.0,
                lists.1,
            ),
    {
        H265ReferenceListBuilder::build_ref_lists(
            &self.entries,
            self.max_dpb_size,
            pic_type,
            ref_pic_set.st_curr_before.as_slice(),
            ref_pic_set.st_curr_after.as_slice(),
            ref_pic_set.lt_curr.as_slice(),
            num_ref_l0,
            num_ref_l1,
            self.use_multiple_refs,
        )
    }

    /// Get an entry by index.
    pub fn get_entry(&self, index: usize) -> (entry: Option<&DpbEntry>)
        ensures
            entry == (if index < MAX_DPB_SIZE && self@.slots[index as int].state
                == DpbState::InUse {
                Some(&self@.slots[index as int])
            } else {
                None
            }),
    {
        if index < MAX_DPB_SIZE && self.entries[index].state == DpbState::InUse {
            Some(&self.entries[index])
        } else {
            None
        }
    }

    /// Get mutable entry by index.
    pub fn get_entry_mut(&mut self, index: usize) -> (entry: Option<&mut DpbEntry>)
        ensures
            match entry {
                Some(e) => {
                    &&& index < MAX_DPB_SIZE
                    &&& *e == old(self)@.slots[index as int]
                    &&& final(self)@ == (DpbModel {
                        slots: old(self)@.slots.update(index as int, *final(e)),
                        ..old(self)@
                    })
                },
                None => index >= MAX_DPB_SIZE && final(self)@ == old(self)@,
            },
    {
        if index < MAX_DPB_SIZE {
            Some(&mut self.entries[index])
        } else {
            None
        }
    }

    /// Get the long-term flags.
    pub fn long_term_flags(&self) -> (flags: u32)
        ensures
            flags == self@.long_term_flags,
    {
        self.long_term_flags
    }

    /// Start a sequence: empty the DPB and take over a configuration.
    ///
    /// Only the low eight bits of the DPB size count, as a signed number.
    pub fn sequence_start(&mut self, config: DpbConfig)
        requires
            config.log2_max_pic_order_cnt_lsb_minus4 <= 26,
        ensures
            sequence_begun(old(self)@, config, final(self)@),
            final(self)@.well_formed() <==> config.dpb_size % 256 < 128,
    {
        // Reset all entries.
        let ghost m = self@;
        let mut i: usize = 0;
        while i < MAX_DPB_SIZE
            invariant
                i <= MAX_DPB_SIZE,
                self@ == (DpbModel { slots: self@.slots, ..m }),
                forall|j: int| 0 <= j < i ==> (#[trigger] self@.slots[j]).blank(),
            decreases MAX_DPB_SIZE - i,
        {
            self.entries[i].reset();
            i = i + 1;
        }
        proof {
            lemma_as_signed_byte(config.dpb_size);
        }
        let size: i8 = config.dpb_size as i8;
        self.max_dpb_size = if size < MAX_DPB_SIZE as i8 {
            size
        } else {
            MAX_DPB_SIZE as i8
        };
        self.use_multiple_refs = config.use_multiple_references;
        self.max_poc_lsb = config.max_pic_order_cnt_lsb();
        self.num_temporal_layers = config.num_temporal_layers;
        self.current_slot = -1;
        self.num_poc_st_curr_before = 0;
        self.num_poc_st_curr_after = 0;
        self.num_poc_st_foll = 0;
        self.num_poc_lt_curr = 0;
        self.num_poc_lt_foll = 0;
        self.refresh_pending = false;
        self.long_term_flags = 0;
    }

    /// Start a picture: free a slot for it and enter it there.
    ///
    /// Returns the slot, or -1 if the DPB has none.
    pub fn picture_start(&mut self, info: PictureStartInfo) -> (slot: i8)
        requires
            old(self)@.well_formed(),
            can_start(old(self)@, info),
        ensures
            final(self)@.well_formed(),
            after_picture_start(old(self)@, info, final(self)@),
            slot == final(self)@.current,
            slot >= 0 <==> old(self)@.size > 0,
    {
        let ghost m = self@;
        let n: usize = self.max_dpb_size as usize;
        let is_idr: bool = info.pic_type == PictureType::Idr;
        if is_idr {
            if info.no_output_of_prior_pics_flag {
                // Clear all DPB entries.
                let mut i: usize = 0;
                while i < n
                    invariant
                        i <= n <= MAX_DPB_SIZE,
                        m.slots.len() == MAX_DPB_SIZE,
                        self@ == (DpbModel { slots: self@.slots, ..m }),
                        self@.slots =~= change_first(m.slots, i as int, |e: DpbEntry| dropped(e)),
                    decreases n - i,
                {
                    self.entries[i].state = DpbState::Empty;
                    self.entries[i].mark_unused();
                    i = i + 1;
                }
            } else {
                flush_slots(&mut self.entries, n);
            }
            proof {
                if n > 0 {
                    assert(empty_flags(self@.slots, n as int)[0]);
                }
            }
        } else {
            // Remove entries that are unused and not needed for output.
            let mut i: usize = 0;
            while i < n
                invariant
                    i <= n <= MAX_DPB_SIZE,
                    m.slots.len() == MAX_DPB_SIZE,
                    self@ == (DpbModel { slots: self@.slots, ..m }),
                    self@.slots =~= change_first(m.slots, i as int, |e: DpbEntry| released(e)),
                decreases n - i,
            {
                if self.entries[i].marking == MarkingState::Unused && !self.entries[i].output {
                    self.entries[i].state = DpbState::Empty;
                }
                i = i + 1;
            }
            proof {
                let w = choose|i: int| 0 <= i < m.size && can_free(#[trigger] m.slots[i]);
                assert(can_free(self@.slots[w]));
            }
            make_room(&mut self.entries, n);
            proof {
                let w = choose|i: int|
                    0 <= i < n && (#[trigger] self@.slots[i]).state == DpbState::Empty;
                assert(empty_flags(self@.slots, n as int)[w]);
            }
        }
        let ghost ready = self@.slots;
        assert(ready =~= prepared(m, info));

        // Find empty slot.
        proof {
            lemma_first_true(empty_flags(ready, n as int));
        }
        self.current_slot = find_empty(&self.entries, n);
        if self.current_slot < 0 {
            // Force bumping.
            assert(n == 0);
            bump(&mut self.entries, n);
            self.current_slot = find_empty(&self.entries, n);
        }
        if self.current_slot >= 0 {
            // Collect reference POCs and long-term flags first.
            let mut ref_pocs: [i32; MAX_DPB_SIZE] = [0i32;MAX_DPB_SIZE];
            let mut mask: u32 = 0;
            let mut i: usize = 0;
            while i < n
                invariant
                    i <= n <= MAX_DPB_SIZE,
                    self@.slots == ready,
                    mask == long_term_mask(ready, i as nat),
                    ref_pocs@ =~= recorded_pocs(ready, i as int),
                decreases n - i,
            {
                let entry = self.entries[i];
                assert(entry == ready[i as int]);
                ref_pocs[i] = entry.pic_order_cnt;
                if entry.marking == MarkingState::LongTerm {
                    mask = mask | (1u32 << i);
                }
                i = i + 1;
            }
            let slot: usize = self.current_slot as usize;
            let mut entry = self.entries[slot];
            entry.state = DpbState::InUse;
            entry.frame_id = info.frame_id;
            entry.pic_order_cnt = info.pic_order_cnt;
            entry.output = info.pic_output_flag;
            entry.corrupted = false;
            entry.temporal_id = info.temporal_id as i32;
            entry.pic_type = info.pic_type;

            // Store reference POCs.
            entry.ref_pic_order_cnt = ref_pocs;
            entry.long_term_ref_pic = mask;
            self.entries[slot] = entry;
            if is_idr {
                self.last_idr_timestamp = info.timestamp;
            }
        }
        self.current_slot
    }

    /// End the current picture: mark it, and let the sliding window drop the
    /// oldest reference if there are too many.
    pub fn picture_end(&mut self, is_reference: bool)
        requires
            old(self)@.well_formed(),
        ensures
            final(self)@.well_formed(),
            final(self)@ == after_picture_end(old(self)@, is_reference),
    {
        if self.current_slot < 0 {
            return ;
        }
        let n: usize = self.max_dpb_size as usize;
        let slot: usize = self.current_slot as usize;

        // For temporal SVC, unmark refs with same temporal ID.
        if self.num_temporal_layers > 1 {
            unmark_layer(&mut self.entries, n, slot);
        }
        self.entries[slot].marking = if is_reference {
            MarkingState::ShortTerm
        } else {
            MarkingState::Unused
        };

        // Apply sliding window to remove oldest reference if we exceed max refs.
        if is_reference {
            slide_window(&mut self.entries, n, slot);
        }
    }

    /// Slot of the current picture, -1 without one.
    pub fn current_slot(&self) -> (slot: i8)
        ensures
            slot == self@.current,
    {
        self.current_slot
    }

    /// Whether every slot holds a picture.
    pub fn is_full(&self) -> (full: bool)
        requires
            self@.well_formed(),
        ensures
            full == all_in_use(self@.slots, self@.size),
    {
        slots_full(&self.entries, self.max_dpb_size as usize)
    }

    /// Whether no slot holds a picture.
    pub fn is_empty(&self) -> (empty: bool)
        requires
            self@.well_formed(),
        ensures
            empty == none_in_use(self@.slots, self@.size),
    {
        slots_empty(&self.entries, self.max_dpb_size as usize)
    }

    /// Take away all markings and output every picture.
    pub fn flush(&mut self)
        requires
            old(self)@.well_formed(),
            can_flush(old(self)@.slots, old(self)@.size),
        ensures
            final(self)@.well_formed(),
            final(self)@ == (DpbModel {
                slots: change_first(
                    old(self)@.slots,
                    old(self)@.size,
                    |e: DpbEntry| flushed(e),
                ),
                ..old(self)@
            }),
            none_in_use(final(self)@.slots, final(self)@.size),
    {
        flush_slots(&mut self.entries, self.max_dpb_size as usize);
    }

    /// Number of short-term references.
    pub fn num_short_term_refs(&self) -> (count: u32)
        requires
            self@.well_formed(),
        ensures
            count == self@.short_term_refs(),
            count <= self@.size,
    {
        count_short_term(&self.entries, self.max_dpb_size as usize)
    }

    /// Number of long-term references.
    pub fn num_long_term_refs(&self) -> (count: u32)
        requires
            self@.well_formed(),
        ensures
            count == self@.long_term_refs(),
            count <= self@.size,
    {
        count_long_term(&self.entries, self.max_dpb_size as usize)
    }
}

} // verus!
