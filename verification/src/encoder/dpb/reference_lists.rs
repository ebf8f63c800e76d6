//! Reference picture list construction and management.

use super::entry::{DpbEntry, DpbState, MarkingState};
use super::select::{
    lemma_present_from, lemma_present_len, lemma_sort_orders, lemma_sort_permutes, present,
    present_upto, sort_by_rank, sort_ranked, unranked,
};
use super::{PictureType, MAX_DPB_SIZE, MAX_REF_LIST_SIZE};
use vstd::prelude::*;

verus! {

/// A reference picture for building reference lists.
#[derive(Debug, Clone, Copy, PartialEq, Eq, Structural)]
pub struct ReferencePicture {
    /// DPB slot index.
    pub dpb_index: i8,
    /// Picture Order Count.
    pub poc: i32,
    /// Frame number.
    pub frame_num: u32,
    /// Whether this is a long-term reference.
    pub is_long_term: bool,
    /// Long-term picture number (if long-term).
    pub long_term_pic_num: i32,
    /// Picture number (short-term).
    pub pic_num: i32,
}

/// The reference picture that stands in unused places of a list.
pub open spec fn no_picture() -> ReferencePicture {
    ReferencePicture {
        dpb_index: -1i8,
        poc: 0,
        frame_num: 0,
        is_long_term: false,
        long_term_pic_num: 0,
        pic_num: 0,
    }
}

impl Default for ReferencePicture {
    fn default() -> (pic: Self)
        ensures
            pic == no_picture(),
    {
        ReferencePicture {
            dpb_index: -1,
            poc: 0,
            frame_num: 0,
            is_long_term: false,
            long_term_pic_num: 0,
            pic_num: 0,
        }
    }
}

/// Reference picture list (L0 or L1).
#[derive(Debug, Clone)]
pub struct ReferenceList {
    /// Reference pictures in this list.
    pub refs: [ReferencePicture; MAX_REF_LIST_SIZE],
    /// Number of active references in this list.
    pub count: u8,
    /// Number of active references minus 1 (for slice header).
    pub num_ref_idx_active_minus1: u8,
}

/// The pictures of `pics` in the first places, no picture in the others.
pub open spec fn filled(pics: Seq<ReferencePicture>) -> Seq<ReferencePicture> {
    Seq::new(
        MAX_REF_LIST_SIZE as nat,
        |i: int|
            if i < pics.len() {
                pics[i]
            } else {
                no_picture()
            },
    )
}

/// As many of the first pictures of `pics` as a list has places.
pub open spec fn capped(pics: Seq<ReferencePicture>) -> Seq<ReferencePicture> {
    if pics.len() > MAX_REF_LIST_SIZE {
        pics.take(MAX_REF_LIST_SIZE as int)
    } else {
        pics
    }
}

impl ReferenceList {
    /// The active references.
    pub open spec fn view(&self) -> Seq<ReferencePicture> {
        self.refs@.take(self.count as int)
    }

    /// The list holds no more references than it has places.
    pub open spec fn well_formed(&self) -> bool {
        self.count <= MAX_REF_LIST_SIZE
    }

    /// The list holds exactly `pics`, and `active_minus1` is its active count.
    pub open spec fn holds(&self, pics: Seq<ReferencePicture>, active_minus1: int) -> bool {
        &&& self.count == pics.len()
        &&& self.refs@ =~= filled(pics)
        &&& self.num_ref_idx_active_minus1 == active_minus1
    }

    /// Create an empty reference list.
    pub fn new() -> (list: Self)
        ensures
            list.well_formed(),
            list.holds(Seq::empty(), 0),
    {
        ReferenceList {
            refs: [ReferencePicture {
                dpb_index: -1,
                poc: 0,
                frame_num: 0,
                is_long_term: false,
                long_term_pic_num: 0,
                pic_num: 0,
            };MAX_REF_LIST_SIZE],
            count: 0,
            num_ref_idx_active_minus1: 0,
        }
    }

    /// Clear the reference list.
    pub fn clear(&mut self)
        ensures
            final(self).well_formed(),
            final(self)@ == Seq::<ReferencePicture>::empty(),
            final(self).count == 0,
            final(self).num_ref_idx_active_minus1 == 0,
            final(self).refs@ == old(self).refs@.map_values(
                |r: ReferencePicture| ReferencePicture { dpb_index: -1i8, ..r },
            ),
    {
        let ghost before = self.refs@;
        self.count = 0;
        self.num_ref_idx_active_minus1 = 0;
        let mut i: usize = 0;
        while i < MAX_REF_LIST_SIZE
            invariant
                i <= MAX_REF_LIST_SIZE,
                self.count == 0,
                self.num_ref_idx_active_minus1 == 0,
                before.len() == MAX_REF_LIST_SIZE,
                forall|j: int|
                    0 <= j < MAX_REF_LIST_SIZE ==> #[trigger] self.refs@[j] == if j < i {
                        ReferencePicture { dpb_index: -1i8, ..before[j] }
                    } else {
                        before[j]
                    },
            decreases MAX_REF_LIST_SIZE - i,
        {
            self.refs[i].dpb_index = -1;
            i = i + 1;
        }
    }

    /// Add a reference to the list; a full list stays as it is.
    pub fn add(&mut self, reference: ReferencePicture)
        ensures
            old(self).count < MAX_REF_LIST_SIZE ==> {
                &&& final(self).refs@ == old(self).refs@.update(old(self).count as int, reference)
                &&& final(self).count == old(self).count + 1
                &&& final(self)@ == old(self)@.push(reference)
                &&& final(self).num_ref_idx_active_minus1 == old(self).num_ref_idx_active_minus1
            },
            old(self).count >= MAX_REF_LIST_SIZE ==> *final(self) == *old(self),
            old(self).well_formed() ==> final(self).well_formed(),
    {
        if (self.count as usize) < MAX_REF_LIST_SIZE {
            self.refs[self.count as usize] = reference;
            self.count += 1;
        }
    }

    /// Get the DPB indices of references in this list.
    pub fn dpb_indices(&self) -> (indices: Vec<i8>)
        requires
            self.well_formed(),
        ensures
            indices@ == self@.map_values(|r: ReferencePicture| r.dpb_index),
    {
        let mut indices: Vec<i8> = Vec::new();
        let mut i: usize = 0;
        while i < self.count as usize
            invariant
                i <= self.count <= MAX_REF_LIST_SIZE,
                indices@ =~= self@.take(i as int).map_values(|r: ReferencePicture| r.dpb_index),
            decreases self.count - i,
        {
            indices.push(self.refs[i].dpb_index);
            i = i + 1;
        }
        assert(self@.take(i as int) =~= self@);
        indices
    }

    /// Check if a DPB index is in this list.
    pub fn contains_dpb_index(&self, dpb_index: i8) -> (found: bool)
        requires
            self.well_formed(),
        ensures
            found <==> exists|i: int| 0 <= i < self.count && (#[trigger] self@[i]).dpb_index == dpb_index,
    {
        let mut i: usize = 0;
        while i < self.count as usize
            invariant
                i <= self.count <= MAX_REF_LIST_SIZE,
                forall|j: int| 0 <= j < i ==> (#[trigger] self@[j]).dpb_index != dpb_index,
            decreases self.count - i,
        {
            if self.refs[i].dpb_index == dpb_index {
                assert(self@[i as int].dpb_index == dpb_index);
                return true;
            }
            i = i + 1;
        }
        false
    }
}

impl Default for ReferenceList {
    fn default() -> (list: Self)
        ensures
            list.well_formed(),
            list.holds(Seq::empty(), 0),
    {
        ReferenceList::new()
    }
}

/// Append `reference` to a list that holds as much of `pics` as fits.
fn append(list: &mut ReferenceList, reference: ReferencePicture, Ghost(pics): Ghost<Seq<ReferencePicture>>)
    requires
        old(list).holds(capped(pics), old(list).num_ref_idx_active_minus1 as int),
    ensures
        final(list).holds(capped(pics.push(reference)), old(list).num_ref_idx_active_minus1 as int),
        final(list).num_ref_idx_active_minus1 == old(list).num_ref_idx_active_minus1,
{
    list.add(reference);
    proof {
        if pics.len() < MAX_REF_LIST_SIZE {
            assert(capped(pics.push(reference)) =~= capped(pics).push(reference));
        } else {
            assert(capped(pics.push(reference)) =~= capped(pics));
        }
    }
}

/// Append sorted pictures to a list.
fn append_all(
    list: &mut ReferenceList,
    pics: &Vec<(i64, ReferencePicture)>,
    Ghost(before): Ghost<Seq<ReferencePicture>>,
)
    requires
        old(list).holds(capped(before), old(list).num_ref_idx_active_minus1 as int),
    ensures
        final(list).holds(
            capped(before + unranked(pics@)),
            old(list).num_ref_idx_active_minus1 as int,
        ),
        final(list).num_ref_idx_active_minus1 == old(list).num_ref_idx_active_minus1,
{
    let ghost minus1 = list.num_ref_idx_active_minus1;
    let mut i: usize = 0;
    assert(before + unranked(pics@).take(0) =~= before);
    while i < pics.len()
        invariant
            i <= pics.len(),
            list.num_ref_idx_active_minus1 == minus1,
            list.holds(capped(before + unranked(pics@).take(i as int)), minus1 as int),
        decreases pics.len() - i,
    {
        let ghost so_far = before + unranked(pics@).take(i as int);
        append(list, pics[i].1, Ghost(so_far));
        assert(so_far.push(pics@[i as int].1) =~= before + unranked(pics@).take(i + 1));
        i = i + 1;
    }
    assert(unranked(pics@).take(i as int) =~= unranked(pics@));
}

/// Number of DPB entries that a size asks for: all of them when the size is
/// negative or larger than the DPB.
pub open spec fn entries_in(dpb_size: i8) -> nat {
    if 0 <= dpb_size <= MAX_DPB_SIZE {
        dpb_size as nat
    } else {
        MAX_DPB_SIZE as nat
    }
}

fn entries_considered(dpb_size: i8) -> (n: usize)
    ensures
        n == entries_in(dpb_size),
        n <= MAX_DPB_SIZE,
{
    if 0 <= dpb_size && dpb_size as usize <= MAX_DPB_SIZE {
        dpb_size as usize
    } else {
        MAX_DPB_SIZE
    }
}

/// The frame, or one of its fields, is a short-term reference.
pub open spec fn any_field_short_term(e: DpbEntry) -> bool {
    &&& e.state == DpbState::InUse
    &&& (e.marking == MarkingState::ShortTerm || e.bottom_field_marking == MarkingState::ShortTerm)
}

/// The frame, or one of its fields, is a long-term reference.
pub open spec fn any_field_long_term(e: DpbEntry) -> bool {
    &&& e.state == DpbState::InUse
    &&& (e.marking == MarkingState::LongTerm || e.bottom_field_marking == MarkingState::LongTerm)
}

/// The signed number with the same 32 bits as `n`.
pub open spec fn as_signed(n: u32) -> int {
    if n < 0x8000_0000 {
        n as int
    } else {
        n - 0x1_0000_0000
    }
}

pub(crate) proof fn lemma_as_signed(n: u32)
    ensures
        (n as i32) as int == as_signed(n),
{
    assert((n as i32) == (if n < 0x8000_0000u32 {
        n as i64
    } else {
        (n as i64 - 0x1_0000_0000i64) as i64
    })) by (bit_vector);
}

/// FrameNumWrap of a reference: a frame number above the current one belongs
/// to the previous round of frame numbers.
pub open spec fn frame_num_wrap(frame_num: u32, current: u32, max_frame_num: u32) -> int {
    if frame_num > current {
        as_signed(frame_num) - as_signed(max_frame_num)
    } else {
        as_signed(frame_num)
    }
}

/// Slot `i` as a short-term reference with picture number `pic_num`.
pub open spec fn short_term_picture(e: DpbEntry, i: int, pic_num: int) -> ReferencePicture {
    ReferencePicture {
        dpb_index: i as i8,
        poc: e.pic_order_cnt,
        frame_num: e.frame_num,
        is_long_term: false,
        long_term_pic_num: 0,
        pic_num: pic_num as i32,
    }
}

/// Slot `i` as a long-term reference.
pub open spec fn long_term_picture(e: DpbEntry, i: int) -> ReferencePicture {
    ReferencePicture {
        dpb_index: i as i8,
        poc: e.pic_order_cnt,
        frame_num: e.frame_num,
        is_long_term: true,
        long_term_pic_num: e.long_term_frame_idx,
        pic_num: 0,
    }
}

/// Short-term references for a P-frame, ranked by descending picture number.
pub open spec fn p_short_term(dpb: Seq<DpbEntry>, n: nat, current: u32, max_frame_num: u32) -> Seq<
    Option<(i64, ReferencePicture)>,
> {
    Seq::new(
        n,
        |i: int|
            if any_field_short_term(dpb[i]) {
                let num = frame_num_wrap(dpb[i].frame_num, current, max_frame_num);
                Some(((-num) as i64, short_term_picture(dpb[i], i, num)))
            } else {
                None
            },
    )
}

/// Long-term references, ranked by ascending long-term picture number.
pub open spec fn ranked_long_term(dpb: Seq<DpbEntry>, n: nat) -> Seq<
    Option<(i64, ReferencePicture)>,
> {
    Seq::new(
        n,
        |i: int|
            if any_field_long_term(dpb[i]) {
                Some((dpb[i].long_term_frame_idx as i64, long_term_picture(dpb[i], i)))
            } else {
                None
            },
    )
}

/// Short-term references before `poc`, ranked by descending POC.
pub open spec fn b_before(dpb: Seq<DpbEntry>, n: nat, poc: i32) -> Seq<
    Option<(i64, ReferencePicture)>,
> {
    Seq::new(
        n,
        |i: int|
            if any_field_short_term(dpb[i]) && dpb[i].pic_order_cnt < poc {
                Some(
                    (
                        (-dpb[i].pic_order_cnt) as i64,
                        short_term_picture(dpb[i], i, dpb[i].top_pic_num as int),
                    ),
                )
            } else {
                None
            },
    )
}

/// Short-term references after `poc`, ranked by ascending POC.
pub open spec fn b_after(dpb: Seq<DpbEntry>, n: nat, poc: i32) -> Seq<
    Option<(i64, ReferencePicture)>,
> {
    Seq::new(
        n,
        |i: int|
            if any_field_short_term(dpb[i]) && dpb[i].pic_order_cnt > poc {
                Some(
                    (
                        dpb[i].pic_order_cnt as i64,
                        short_term_picture(dpb[i], i, dpb[i].top_pic_num as int),
                    ),
                )
            } else {
                None
            },
    )
}

/// The ranked references that are present, in order of rank.
pub open spec fn in_rank_order(items: Seq<Option<(i64, ReferencePicture)>>) -> Seq<
    ReferencePicture,
> {
    unranked(sort_ranked(present(items)))
}

/// L0 of a P-frame: short-term references by descending PicNum, then long-term
/// references by ascending LongTermPicNum.
pub open spec fn p_frame_list(
    dpb: Seq<DpbEntry>,
    dpb_size: i8,
    current: u32,
    max_frame_num: u32,
) -> Seq<ReferencePicture> {
    let n = entries_in(dpb_size);
    in_rank_order(p_short_term(dpb, n, current, max_frame_num)) + in_rank_order(
        ranked_long_term(dpb, n),
    )
}

/// L0 of a B-frame: references before the picture, nearest first, then those
/// after it, nearest first, then long-term references.
pub open spec fn b_frame_list0(dpb: Seq<DpbEntry>, dpb_size: i8, poc: i32) -> Seq<
    ReferencePicture,
> {
    let n = entries_in(dpb_size);
    in_rank_order(b_before(dpb, n, poc)) + in_rank_order(b_after(dpb, n, poc)) + in_rank_order(
        ranked_long_term(dpb, n),
    )
}

/// L1 of a B-frame before the first two entries may be swapped: references
/// after the picture, then those before it, then long-term references.
pub open spec fn b_frame_list1(dpb: Seq<DpbEntry>, dpb_size: i8, poc: i32) -> Seq<
    ReferencePicture,
> {
    let n = entries_in(dpb_size);
    in_rank_order(b_after(dpb, n, poc)) + in_rank_order(b_before(dpb, n, poc)) + in_rank_order(
        ranked_long_term(dpb, n),
    )
}

/// The two lists name the same DPB slots in the same order.
pub open spec fn same_slots(a: Seq<ReferencePicture>, b: Seq<ReferencePicture>) -> bool {
    &&& a.len() == b.len()
    &&& forall|i: int| 0 <= i < a.len() ==> (#[trigger] a[i]).dpb_index == b[i].dpb_index
}

/// `s` with its first two entries exchanged.
pub open spec fn first_two_swapped(s: Seq<ReferencePicture>) -> Seq<ReferencePicture> {
    s.update(0, s[1]).update(1, s[0])
}

/// Index of the last of `len` references, 0 without any.
pub open spec fn last_index(len: nat) -> int {
    if len > 0 {
        len - 1
    } else {
        0
    }
}

proof fn lemma_rank_order_len(items: Seq<Option<(i64, ReferencePicture)>>)
    ensures
        in_rank_order(items).len() <= items.len(),
{
    lemma_present_len(items, items.len());
    lemma_sort_permutes(present(items));
}

/// Reference list builder for H.264.
pub struct H264ReferenceListBuilder;

impl H264ReferenceListBuilder {
    /// Initialize reference picture list for P-frames (L0 only).
    ///
    /// For P-frames, L0 is initialized with short-term references sorted by
    /// descending PicNum, followed by long-term references sorted by ascending
    /// LongTermPicNum.
    pub fn init_ref_list_p_frame(
        dpb: &[DpbEntry; MAX_DPB_SIZE],
        dpb_size: i8,
        current_frame_num: u32,
        max_frame_num: u32,
    ) -> (list: ReferenceList)
        requires
            forall|i: int|
                0 <= i < entries_in(dpb_size) && any_field_short_term(#[trigger] dpb@[i])
                    ==> i32::MIN <= frame_num_wrap(
                    dpb@[i].frame_num,
                    current_frame_num,
                    max_frame_num,
                ) <= i32::MAX,
        ensures
            list.well_formed(),
            list.holds(
                p_frame_list(dpb@, dpb_size, current_frame_num, max_frame_num),
                last_index(p_frame_list(dpb@, dpb_size, current_frame_num, max_frame_num).len()),
            ),
    {
        let mut list = ReferenceList::new();
        let mut short_term_refs: Vec<(i64, ReferencePicture)> = Vec::new();
        let mut long_term_refs: Vec<(i64, ReferencePicture)> = Vec::new();
        let n: usize = entries_considered(dpb_size);
        let ghost st = p_short_term(dpb@, n as nat, current_frame_num, max_frame_num);
        let ghost lt = ranked_long_term(dpb@, n as nat);

        // Collect short-term and long-term references.
        let mut i: usize = 0;
        while i < n
            invariant
                i <= n <= MAX_DPB_SIZE,
                n == entries_in(dpb_size),
                st == p_short_term(dpb@, n as nat, current_frame_num, max_frame_num),
                lt == ranked_long_term(dpb@, n as nat),
                short_term_refs@ == present_upto(st, i as nat),
                long_term_refs@ == present_upto(lt, i as nat),
                forall|i: int|
                    0 <= i < entries_in(dpb_size) && any_field_short_term(#[trigger] dpb@[i])
                        ==> i32::MIN <= frame_num_wrap(
                        dpb@[i].frame_num,
                        current_frame_num,
                        max_frame_num,
                    ) <= i32::MAX,
            decreases n - i,
        {
            let entry = dpb[i];
            if entry.state == DpbState::InUse {
                if entry.marking == MarkingState::ShortTerm || entry.bottom_field_marking
                    == MarkingState::ShortTerm {
                    proof {
                        lemma_as_signed(entry.frame_num);
                        lemma_as_signed(max_frame_num);
                        assert(any_field_short_term(dpb@[i as int]));
                    }
                    let wrap: i32 = if entry.frame_num > current_frame_num {
                        entry.frame_num as i32 - max_frame_num as i32
                    } else {
                        entry.frame_num as i32
                    };
                    short_term_refs.push(
                        (
                            -(wrap as i64),
                            ReferencePicture {
                                dpb_index: i as i8,
                                poc: entry.pic_order_cnt,
                                frame_num: entry.frame_num,
                                is_long_term: false,
                                long_term_pic_num: 0,
                                pic_num: wrap,
                            },
                        ),
                    );
                }
                if entry.marking == MarkingState::LongTerm || entry.bottom_field_marking
                    == MarkingState::LongTerm {
                    long_term_refs.push(
                        (
                            entry.long_term_frame_idx as i64,
                            ReferencePicture {
                                dpb_index: i as i8,
                                poc: entry.pic_order_cnt,
                                frame_num: entry.frame_num,
                                is_long_term: true,
                                long_term_pic_num: entry.long_term_frame_idx,
                                pic_num: 0,
                            },
                        ),
                    );
                }
            }
            i = i + 1;
        }

        // Sort short-term by descending PicNum, long-term by ascending LongTermPicNum.
        let short_term_refs = sort_by_rank(&short_term_refs);
        let long_term_refs = sort_by_rank(&long_term_refs);
        let ghost shorts = in_rank_order(st);
        let ghost longs = in_rank_order(lt);
        proof {
            lemma_rank_order_len(st);
            lemma_rank_order_len(lt);
        }

        // Build L0: short-term first, then long-term.
        append_all(&mut list, &short_term_refs, Ghost(Seq::empty()));
        assert(Seq::<ReferencePicture>::empty() + shorts =~= shorts);
        append_all(&mut list, &long_term_refs, Ghost(shorts));

        if list.count > 0 {
            list.num_ref_idx_active_minus1 = list.count - 1;
        }
        list
    }

    /// Initialize reference picture lists for B-frames (L0 and L1).
    ///
    /// For B-frames:
    /// - L0: Short-term refs with POC < current sorted by descending POC,
    ///   then POC > current sorted by ascending POC, then long-term refs.
    /// - L1: Short-term refs with POC > current sorted by ascending POC,
    ///   then POC < current sorted by descending POC, then long-term refs.
    ///
    /// When both lists come out the same and have more than one entry, the
    /// first two entries of L1 are swapped.
    pub fn init_ref_lists_b_frame(
        dpb: &[DpbEntry; MAX_DPB_SIZE],
        dpb_size: i8,
        current_poc: i32,
    ) -> (lists: (ReferenceList, ReferenceList))
        ensures
            lists.0.well_formed(),
            lists.1.well_formed(),
            ({
                let l0 = b_frame_list0(dpb@, dpb_size, current_poc);
                let l1 = b_frame_list1(dpb@, dpb_size, current_poc);
                &&& lists.0.holds(l0, last_index(l0.len()))
                &&& lists.1.holds(
                    if l0.len() > 1 && same_slots(l0, l1) {
                        first_two_swapped(l1)
                    } else {
                        l1
                    },
                    last_index(l1.len()),
                )
            }),
            lists.1.holds(
                b_frame_second_list(dpb@, dpb_size, current_poc),
                last_index(b_frame_second_list(dpb@, dpb_size, current_poc).len()),
            ),
    {
        let mut list0 = ReferenceList::new();
        let mut list1 = ReferenceList::new();
        let mut refs_before: Vec<(i64, ReferencePicture)> = Vec::new();
        let mut refs_after: Vec<(i64, ReferencePicture)> = Vec::new();
        let mut long_term_refs: Vec<(i64, ReferencePicture)> = Vec::new();
        let n: usize = entries_considered(dpb_size);
        let ghost before = b_before(dpb@, n as nat, current_poc);
        let ghost after = b_after(dpb@, n as nat, current_poc);
        let ghost lt = ranked_long_term(dpb@, n as nat);

        // Collect references categorized by POC.
        let mut i: usize = 0;
        while i < n
            invariant
                i <= n <= MAX_DPB_SIZE,
                n == entries_in(dpb_size),
                before == b_before(dpb@, n as nat, current_poc),
                after == b_after(dpb@, n as nat, current_poc),
                lt == ranked_long_term(dpb@, n as nat),
                refs_before@ == present_upto(before, i as nat),
                refs_after@ == present_upto(after, i as nat),
                long_term_refs@ == present_upto(lt, i as nat),
            decreases n - i,
        {
            let entry = dpb[i];
            if entry.state == DpbState::InUse {
                if entry.marking == MarkingState::ShortTerm || entry.bottom_field_marking
                    == MarkingState::ShortTerm {
                    let ref_pic = ReferencePicture {
                        dpb_index: i as i8,
                        poc: entry.pic_order_cnt,
                        frame_num: entry.frame_num,
                        is_long_term: false,
                        long_term_pic_num: 0,
                        pic_num: entry.top_pic_num,
                    };
                    if entry.pic_order_cnt < current_poc {
                        refs_before.push((-(entry.pic_order_cnt as i64), ref_pic));
                    } else if entry.pic_order_cnt > current_poc {
                        refs_after.push((entry.pic_order_cnt as i64, ref_pic));
                    }
                }
                if entry.marking == MarkingState::LongTerm || entry.bottom_field_marking
                    == MarkingState::LongTerm {
                    long_term_refs.push(
                        (
                            entry.long_term_frame_idx as i64,
                            ReferencePicture {
                                dpb_index: i as i8,
                                poc: entry.pic_order_cnt,
                                frame_num: entry.frame_num,
                                is_long_term: true,
                                long_term_pic_num: entry.long_term_frame_idx,
                                pic_num: 0,
                            },
                        ),
                    );
                }
            }
            i = i + 1;
        }

        // Closest to the current picture first.
        let refs_before = sort_by_rank(&refs_before);
        let refs_after = sort_by_rank(&refs_after);
        let long_term_refs = sort_by_rank(&long_term_refs);
        let ghost bs = in_rank_order(before);
        let ghost afs = in_rank_order(after);
        let ghost lts = in_rank_order(lt);
        proof {
            lemma_rank_order_len(before);
            lemma_rank_order_len(after);
            lemma_rank_order_len(lt);
            lemma_before_after_len(dpb@, n as nat, current_poc, n as nat);
            lemma_sort_permutes(present(before));
            lemma_sort_permutes(present(after));
            assert(Seq::<ReferencePicture>::empty() + bs =~= bs);
            assert(Seq::<ReferencePicture>::empty() + afs =~= afs);
        }

        // Build L0: refs_before, refs_after, long_term.
        append_all(&mut list0, &refs_before, Ghost(Seq::empty()));
        append_all(&mut list0, &refs_after, Ghost(bs));
        append_all(&mut list0, &long_term_refs, Ghost(bs + afs));

        // Build L1: refs_after, refs_before, long_term.
        append_all(&mut list1, &refs_after, Ghost(Seq::empty()));
        append_all(&mut list1, &refs_before, Ghost(afs));
        append_all(&mut list1, &long_term_refs, Ghost(afs + bs));

        let ghost l0 = bs + afs + lts;
        let ghost l1 = afs + bs + lts;
        assert(list0.holds(l0, 0));
        assert(list1.holds(l1, 0));

        if list0.count > 0 {
            list0.num_ref_idx_active_minus1 = list0.count.saturating_sub(1);
        }
        if list1.count > 0 {
            list1.num_ref_idx_active_minus1 = list1.count.saturating_sub(1);
        }

        // If L0 and L1 have same entries in same order, swap first two in L1.
        if list0.count > 1 && list1.count > 1 && list0.count == list1.count
            && Self::lists_identical(&list0, &list1) {
            assert(same_slots(l0, l1)) by {
                assert forall|i: int| 0 <= i < l0.len() implies (#[trigger] l0[i]).dpb_index
                    == l1[i].dpb_index by {
                    assert(list0@[i] == l0[i]);
                    assert(list1@[i] == l1[i]);
                }
            }
            let first = list1.refs[0];
            let second = list1.refs[1];
            list1.refs[0] = second;
            list1.refs[1] = first;
        } else {
            proof {
                if l0.len() > 1 && same_slots(l0, l1) {
                    assert forall|i: int| 0 <= i < list0@.len() implies (
                    #[trigger] list0@[i]).dpb_index == list1@[i].dpb_index by {
                        assert(list0@[i] == l0[i]);
                        assert(list1@[i] == l1[i]);
                    }
                }
            }
        }
        (list0, list1)
    }

    /// Check if two reference lists have identical entries.
    fn lists_identical(l0: &ReferenceList, l1: &ReferenceList) -> (identical: bool)
        requires
            l0.well_formed(),
            l1.well_formed(),
        ensures
            identical == same_slots(l0@, l1@),
    {
        if l0.count != l1.count {
            return false;
        }
        let mut i: usize = 0;
        while i < l0.count as usize
            invariant
                i <= l0.count <= MAX_REF_LIST_SIZE,
                l0.count == l1.count,
                forall|j: int| 0 <= j < i ==> (#[trigger] l0@[j]).dpb_index == l1@[j].dpb_index,
            decreases l0.count - i,
        {
            if l0.refs[i].dpb_index != l1.refs[i].dpb_index {
                assert(l0@[i as int].dpb_index != l1@[i as int].dpb_index);
                return false;
            }
            i = i + 1;
        }
        true
    }
}

proof fn lemma_before_after_len(dpb: Seq<DpbEntry>, n: nat, poc: i32, k: nat)
    requires
        k <= n,
    ensures
        present_upto(b_before(dpb, n, poc), k).len() + present_upto(
            b_after(dpb, n, poc),
            k,
        ).len() <= k,
    decreases k,
{
    if k > 0 {
        lemma_before_after_len(dpb, n, poc, (k - 1) as nat);
    }
}


proof fn lemma_rank_order_member(items: Seq<Option<(i64, ReferencePicture)>>, k: int)
    requires
        0 <= k < sort_ranked(present(items)).len(),
    ensures
        exists|i: int|
            0 <= i < items.len() && #[trigger] items[i] == Some(sort_ranked(present(items))[k]),
{
    broadcast use vstd::seq_lib::group_to_multiset_ensures;

    let sorted = sort_ranked(present(items));
    lemma_sort_permutes(present(items));
    assert(sorted.contains(sorted[k]));
    assert(sorted.to_multiset().contains(sorted[k]));
    assert(present(items).contains(sorted[k]));
    let j = choose|j: int| 0 <= j < present(items).len() && present(items)[j] == sorted[k];
    lemma_present_from(items, items.len(), j);
}

/// In L0 of a P-frame the short-term references come first, by descending
/// PicNum, and then the long-term references, by ascending LongTermPicNum.
pub proof fn law_p_frame_list_order(
    dpb: Seq<DpbEntry>,
    dpb_size: i8,
    current: u32,
    max_frame_num: u32,
)
    requires
        forall|i: int|
            0 <= i < entries_in(dpb_size) && any_field_short_term(#[trigger] dpb[i])
                ==> i32::MIN <= frame_num_wrap(dpb[i].frame_num, current, max_frame_num)
                <= i32::MAX,
    ensures
        ({
            let list = p_frame_list(dpb, dpb_size, current, max_frame_num);
            &&& forall|i: int, j: int|
                0 <= i < j < list.len() && (#[trigger] list[i]).is_long_term ==> (
                #[trigger] list[j]).is_long_term && list[i].long_term_pic_num
                    <= list[j].long_term_pic_num
            &&& forall|i: int, j: int|
                0 <= i < j < list.len() && !(#[trigger] list[j]).is_long_term ==> !(
                #[trigger] list[i]).is_long_term && list[i].pic_num >= list[j].pic_num
        }),
{
    let n = entries_in(dpb_size);
    let st = p_short_term(dpb, n, current, max_frame_num);
    let lt = ranked_long_term(dpb, n);
    let shorts = sort_ranked(present(st));
    let longs = sort_ranked(present(lt));
    lemma_sort_orders(present(st));
    lemma_sort_orders(present(lt));
    assert forall|k: int| 0 <= k < shorts.len() implies !(#[trigger] shorts[k]).1.is_long_term
        && shorts[k].0 == -shorts[k].1.pic_num by {
        lemma_rank_order_member(st, k);
    }
    assert forall|k: int| 0 <= k < longs.len() implies (#[trigger] longs[k]).1.is_long_term
        && longs[k].0 == longs[k].1.long_term_pic_num by {
        lemma_rank_order_member(lt, k);
    }
    let list = p_frame_list(dpb, dpb_size, current, max_frame_num);
    assert forall|k: int| 0 <= k < list.len() implies #[trigger] list[k] == if k < shorts.len() {
        shorts[k].1
    } else {
        longs[k - shorts.len()].1
    } by {}
}

/// Each reference of a B-frame stands in both lists equally often.
pub proof fn law_b_frame_lists_hold_the_same(dpb: Seq<DpbEntry>, dpb_size: i8, poc: i32)
    ensures
        b_frame_list0(dpb, dpb_size, poc).to_multiset() == b_frame_list1(
            dpb,
            dpb_size,
            poc,
        ).to_multiset(),
        b_frame_list0(dpb, dpb_size, poc).len() > 1 ==> first_two_swapped(
            b_frame_list1(dpb, dpb_size, poc),
        ).to_multiset() == b_frame_list0(dpb, dpb_size, poc).to_multiset(),
{
    broadcast use vstd::seq_lib::group_to_multiset_ensures;

    let n = entries_in(dpb_size);
    let b = in_rank_order(b_before(dpb, n, poc));
    let a = in_rank_order(b_after(dpb, n, poc));
    let l = in_rank_order(ranked_long_term(dpb, n));
    vstd::seq_lib::lemma_multiset_commutative(b, a);
    vstd::seq_lib::lemma_multiset_commutative(a, b);
    vstd::seq_lib::lemma_multiset_commutative(b + a, l);
    vstd::seq_lib::lemma_multiset_commutative(a + b, l);
    assert((b + a).to_multiset() =~= (a + b).to_multiset());
    let l1 = b_frame_list1(dpb, dpb_size, poc);
    if l1.len() > 1 {
        lemma_swap_permutes(l1);
    }
}

proof fn lemma_swap_permutes(s: Seq<ReferencePicture>)
    requires
        s.len() > 1,
    ensures
        first_two_swapped(s).to_multiset() == s.to_multiset(),
{
    broadcast use vstd::seq_lib::group_to_multiset_ensures;

    let rest = s.skip(2);
    let x = seq![s[0]];
    let y = seq![s[1]];
    assert(s =~= (x + y) + rest);
    assert(first_two_swapped(s) =~= (y + x) + rest);
    vstd::seq_lib::lemma_multiset_commutative(x, y);
    vstd::seq_lib::lemma_multiset_commutative(y, x);
    vstd::seq_lib::lemma_multiset_commutative(x + y, rest);
    vstd::seq_lib::lemma_multiset_commutative(y + x, rest);
    assert((x + y).to_multiset() =~= (y + x).to_multiset());
}

/// In L0 of a B-frame the references before the picture come first, nearest
/// first, then those after it, nearest first, then the long-term references.
pub proof fn law_b_frame_list0_order(dpb: Seq<DpbEntry>, dpb_size: i8, poc: i32)
    ensures
        ({
            let list = b_frame_list0(dpb, dpb_size, poc);
            forall|i: int, j: int| 0 <= i < j < list.len() ==> nearer_before_first(
                #[trigger] list[i],
                #[trigger] list[j],
                poc,
            )
        }),
{
    lemma_b_frame_parts(dpb, dpb_size, poc);
}

/// In L1 of a B-frame, before any swap, the references after the picture come
/// first, nearest first, then those before it, nearest first, then the
/// long-term references.
pub proof fn law_b_frame_list1_order(dpb: Seq<DpbEntry>, dpb_size: i8, poc: i32)
    ensures
        ({
            let list = b_frame_list1(dpb, dpb_size, poc);
            forall|i: int, j: int| 0 <= i < j < list.len() ==> nearer_after_first(
                #[trigger] list[i],
                #[trigger] list[j],
                poc,
            )
        }),
{
    lemma_b_frame_parts(dpb, dpb_size, poc);
}

/// `a` may stand before `b` in L0 of a picture at `poc`.
pub open spec fn nearer_before_first(a: ReferencePicture, b: ReferencePicture, poc: i32) -> bool {
    if a.is_long_term {
        b.is_long_term && a.long_term_pic_num <= b.long_term_pic_num
    } else if b.is_long_term {
        true
    } else if a.poc < poc {
        b.poc <= a.poc || b.poc > poc
    } else {
        poc < a.poc <= b.poc
    }
}

/// `a` may stand before `b` in L1 of a picture at `poc`.
pub open spec fn nearer_after_first(a: ReferencePicture, b: ReferencePicture, poc: i32) -> bool {
    if a.is_long_term {
        b.is_long_term && a.long_term_pic_num <= b.long_term_pic_num
    } else if b.is_long_term {
        true
    } else if a.poc > poc {
        a.poc <= b.poc || b.poc < poc
    } else {
        b.poc <= a.poc < poc
    }
}

proof fn lemma_b_frame_parts(dpb: Seq<DpbEntry>, dpb_size: i8, poc: i32)
    ensures
        ({
            let n = entries_in(dpb_size);
            let b = in_rank_order(b_before(dpb, n, poc));
            let a = in_rank_order(b_after(dpb, n, poc));
            let l = in_rank_order(ranked_long_term(dpb, n));
            &&& forall|i: int|
                0 <= i < b.len() ==> !(#[trigger] b[i]).is_long_term && b[i].poc < poc
            &&& forall|i: int|
                0 <= i < a.len() ==> !(#[trigger] a[i]).is_long_term && a[i].poc > poc
            &&& forall|i: int| 0 <= i < l.len() ==> (#[trigger] l[i]).is_long_term
            &&& forall|i: int, j: int|
                0 <= i < j < b.len() ==> (#[trigger] b[i]).poc >= (#[trigger] b[j]).poc
            &&& forall|i: int, j: int|
                0 <= i < j < a.len() ==> (#[trigger] a[i]).poc <= (#[trigger] a[j]).poc
            &&& forall|i: int, j: int|
                0 <= i < j < l.len() ==> (#[trigger] l[i]).long_term_pic_num <= (
                #[trigger] l[j]).long_term_pic_num
        }),
{
    let n = entries_in(dpb_size);
    let before = b_before(dpb, n, poc);
    let after = b_after(dpb, n, poc);
    let lt = ranked_long_term(dpb, n);
    lemma_sort_orders(present(before));
    lemma_sort_orders(present(after));
    lemma_sort_orders(present(lt));
    let b = sort_ranked(present(before));
    let a = sort_ranked(present(after));
    let l = sort_ranked(present(lt));
    assert forall|k: int| 0 <= k < b.len() implies !(#[trigger] b[k]).1.is_long_term && b[k].1.poc
        < poc && b[k].0 == -b[k].1.poc by {
        lemma_rank_order_member(before, k);
    }
    assert forall|k: int| 0 <= k < a.len() implies !(#[trigger] a[k]).1.is_long_term && a[k].1.poc
        > poc && a[k].0 == a[k].1.poc by {
        lemma_rank_order_member(after, k);
    }
    assert forall|k: int| 0 <= k < l.len() implies (#[trigger] l[k]).1.is_long_term && l[k].0
        == l[k].1.long_term_pic_num by {
        lemma_rank_order_member(lt, k);
    }
}

/// A slot and whether it is referred to as a long-term reference.
pub open spec fn slot_candidate(slot: i8, is_long_term: bool) -> Option<(i8, bool)> {
    if slot >= 0 {
        Some((slot, is_long_term))
    } else {
        None
    }
}

/// The slots of a reference picture set that hold a picture.
pub open spec fn slots_present(slots: Seq<i8>, is_long_term: bool) -> Seq<(i8, bool)> {
    present(slots.map_values(|x: i8| slot_candidate(x, is_long_term)))
}

/// References in the order of `first`, `second`, then the long-term ones.
pub open spec fn rps_candidates(first: Seq<i8>, second: Seq<i8>, lt: Seq<i8>) -> Seq<(i8, bool)> {
    slots_present(first, false) + slots_present(second, false) + slots_present(lt, true)
}

/// A list reaches slot `slot` of a DPB of this size; a negative size admits
/// every slot.
pub open spec fn slot_admitted(dpb_size: i8, slot: i8) -> bool {
    dpb_size < 0 || slot < dpb_size
}

/// The list entry of a candidate.
pub open spec fn candidate_picture(dpb: Seq<DpbEntry>, c: (i8, bool)) -> ReferencePicture {
    let e = dpb[c.0 as int];
    if c.1 {
        long_term_picture(e, c.0 as int)
    } else {
        short_term_picture(e, c.0 as int, e.top_pic_num as int)
    }
}

/// The first `n` candidates, starting over after the last one, without those
/// outside the DPB.
pub open spec fn listed(dpb: Seq<DpbEntry>, dpb_size: i8, cands: Seq<(i8, bool)>, n: nat) -> Seq<
    ReferencePicture,
>
    decreases n,
{
    if n == 0 {
        Seq::empty()
    } else {
        let before = listed(dpb, dpb_size, cands, (n - 1) as nat);
        let c = cands[(n - 1) % (cands.len() as int)];
        if slot_admitted(dpb_size, c.0) {
            before.push(candidate_picture(dpb, c))
        } else {
            before
        }
    }
}

/// Active count minus 1 that a list asks for, limited to the references at
/// hand if `limited`.
pub open spec fn active_minus1(num_ref: u32, limited: bool, available: nat) -> int {
    let asked = if num_ref > 0 {
        (num_ref - 1) % 256
    } else {
        0
    };
    if limited && asked + 1 > available {
        last_index(available) % 256
    } else {
        asked
    }
}

/// Number of candidates that go into a list.
pub open spec fn list_length(minus1: int, total: nat) -> nat {
    if minus1 + 1 > total {
        (minus1 + 1) as nat
    } else {
        total
    }
}

/// L0 of an H.265 picture.
pub open spec fn h265_list0(
    dpb: Seq<DpbEntry>,
    dpb_size: i8,
    pic_type: PictureType,
    cands: Seq<(i8, bool)>,
    minus1: int,
) -> Seq<ReferencePicture> {
    if pic_type == PictureType::P || pic_type == PictureType::B {
        capped(listed(dpb, dpb_size, cands, list_length(minus1, cands.len())))
    } else {
        Seq::empty()
    }
}

/// L1 of an H.265 picture.
pub open spec fn h265_list1(
    dpb: Seq<DpbEntry>,
    dpb_size: i8,
    pic_type: PictureType,
    cands: Seq<(i8, bool)>,
    minus1: int,
) -> Seq<ReferencePicture> {
    if pic_type == PictureType::B {
        capped(listed(dpb, dpb_size, cands, list_length(minus1, cands.len())))
    } else {
        Seq::empty()
    }
}

/// Where every candidate lies inside the DPB, the list repeats the candidates
/// in order until it is long enough.
pub proof fn lemma_listed_repeats(
    dpb: Seq<DpbEntry>,
    dpb_size: i8,
    cands: Seq<(i8, bool)>,
    n: nat,
)
    requires
        forall|i: int| 0 <= i < cands.len() ==> slot_admitted(dpb_size, (#[trigger] cands[i]).0),
        n > 0 ==> cands.len() > 0,
    ensures
        listed(dpb, dpb_size, cands, n) == Seq::new(
            n,
            |r: int| candidate_picture(dpb, cands[r % (cands.len() as int)]),
        ),
    decreases n,
{
    if n > 0 {
        lemma_listed_repeats(dpb, dpb_size, cands, (n - 1) as nat);
        let k = (n - 1) % (cands.len() as int);
        assert(0 <= k < cands.len());
        assert(slot_admitted(dpb_size, cands[k].0));
    }
    assert(listed(dpb, dpb_size, cands, n) =~= Seq::new(
        n,
        |r: int| candidate_picture(dpb, cands[r % (cands.len() as int)]),
    ));
}

/// Append the slots that hold a picture to `out`.
fn collect_slots(out: &mut Vec<(i8, bool)>, slots: &[i8], is_long_term: bool) -> (added: usize)
    ensures
        final(out)@ == old(out)@ + slots_present(slots@, is_long_term),
        added == slots_present(slots@, is_long_term).len(),
        added <= slots@.len(),
{
    let ghost before = out@;
    let ghost items = slots@.map_values(|x: i8| slot_candidate(x, is_long_term));
    let mut added: usize = 0;
    let mut i: usize = 0;
    assert(before + present_upto(items, 0) =~= before);
    while i < slots.len()
        invariant
            i <= slots@.len(),
            added <= i,
            items == slots@.map_values(|x: i8| slot_candidate(x, is_long_term)),
            out@ == before + present_upto(items, i as nat),
            added == present_upto(items, i as nat).len(),
        decreases slots@.len() - i,
    {
        if slots[i] >= 0 {
            out.push((slots[i], is_long_term));
            added = added + 1;
            assert(out@ =~= before + present_upto(items, (i + 1) as nat));
        }
        i = i + 1;
    }
    added
}

/// Fill a list from candidates.
fn fill_list(
    list: &mut ReferenceList,
    dpb: &[DpbEntry; MAX_DPB_SIZE],
    dpb_size: i8,
    cands: &Vec<(i8, bool)>,
)
    requires
        old(list).holds(Seq::empty(), old(list).num_ref_idx_active_minus1 as int),
        cands@.len() > 0,
        forall|i: int|
            0 <= i < cands@.len() ==> (#[trigger] cands@[i]).0 >= 0 && (slot_admitted(
                dpb_size,
                cands@[i].0,
            ) ==> cands@[i].0 < MAX_DPB_SIZE),
    ensures
        final(list).holds(
            capped(
                listed(
                    dpb@,
                    dpb_size,
                    cands@,
                    list_length(old(list).num_ref_idx_active_minus1 as int, cands@.len()),
                ),
            ),
            old(list).num_ref_idx_active_minus1 as int,
        ),
        final(list).num_ref_idx_active_minus1 == old(list).num_ref_idx_active_minus1,
{
    let minus1: u8 = list.num_ref_idx_active_minus1;
    let total: usize = cands.len();
    let wanted: usize = if minus1 as usize + 1 > total {
        minus1 as usize + 1
    } else {
        total
    };
    let mut r_idx: usize = 0;
    let mut next: usize = 0;
    assert(capped(listed(dpb@, dpb_size, cands@, 0)) =~= Seq::empty());
    while r_idx < wanted
        invariant
            r_idx <= wanted,
            wanted == list_length(minus1 as int, cands@.len()),
            total == cands@.len(),
            total > 0,
            next < total,
            next as int == r_idx as int % (total as int),
            list.num_ref_idx_active_minus1 == minus1,
            list.holds(capped(listed(dpb@, dpb_size, cands@, r_idx as nat)), minus1 as int),
            forall|i: int|
                0 <= i < cands@.len() ==> (#[trigger] cands@[i]).0 >= 0 && (slot_admitted(
                    dpb_size,
                    cands@[i].0,
                ) ==> cands@[i].0 < MAX_DPB_SIZE),
        decreases wanted - r_idx,
    {
        let c = cands[next];
        if dpb_size < 0 || c.0 < dpb_size {
            assert(slot_admitted(dpb_size, cands@[next as int].0));
            let entry = dpb[c.0 as usize];
            let pic = if c.1 {
                ReferencePicture {
                    dpb_index: c.0,
                    poc: entry.pic_order_cnt,
                    frame_num: entry.frame_num,
                    is_long_term: true,
                    long_term_pic_num: entry.long_term_frame_idx,
                    pic_num: 0,
                }
            } else {
                ReferencePicture {
                    dpb_index: c.0,
                    poc: entry.pic_order_cnt,
                    frame_num: entry.frame_num,
                    is_long_term: false,
                    long_term_pic_num: 0,
                    pic_num: entry.top_pic_num,
                }
            };
            append(list, pic, Ghost(listed(dpb@, dpb_size, cands@, r_idx as nat)));
        }
        proof {
            lemma_mod_step(r_idx as int, total as int);
        }
        r_idx = r_idx + 1;
        next = if next + 1 == total {
            0
        } else {
            next + 1
        };
    }
}

proof fn lemma_mod_step(r: int, m: int)
    requires
        r >= 0,
        m > 0,
    ensures
        (r + 1) % m == if r % m + 1 == m {
            0
        } else {
            r % m + 1
        },
{
    let q = r / m;
    let x = r % m;
    vstd::arithmetic::div_mod::lemma_fundamental_div_mod(r, m);
    if x + 1 == m {
        assert(r + 1 == (q + 1) * m + 0) by (nonlinear_arith)
            requires
                r == m * q + x,
                x + 1 == m,
        ;
        vstd::arithmetic::div_mod::lemma_fundamental_div_mod_converse(r + 1, m, q + 1, 0);
    } else {
        assert(r + 1 == q * m + (x + 1)) by (nonlinear_arith)
            requires
                r == m * q + x,
        ;
        vstd::arithmetic::div_mod::lemma_fundamental_div_mod_converse(r + 1, m, q, x + 1);
    }
}

/// Every candidate names a slot that holds a picture, from one of the slots
/// that were given.
proof fn lemma_slots_present(slots: Seq<i8>, is_long_term: bool)
    ensures
        forall|k: int|
            0 <= k < slots_present(slots, is_long_term).len() ==> (#[trigger] slots_present(
                slots,
                is_long_term,
            )[k]).0 >= 0 && slots.contains(slots_present(slots, is_long_term)[k].0),
{
    let items = slots.map_values(|x: i8| slot_candidate(x, is_long_term));
    assert forall|k: int| 0 <= k < slots_present(slots, is_long_term).len() implies (
    #[trigger] slots_present(slots, is_long_term)[k]).0 >= 0 && slots.contains(
        slots_present(slots, is_long_term)[k].0,
    ) by {
        lemma_present_from(items, items.len(), k);
        let i = choose|i: int|
            0 <= i < items.len() && #[trigger] items[i] == Some(present(items)[k]);
        assert(slots[i] == present(items)[k].0);
    }
}

/// Active count minus 1 of a list.
fn active_count_minus1(num_ref: u32, limited: bool, available: usize) -> (minus1: u8)
    ensures
        minus1 == active_minus1(num_ref, limited, available as nat),
{
    let asked: u8 = if num_ref > 0 {
        let m: u32 = num_ref - 1;
        assert(m as u8 == m % 256) by (bit_vector);
        m as u8
    } else {
        0
    };
    if limited && asked as usize + 1 > available {
        available.saturating_sub(1) as u8
    } else {
        asked
    }
}

/// Reference list builder for H.265.
pub struct H265ReferenceListBuilder;

impl H265ReferenceListBuilder {
    /// Build reference picture lists L0 and L1 from the Reference Picture Set.
    ///
    /// For P-frames: L0 only (from stCurrBefore, stCurrAfter, ltCurr).
    /// For B-frames: L0 and L1 with different ordering.
    ///
    /// A P- or B-frame needs at least one reference.
    #[allow(clippy::too_many_arguments)]
    pub fn build_ref_lists(
        dpb: &[DpbEntry; MAX_DPB_SIZE],
        dpb_size: i8,
        pic_type: PictureType,
        st_curr_before: &[i8],
        st_curr_after: &[i8],
        lt_curr: &[i8],
        num_ref_l0: u32,
        num_ref_l1: u32,
        use_multiple_refs: bool,
    ) -> (lists: (ReferenceList, ReferenceList))
        requires
            st_curr_before@.len() + st_curr_after@.len() + lt_curr@.len() <= usize::MAX,
            pic_type == PictureType::P || pic_type == PictureType::B ==> {
                &&& forall|x: i8|
                    (st_curr_before@.contains(x) || st_curr_after@.contains(x)
                        || lt_curr@.contains(x)) && x >= 0 && #[trigger] slot_admitted(dpb_size, x)
                        ==> x < MAX_DPB_SIZE
                &&& rps_candidates(st_curr_before@, st_curr_after@, lt_curr@).len() > 0
            },
        ensures
            lists.0.well_formed(),
            lists.1.well_formed(),
            ({
                let before = slots_present(st_curr_before@, false).len();
                let after = slots_present(st_curr_after@, false).len();
                let minus1_l0 = active_minus1(num_ref_l0, use_multiple_refs, before);
                let minus1_l1 = active_minus1(
                    num_ref_l1,
                    use_multiple_refs && pic_type == PictureType::B,
                    after,
                );
                &&& lists.0.holds(
                    h265_list0(
                        dpb@,
                        dpb_size,
                        pic_type,
                        rps_candidates(st_curr_before@, st_curr_after@, lt_curr@),
                        minus1_l0,
                    ),
                    minus1_l0,
                )
                &&& lists.1.holds(
                    h265_list1(
                        dpb@,
                        dpb_size,
                        pic_type,
                        rps_candidates(st_curr_after@, st_curr_before@, lt_curr@),
                        minus1_l1,
                    ),
                    minus1_l1,
                )
            }),
    {
        let mut list0 = ReferenceList::new();
        let mut list1 = ReferenceList::new();

        // stCurrBefore first for L0, stCurrAfter first for L1.
        let mut cands0: Vec<(i8, bool)> = Vec::new();
        let num_before: usize = collect_slots(&mut cands0, st_curr_before, false);
        let num_after: usize = collect_slots(&mut cands0, st_curr_after, false);
        collect_slots(&mut cands0, lt_curr, true);
        let mut cands1: Vec<(i8, bool)> = Vec::new();
        collect_slots(&mut cands1, st_curr_after, false);
        collect_slots(&mut cands1, st_curr_before, false);
        collect_slots(&mut cands1, lt_curr, true);
        proof {
            lemma_slots_present(st_curr_before@, false);
            lemma_slots_present(st_curr_after@, false);
            lemma_slots_present(lt_curr@, true);
            assert(cands0@ =~= rps_candidates(st_curr_before@, st_curr_after@, lt_curr@));
            assert(cands1@ =~= rps_candidates(st_curr_after@, st_curr_before@, lt_curr@));
        }

        // Set active reference counts, adjusted to the available references.
        list0.num_ref_idx_active_minus1 = active_count_minus1(
            num_ref_l0,
            use_multiple_refs,
            num_before,
        );
        list1.num_ref_idx_active_minus1 = active_count_minus1(
            num_ref_l1,
            use_multiple_refs && pic_type == PictureType::B,
            num_after,
        );

        // Build L0 for P and B frames.
        if pic_type == PictureType::P || pic_type == PictureType::B {
            fill_list(&mut list0, dpb, dpb_size, &cands0);
        }
        // Build L1 for B frames.
        if pic_type == PictureType::B {
            fill_list(&mut list1, dpb, dpb_size, &cands1);
        }
        (list0, list1)
    }
}

/// List 1 of a B-frame: with several references it does not name the same slots in the same
/// order as list 0.
pub open spec fn b_frame_second_list(dpb: Seq<DpbEntry>, dpb_size: i8, poc: i32) -> Seq<
    ReferencePicture,
> {
    let l0 = b_frame_list0(dpb, dpb_size, poc);
    let l1 = b_frame_list1(dpb, dpb_size, poc);
    if l0.len() > 1 && same_slots(l0, l1) {
        first_two_swapped(l1)
    } else {
        l1
    }
}

/// With several references, the lists of a B-frame differ, unless the first two references
/// are in one slot. They are as long as each other, and differ from the order by distance
/// in the first two entries at most.
pub proof fn law_b_frame_lists_differ(dpb: Seq<DpbEntry>, dpb_size: i8, poc: i32, i: int)
    requires
        b_frame_list0(dpb, dpb_size, poc).len() > 1,
        b_frame_list0(dpb, dpb_size, poc)[0].dpb_index != b_frame_list0(
            dpb,
            dpb_size,
            poc,
        )[1].dpb_index,
    ensures
        ({
            let l0 = b_frame_list0(dpb, dpb_size, poc);
            let l1 = b_frame_second_list(dpb, dpb_size, poc);
            &&& l1.len() == l0.len()
            &&& exists|k: int|
                0 <= k < l0.len() && (#[trigger] l0[k]).dpb_index != l1[k].dpb_index
            &&& 2 <= i < l0.len() ==> l1[i] == b_frame_list1(dpb, dpb_size, poc)[i]
        }),
{
    let l0 = b_frame_list0(dpb, dpb_size, poc);
    let l1 = b_frame_list1(dpb, dpb_size, poc);
    if same_slots(l0, l1) {
        assert(l0[0].dpb_index != b_frame_second_list(dpb, dpb_size, poc)[0].dpb_index);
    }
}

} // verus!
