//! One slot of the decoded picture buffer.

use super::{PictureType, MAX_DPB_SIZE};
use vstd::prelude::*;

verus! {

/// Whether a DPB slot holds a picture.
#[derive(Debug, Clone, Copy, PartialEq, Eq, Structural)]
pub enum DpbState {
    /// The slot is free.
    Empty,
    /// The slot holds a picture.
    InUse,
}

/// Reference marking of a picture.
#[derive(Debug, Clone, Copy, PartialEq, Eq, Structural)]
pub enum MarkingState {
    /// Not used for reference.
    Unused,
    /// Used for short-term reference.
    ShortTerm,
    /// Used for long-term reference.
    LongTerm,
}

/// A picture in the decoded picture buffer.
#[derive(Debug, Clone, Copy)]
pub struct DpbEntry {
    /// Whether the slot holds a picture.
    pub state: DpbState,
    /// Reference marking of the frame (or of its top field).
    pub marking: MarkingState,
    /// Reference marking of the bottom field.
    pub bottom_field_marking: MarkingState,
    /// Identifier of the frame.
    pub frame_id: u64,
    /// Frame number.
    pub frame_num: u32,
    /// Picture order count.
    pub pic_order_cnt: i32,
    /// Whether the picture still waits for output.
    pub output: bool,
    /// Whether the picture is corrupted.
    pub corrupted: bool,
    /// Temporal layer.
    pub temporal_id: i32,
    /// Coding type.
    pub pic_type: PictureType,
    /// Long-term frame index.
    pub long_term_frame_idx: i32,
    /// Picture number of the frame (or of its top field).
    pub top_pic_num: i32,
    /// Picture order counts of all slots when this picture was started.
    pub ref_pic_order_cnt: [i32; MAX_DPB_SIZE],
    /// Bit mask of the slots that held long-term references when this picture
    /// was started.
    pub long_term_ref_pic: u32,
}

impl DpbEntry {
    /// The entry of a slot that was never used.
    pub open spec fn blank(self) -> bool {
        &&& self.state == DpbState::Empty
        &&& self.marking == MarkingState::Unused
        &&& self.bottom_field_marking == MarkingState::Unused
        &&& self.frame_id == 0
        &&& self.frame_num == 0
        &&& self.pic_order_cnt == 0
        &&& !self.output
        &&& !self.corrupted
        &&& self.temporal_id == 0
        &&& self.pic_type == PictureType::I
        &&& self.long_term_frame_idx == 0
        &&& self.top_pic_num == 0
        &&& self.ref_pic_order_cnt@ =~= Seq::new(MAX_DPB_SIZE as nat, |i: int| 0i32)
        &&& self.long_term_ref_pic == 0
    }

    /// The entry with its reference marking taken away.
    pub open spec fn unmarked(self) -> DpbEntry {
        DpbEntry {
            marking: MarkingState::Unused,
            bottom_field_marking: MarkingState::Unused,
            ..self
        }
    }

    /// The slot holds a short-term reference.
    pub open spec fn short_term(self) -> bool {
        self.state == DpbState::InUse && self.marking == MarkingState::ShortTerm
    }

    /// The slot holds a long-term reference.
    pub open spec fn long_term(self) -> bool {
        self.state == DpbState::InUse && self.marking == MarkingState::LongTerm
    }

    /// Create an empty entry.
    pub fn new() -> (entry: Self)
        ensures
            entry.blank(),
    {
        DpbEntry {
            state: DpbState::Empty,
            marking: MarkingState::Unused,
            bottom_field_marking: MarkingState::Unused,
            frame_id: 0,
            frame_num: 0,
            pic_order_cnt: 0,
            output: false,
            corrupted: false,
            temporal_id: 0,
            pic_type: PictureType::I,
            long_term_frame_idx: 0,
            top_pic_num: 0,
            ref_pic_order_cnt: [0i32; MAX_DPB_SIZE],
            long_term_ref_pic: 0,
        }
    }

    /// Make the entry empty.
    pub fn reset(&mut self)
        ensures
            final(self).blank(),
    {
        *self = DpbEntry::new();
    }

    /// Mark the picture as unused for reference.
    pub fn mark_unused(&mut self)
        ensures
            *final(self) == old(self).unmarked(),
    {
        self.marking = MarkingState::Unused;
        self.bottom_field_marking = MarkingState::Unused;
    }

    /// Whether the slot holds a short-term reference.
    pub fn is_short_term_reference(&self) -> (r: bool)
        ensures
            r == self.short_term(),
    {
        self.state == DpbState::InUse && self.marking == MarkingState::ShortTerm
    }

    /// Whether the slot holds a long-term reference.
    pub fn is_long_term_reference(&self) -> (r: bool)
        ensures
            r == self.long_term(),
    {
        self.state == DpbState::InUse && self.marking == MarkingState::LongTerm
    }
}

impl Default for DpbEntry {
    fn default() -> (entry: Self)
        ensures
            entry.blank(),
    {
        DpbEntry::new()
    }
}

} // verus!
