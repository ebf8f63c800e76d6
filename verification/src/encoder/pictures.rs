//! Kinds of slices and pictures, and reference lists, of H.264 and H.265.

use super::gop::{GopFrameType, GopPosition};
use super::resources::{record_dpb_barriers, reference_barrier, setup_barrier, DpbBarrier};
use vstd::prelude::*;

verus! {

/// Entry of a reference list that names no picture.
pub const NO_REFERENCE_PICTURE: u8 = 0xff;

/// Slice types.
#[derive(Debug, Clone, Copy, PartialEq, Eq, Structural)]
pub enum SliceType {
    /// Intra slice.
    I,
    /// Predicted slice.
    P,
    /// Bidirectionally predicted slice.
    B,
}

/// Picture types.
#[derive(Debug, Clone, Copy, PartialEq, Eq, Structural)]
pub enum CodedPictureType {
    /// Instantaneous decoder refresh picture.
    Idr,
    /// Predicted picture.
    P,
    /// Bidirectionally predicted picture.
    B,
}

/// Slice type of a frame.
pub open spec fn slice_type_of(frame_type: GopFrameType) -> SliceType {
    match frame_type {
        GopFrameType::Idr => SliceType::I,
        GopFrameType::B => SliceType::B,
        _ => SliceType::P,
    }
}

/// Picture type of a frame.
pub open spec fn picture_type_of(frame_type: GopFrameType) -> CodedPictureType {
    match frame_type {
        GopFrameType::Idr => CodedPictureType::Idr,
        GopFrameType::B => CodedPictureType::B,
        _ => CodedPictureType::P,
    }
}

/// Slice type of a frame.
pub fn slice_type(position: &GopPosition) -> (slice: SliceType)
    ensures
        slice == slice_type_of(position.frame_type),
{
    match position.frame_type {
        GopFrameType::Idr => SliceType::I,
        GopFrameType::B => SliceType::B,
        _ => SliceType::P,
    }
}

/// Picture type of a frame.
pub fn picture_type(position: &GopPosition) -> (picture: CodedPictureType)
    ensures
        picture == picture_type_of(position.frame_type),
{
    match position.frame_type {
        GopFrameType::Idr => CodedPictureType::Idr,
        GopFrameType::B => CodedPictureType::B,
        _ => CodedPictureType::P,
    }
}

/// A reference list of `n` entries that starts with these slots.
pub open spec fn reference_list(slots: Seq<u8>, n: nat) -> Seq<u8> {
    Seq::new(
        n,
        |i: int|
            if i < slots.len() {
                slots[i]
            } else {
                NO_REFERENCE_PICTURE
            },
    )
}

/// A count minus 1, where 0 stays 0.
pub open spec fn minus1(count: nat) -> int {
    if count > 0 {
        count - 1
    } else {
        0
    }
}

/// The indices of the slots that video coding begins with: -1 for the slot that is
/// set up, which is not active yet, and those of the references.
pub open spec fn begin_indices(references: Seq<u8>) -> Seq<i32> {
    seq![-1i32] + references.map_values(|slot: u8| slot as i32)
}

/// The indices of the slots that video coding begins with.
pub fn begin_slots(references: &Vec<u8>) -> (indices: Vec<i32>)
    ensures
        indices@ == begin_indices(references@),
{
    let mut indices: Vec<i32> = vec![-1i32];
    let n: usize = references.len();
    let mut i: usize = 0;
    while i < n
        invariant
            i <= n,
            n == references@.len(),
            indices@ =~= begin_indices(references@.take(i as int)),
        decreases n - i,
    {
        indices.push(references[i] as i32);
        i = i + 1;
    }
    assert(references@.take(n as int) =~= references@);
    indices
}

/// The barriers on the DPB before an encode.
pub open spec fn dpb_barriers_of(
    layered: bool,
    setup: u8,
    references: Seq<u8>,
    active: bool,
) -> Seq<DpbBarrier> {
    seq![setup_barrier(layered, setup, active)] + references.map_values(
        |slot: u8| reference_barrier(layered, slot),
    )
}

/// Plan the barriers on the DPB before an encode.
pub fn dpb_barriers(layered: bool, setup: u8, references: &Vec<u8>, active: bool) -> (barriers: Vec<
    DpbBarrier,
>)
    ensures
        barriers@ == dpb_barriers_of(layered, setup, references@, active),
{
    record_dpb_barriers(layered, setup, references.as_slice(), active)
}

} // verus!
