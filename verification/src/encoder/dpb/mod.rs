//! Decoded picture buffer (DPB) management.
//!
//! The DPB tracks the reconstructed pictures that later frames may refer to.
//! `entry` describes one slot and `types` the parameters that go in and out.
//! `bumping` outputs pictures and frees their slots, `marking` decides which
//! pictures stop being references, `rps` codes and applies reference picture
//! sets, and `reference_lists` builds reference picture lists; `h265` is the
//! buffer itself, made of these. `select` holds what they share.
//! `laws` states what holds from one operation to the next, `picture_laws` what becomes
//! of each picture, `list_laws` what stands in reference lists, `rps_laws` what holds of
//! sets that are built and applied, and `run_laws` what holds over any run of pictures.

use vstd::prelude::*;

pub mod bumping;
pub mod entry;
pub mod h265;
pub mod laws;
pub mod list_laws;
pub mod marking;
pub mod picture_laws;
pub mod reference_lists;
pub mod rps;
pub mod rps_laws;
pub mod run_laws;
pub mod select;
pub mod types;

pub use entry::{DpbEntry, DpbState, MarkingState};
pub use h265::DpbH265;
pub use reference_lists::{
    H264ReferenceListBuilder, H265ReferenceListBuilder, ReferenceList, ReferencePicture,
};
pub use types::{DpbConfig, PictureStartInfo, RefPicSet, ShortTermRefPicSet};

verus! {

/// Number of entries that a DPB holds.
pub const MAX_DPB_SIZE: usize = 16;

/// Number of DPB slots that an encoder uses at most.
pub const MAX_DPB_SLOTS: usize = 16;

/// Number of entries that a reference picture list holds.
pub const MAX_REF_LIST_SIZE: usize = 32;

/// Coding type of a picture.
#[derive(Debug, Clone, Copy, PartialEq, Eq, Structural)]
pub enum PictureType {
    /// Instantaneous decoder refresh picture.
    Idr,
    /// Intra picture.
    I,
    /// Predicted picture.
    P,
    /// Bidirectionally predicted picture.
    B,
}

} // verus!
