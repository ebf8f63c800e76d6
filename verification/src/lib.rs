//! A Vulkan-based video encoding library for Rust, supporting H.264, H.265, and AV1 codecs.
//!
//! This crate holds what the library decides and computes: configuration,
//! decoded picture buffers, reference lists, parameter sets, frame plans,
//! pipelining, pixel data layout and device selection. Its functions take and
//! return plain values; recording and submitting Vulkan commands is left to the
//! program around it.

use vstd::prelude::*;

pub mod converter;
pub mod encoder;
pub mod error;
pub mod image;
pub mod steps;
pub mod text;
pub mod vk;
pub mod vulkan;

pub use converter::{ColorConverter, ColorConverterConfig, ColorSpace, InputFormat, OutputFormat};
pub use encoder::{
    BitDepth as EncodeBitDepth, Codec, ColorDescription, EncodeConfig, EncodedPacket, Encoder,
    FrameType, PixelFormat, RateControlMode, DEFAULT_FRAME_RATE, DEFAULT_GOP_SIZE, DEFAULT_H264_QP,
    DEFAULT_H265_QP, DEFAULT_MAX_BITRATE, DEFAULT_MAX_REFERENCE_FRAMES, DEFAULT_TARGET_BITRATE,
};
pub use error::PixelForgeError;
pub use image::InputImage;
pub use vulkan::{VideoContext, VideoContextBuilder};

verus! {

/// Align a byte size up to a multiple of 4.
///
/// Required for `VkBufferImageCopy::bufferOffset` to meet the texel block alignment
/// of multi-component plane formats (e.g. R8G8, R16G16).
pub fn align4(size: usize) -> (aligned: usize)
    requires
        size + 3 <= usize::MAX,
    ensures
        aligned as int == (size + 3) / 4 * 4,
{
    let bumped: usize = size + 3;
    assert(bumped & !3usize == (bumped / 4) * 4) by (bit_vector);
    bumped & !3usize
}

/// `align4` gives the least multiple of 4 that is not below the size.
pub proof fn law_align4_is_least(size: int)
    ensures
        ((size + 3) / 4 * 4) % 4 == 0,
        size <= (size + 3) / 4 * 4 < size + 4,
{
}

} // verus!
