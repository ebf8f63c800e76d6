//! AV1 profiles and sequence header.

use crate::encoder::resources::MIN_BITSTREAM_BUFFER_SIZE;
use crate::encoder::{BitDepth, ColorDescription, Dimensions, EncodeConfig, PixelFormat};
use vstd::arithmetic::power2::pow2;
use vstd::prelude::*;

verus! {

/// AV1 superblock size in pixels (128x128 for most cases).
pub const SUPERBLOCK_SIZE: u32 = 128;

/// AV1 profiles.
#[derive(Debug, Clone, Copy, PartialEq, Eq, Structural)]
pub enum Av1Profile {
    /// Main profile.
    Main,
    /// High profile.
    High,
}

/// The profile of a session: Main for 8-bit 4:2:0, High for 10-bit or 4:4:4.
pub open spec fn session_profile_of(config: EncodeConfig) -> Av1Profile {
    if config.bit_depth == BitDepth::Eight && config.pixel_format == PixelFormat::Yuv420 {
        Av1Profile::Main
    } else {
        Av1Profile::High
    }
}

/// Select the profile of a session.
pub fn session_profile(config: &EncodeConfig) -> (profile: Av1Profile)
    ensures
        profile == session_profile_of(*config),
{
    match (config.bit_depth, config.pixel_format) {
        (BitDepth::Eight, PixelFormat::Yuv420) => Av1Profile::Main,
        _ => Av1Profile::High,
    }
}

/// Color primaries that AV1 streams are given.
#[derive(Debug, Clone, Copy, PartialEq, Eq, Structural)]
pub enum Av1ColorPrimaries {
    /// BT.709.
    Bt709,
    /// BT.2020.
    Bt2020,
}

/// Transfer characteristics that AV1 streams are given.
#[derive(Debug, Clone, Copy, PartialEq, Eq, Structural)]
pub enum Av1TransferCharacteristics {
    /// BT.709.
    Bt709,
    /// SMPTE ST 2084 (PQ).
    Smpte2084,
}

/// Matrix coefficients that AV1 streams are given.
#[derive(Debug, Clone, Copy, PartialEq, Eq, Structural)]
pub enum Av1MatrixCoefficients {
    /// BT.709.
    Bt709,
    /// BT.2020, non-constant luminance.
    Bt2020Ncl,
}

/// Color configuration of a sequence header. What it leaves out is zero.
#[derive(Debug, Clone, Copy, PartialEq, Eq, Structural)]
pub struct Av1ColorConfig {
    /// Full range (true) or limited range (false).
    pub color_range: bool,
    /// The color description is given.
    pub color_description_present: bool,
    /// Bits of a sample.
    pub bit_depth: u8,
    /// Chroma is subsampled horizontally.
    pub subsampling_x: u8,
    /// Chroma is subsampled vertically.
    pub subsampling_y: u8,
    /// Color primaries.
    pub color_primaries: Av1ColorPrimaries,
    /// Transfer characteristics.
    pub transfer_characteristics: Av1TransferCharacteristics,
    /// Matrix coefficients.
    pub matrix_coefficients: Av1MatrixCoefficients,
}

/// Sequence header. What it leaves out is zero.
#[derive(Debug, Clone, Copy, PartialEq, Eq, Structural)]
pub struct Av1SequenceHeader {
    /// Frames have order hints.
    pub enable_order_hint: bool,
    /// The constrained directional enhancement filter is used.
    pub enable_cdef: bool,
    /// Profile.
    pub seq_profile: Av1Profile,
    /// Bits of the frame width, minus 1.
    pub frame_width_bits_minus_1: u8,
    /// Bits of the frame height, minus 1.
    pub frame_height_bits_minus_1: u8,
    /// Frame width, minus 1.
    pub max_frame_width_minus_1: u16,
    /// Frame height, minus 1.
    pub max_frame_height_minus_1: u16,
    /// Bits of an order hint, minus 1.
    pub order_hint_bits_minus_1: u8,
    /// Level of the one operating point; 5 is level 3.1.
    pub seq_level_idx: u8,
    /// Color configuration.
    pub color: Av1ColorConfig,
}

/// Number of bits that it takes to write `n`.
pub open spec fn bit_length(n: nat) -> nat
    decreases n,
{
    if n == 0 {
        0
    } else {
        1 + bit_length(n / 2)
    }
}

fn count_bits(n: u32) -> (bits: u8)
    ensures
        bits == bit_length(n as nat),
        bits <= 32,
{
    let mut rest: u32 = n;
    let mut bits: u8 = 0;
    proof {
        vstd::arithmetic::power2::lemma2_to64();
    }
    while rest > 0
        invariant
            bits + bit_length(rest as nat) == bit_length(n as nat),
            rest < pow2((32 - bits) as nat),
            bits <= 32,
        decreases rest,
    {
        proof {
            if bits < 32 {
                vstd::arithmetic::power2::lemma_pow2_unfold((32 - bits) as nat);
            } else {
                vstd::arithmetic::power2::lemma2_to64();
            }
        }
        rest = rest / 2;
        bits = bits + 1;
    }
    bits
}

/// A number needs `bit_length` bits: it is less than that power of two, but not less
/// than the one before.
pub proof fn law_bit_length_is_least(n: nat)
    ensures
        n < pow2(bit_length(n)),
        n > 0 ==> bit_length(n) > 0 && pow2((bit_length(n) - 1) as nat) <= n,
    decreases n,
{
    vstd::arithmetic::power2::lemma2_to64();
    if n > 0 {
        law_bit_length_is_least(n / 2);
        vstd::arithmetic::power2::lemma_pow2_unfold(bit_length(n));
        if n / 2 > 0 {
            vstd::arithmetic::power2::lemma_pow2_unfold((bit_length(n) - 1) as nat);
        }
    }
}

/// The sequence header of a stream.
pub open spec fn sequence_header_of(
    config: EncodeConfig,
    desc: ColorDescription,
) -> Av1SequenceHeader {
    let width = config.dimensions.width;
    let height = config.dimensions.height;
    let subsampling: u8 = if config.pixel_format == PixelFormat::Yuv444 {
        0
    } else {
        1
    };
    Av1SequenceHeader {
        enable_order_hint: true,
        enable_cdef: true,
        seq_profile: if config.pixel_format == PixelFormat::Yuv420 {
            Av1Profile::Main
        } else {
            Av1Profile::High
        },
        frame_width_bits_minus_1: (bit_length((width - 1) as nat) - 1) as u8,
        frame_height_bits_minus_1: (bit_length((height - 1) as nat) - 1) as u8,
        max_frame_width_minus_1: (width - 1) as u16,
        max_frame_height_minus_1: (height - 1) as u16,
        order_hint_bits_minus_1: 7,
        seq_level_idx: 5,
        color: Av1ColorConfig {
            color_range: desc.full_range,
            color_description_present: true,
            bit_depth: if config.bit_depth == BitDepth::Ten {
                10
            } else {
                8
            },
            subsampling_x: subsampling,
            subsampling_y: subsampling,
            color_primaries: if desc.color_primaries == 9 {
                Av1ColorPrimaries::Bt2020
            } else {
                Av1ColorPrimaries::Bt709
            },
            transfer_characteristics: if desc.transfer_characteristics == 16 {
                Av1TransferCharacteristics::Smpte2084
            } else {
                Av1TransferCharacteristics::Bt709
            },
            matrix_coefficients: if desc.matrix_coefficients == 9 {
                Av1MatrixCoefficients::Bt2020Ncl
            } else {
                Av1MatrixCoefficients::Bt709
            },
        },
    }
}

/// Build the sequence header.
///
/// This is used both during initial encoder creation and when the color
/// description changes. Keeping a single implementation ensures the sequence header
/// stays consistent.
pub fn build_sequence_header(config: &EncodeConfig, desc: &ColorDescription) -> (header:
    Av1SequenceHeader)
    requires
        config.dimensions.width >= 2,
        config.dimensions.height >= 2,
    ensures
        header == sequence_header_of(*config, *desc),
{
    let width: u32 = config.dimensions.width;
    let height: u32 = config.dimensions.height;
    let width_bits: u8 = count_bits(width - 1);
    let height_bits: u8 = count_bits(height - 1);
    proof {
        law_bit_length_is_least((width - 1) as nat);
        law_bit_length_is_least((height - 1) as nat);
    }
    let subsampling: u8 = match config.pixel_format {
        PixelFormat::Yuv444 => 0,
        _ => 1,
    };
    Av1SequenceHeader {
        enable_order_hint: true,
        enable_cdef: true,
        seq_profile: match config.pixel_format {
            PixelFormat::Yuv420 => Av1Profile::Main,
            _ => Av1Profile::High,
        },
        frame_width_bits_minus_1: width_bits - 1,
        frame_height_bits_minus_1: height_bits - 1,
        max_frame_width_minus_1: (width - 1) as u16,
        max_frame_height_minus_1: (height - 1) as u16,
        order_hint_bits_minus_1: 7,
        seq_level_idx: 5,
        color: Av1ColorConfig {
            color_range: desc.full_range,
            color_description_present: true,
            bit_depth: match config.bit_depth {
                BitDepth::Eight => 8,
                BitDepth::Ten => 10,
            },
            subsampling_x: subsampling,
            subsampling_y: subsampling,
            color_primaries: match desc.color_primaries {
                9 => Av1ColorPrimaries::Bt2020,
                _ => Av1ColorPrimaries::Bt709,
            },
            transfer_characteristics: match desc.transfer_characteristics {
                16 => Av1TransferCharacteristics::Smpte2084,
                _ => Av1TransferCharacteristics::Bt709,
            },
            matrix_coefficients: match desc.matrix_coefficients {
                9 => Av1MatrixCoefficients::Bt2020Ncl,
                _ => Av1MatrixCoefficients::Bt709,
            },
        },
    }
}

/// Size of the bitstream buffer: a byte for each coded pixel, but not less than the
/// minimum.
pub fn bitstream_buffer_size(coded: Dimensions) -> (size: usize)
    requires
        coded.width * coded.height <= usize::MAX,
    ensures
        size == if coded.width * coded.height > MIN_BITSTREAM_BUFFER_SIZE {
            coded.width * coded.height
        } else {
            MIN_BITSTREAM_BUFFER_SIZE as int
        },
{
    let pixels: usize = coded.width as usize * coded.height as usize;
    if pixels > MIN_BITSTREAM_BUFFER_SIZE {
        pixels
    } else {
        MIN_BITSTREAM_BUFFER_SIZE
    }
}

/// The largest frame size of the sequence header is that of the configuration, and
/// fits in the bits that the header gives it, if it fits in 16 bits.
pub proof fn law_header_gives_dimensions(config: EncodeConfig, desc: ColorDescription)
    requires
        2 <= config.dimensions.width <= 0x1_0000,
        2 <= config.dimensions.height <= 0x1_0000,
    ensures
        ({
            let header = sequence_header_of(config, desc);
            &&& header.max_frame_width_minus_1 + 1 == config.dimensions.width
            &&& header.max_frame_height_minus_1 + 1 == config.dimensions.height
            &&& header.max_frame_width_minus_1 < pow2(
                (header.frame_width_bits_minus_1 + 1) as nat,
            )
            &&& header.max_frame_height_minus_1 < pow2(
                (header.frame_height_bits_minus_1 + 1) as nat,
            )
        }),
{
    let w = (config.dimensions.width - 1) as nat;
    let h = (config.dimensions.height - 1) as nat;
    law_bit_length_is_least(w);
    law_bit_length_is_least(h);
    lemma_bits_of_16(w);
    lemma_bits_of_16(h);
}

proof fn lemma_bits_of_16(n: nat)
    requires
        n < 0x1_0000,
    ensures
        bit_length(n) <= 16,
{
    law_bit_length_is_least(n);
    vstd::arithmetic::power2::lemma2_to64();
    if bit_length(n) > 16 {
        if bit_length(n) > 17 {
            vstd::arithmetic::power2::lemma_pow2_strictly_increases(
                16,
                (bit_length(n) - 1) as nat,
            );
        }
    }
}

} // verus!
