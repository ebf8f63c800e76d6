//! Encoder types, configuration, and shared utilities.
//!
//! This module provides the core encoder types and configuration
//! (`EncodeConfig`, `EncodedPacket`, etc.); its submodules hold the GOP
//! structure, the decoded picture buffer, and the decisions of each codec.

use vstd::prelude::*;

pub mod any;
pub mod arithmetic;
pub mod av1;
pub mod dpb;
pub mod frame_laws;
pub mod gop;
pub mod h264;
pub mod h265;
pub mod header;
pub mod laws;
pub mod pictures;
pub mod pipeline;
pub mod rate_control;
pub mod references;
pub mod resources;
pub mod session;
pub mod state;
pub mod transfer_laws;

pub use any::{Encoder, FramePlan};
pub use state::StartedFrame;

verus! {

// Default encoder configuration constants.

/// Default target bitrate in bits per second (4 Mbps).
pub const DEFAULT_TARGET_BITRATE: u32 = 4_000_000;

/// Default maximum bitrate in bits per second (6 Mbps).
pub const DEFAULT_MAX_BITRATE: u32 = 6_000_000;

/// Default frame rate (frames per second).
pub const DEFAULT_FRAME_RATE: u32 = 30;

/// Default GOP (Group of Pictures) size.
pub const DEFAULT_GOP_SIZE: u32 = 30;

/// Default QP (quantization parameter) for H.264.
pub const DEFAULT_H264_QP: u32 = 26;

/// Default QP (quantization parameter) for H.265.
pub const DEFAULT_H265_QP: u32 = 28;

/// Default maximum number of reference frames.
pub const DEFAULT_MAX_REFERENCE_FRAMES: u32 = 4;

/// Default QP (quantization parameter) for AV1, whose QP range is 0-255.
pub const DEFAULT_AV1_QP: u32 = 128;

/// Default size and fullness of the virtual buffer in milliseconds.
pub const DEFAULT_VIRTUAL_BUFFER_MS: u32 = 1000;

/// Video codec types.
#[derive(Debug, Clone, Copy, PartialEq, Eq, Structural)]
pub enum Codec {
    /// H.264/AVC codec.
    H264,
    /// H.265/HEVC codec.
    H265,
    /// AV1 codec.
    AV1,
}

/// Pixel format / chroma subsampling.
#[derive(Debug, Clone, Copy, PartialEq, Eq, Structural)]
pub enum PixelFormat {
    /// YUV 4:2:0 (half horizontal and vertical chroma resolution).
    Yuv420,
    /// YUV 4:2:2 (half horizontal chroma resolution).
    Yuv422,
    /// YUV 4:4:4 (full chroma resolution).
    Yuv444,
}

impl Default for PixelFormat {
    fn default() -> (format: Self)
        ensures
            format == PixelFormat::Yuv420,
    {
        PixelFormat::Yuv420
    }
}

/// `ash::vk::VideoChromaSubsamplingFlagsKHR::as_raw` on the flag of each
/// pixel format: 4:2:0 is bit 1, 4:2:2 is bit 2, 4:4:4 is bit 3.
#[verifier::external_body]
fn chroma_subsampling_number(format: PixelFormat) -> (raw: u32)
    ensures
        raw == format.chroma_subsampling(),
{
    match format {
        PixelFormat::Yuv420 => ash::vk::VideoChromaSubsamplingFlagsKHR::TYPE_420,
        PixelFormat::Yuv422 => ash::vk::VideoChromaSubsamplingFlagsKHR::TYPE_422,
        PixelFormat::Yuv444 => ash::vk::VideoChromaSubsamplingFlagsKHR::TYPE_444,
    }.as_raw()
}

impl From<PixelFormat> for ChromaSubsamplingFlags {
    fn from(format: PixelFormat) -> (flags: Self) {
        ChromaSubsamplingFlags { raw: chroma_subsampling_number(format) }
    }
}

impl vstd::std_specs::convert::FromSpecImpl<PixelFormat> for ChromaSubsamplingFlags {
    open spec fn obeys_from_spec() -> bool {
        true
    }

    open spec fn from_spec(format: PixelFormat) -> ChromaSubsamplingFlags {
        ChromaSubsamplingFlags { raw: format.chroma_subsampling() }
    }
}

/// A set of chroma subsamplings, as the bits of the Vulkan API.
#[derive(Debug, Clone, Copy, PartialEq, Eq, Structural)]
pub struct ChromaSubsamplingFlags {
    /// The bits.
    pub raw: u32,
}

impl PixelFormat {
    /// The bit of the chroma subsampling in the Vulkan API.
    pub open spec fn chroma_subsampling(self) -> u32 {
        match self {
            PixelFormat::Yuv420 => 2,
            PixelFormat::Yuv422 => 4,
            PixelFormat::Yuv444 => 8,
        }
    }

    /// Size in bytes of a frame of 8-bit samples with this many pixels.
    pub open spec fn size_of(self, pixels: int) -> int {
        match self {
            PixelFormat::Yuv420 => pixels * 3 / 2,
            PixelFormat::Yuv422 => pixels * 2,
            PixelFormat::Yuv444 => pixels * 3,
        }
    }

    /// The largest number that the size of a frame goes through.
    pub open spec fn widest(self, pixels: int) -> int {
        match self {
            PixelFormat::Yuv422 => pixels * 2,
            _ => pixels * 3,
        }
    }

    /// Calculate frame size in bytes for given dimensions.
    pub fn frame_size(&self, width: u32, height: u32) -> (size: usize)
        requires
            width * height <= u32::MAX,
            self.widest(width * height) <= usize::MAX,
        ensures
            size == self.size_of(width * height),
    {
        let luma_size: usize = (width * height) as usize;
        match self {
            PixelFormat::Yuv420 => luma_size * 3 / 2,  // Y + U/4 + V/4
            PixelFormat::Yuv422 => luma_size * 2,  // Y + U/2 + V/2
            PixelFormat::Yuv444 => luma_size * 3,  // Y + U + V
        }
    }

    /// The name of the variant.
    pub fn name(&self) -> (name: &'static str)
        ensures
            name@ == self.spelled(),
    {
        match self {
            PixelFormat::Yuv420 => "Yuv420",
            PixelFormat::Yuv422 => "Yuv422",
            PixelFormat::Yuv444 => "Yuv444",
        }
    }

    /// The name of the variant.
    pub open spec fn spelled(self) -> Seq<char> {
        match self {
            PixelFormat::Yuv420 => "Yuv420"@,
            PixelFormat::Yuv422 => "Yuv422"@,
            PixelFormat::Yuv444 => "Yuv444"@,
        }
    }
}

/// Bit depth for video encoding.
#[derive(Debug, Clone, Copy, PartialEq, Eq, Structural)]
pub enum BitDepth {
    /// 8-bit per component (standard).
    Eight,
    /// 10-bit per component (HDR, Main10 profile).
    Ten,
}

impl Default for BitDepth {
    fn default() -> (depth: Self)
        ensures
            depth == BitDepth::Eight,
    {
        BitDepth::Eight
    }
}

/// A set of component bit depths, as the bits of the Vulkan API.
#[derive(Debug, Clone, Copy, PartialEq, Eq, Structural)]
pub struct ComponentBitDepthFlags {
    /// The bits.
    pub raw: u32,
}

impl BitDepth {
    /// The bit of the component bit depth in the Vulkan API.
    pub open spec fn component_bit_depth(self) -> u32 {
        match self {
            BitDepth::Eight => 1,
            BitDepth::Ten => 4,
        }
    }

    /// The name of the variant.
    pub fn name(&self) -> (name: &'static str)
        ensures
            name@ == self.spelled(),
    {
        match self {
            BitDepth::Eight => "Eight",
            BitDepth::Ten => "Ten",
        }
    }

    /// The name of the variant.
    pub open spec fn spelled(self) -> Seq<char> {
        match self {
            BitDepth::Eight => "Eight"@,
            BitDepth::Ten => "Ten"@,
        }
    }
}

/// `ash::vk::VideoComponentBitDepthFlagsKHR::as_raw` on the flag of each bit
/// depth: 8 bits is bit 0, 10 bits is bit 2.
#[verifier::external_body]
fn component_bit_depth_number(depth: BitDepth) -> (raw: u32)
    ensures
        raw == depth.component_bit_depth(),
{
    match depth {
        BitDepth::Eight => ash::vk::VideoComponentBitDepthFlagsKHR::TYPE_8,
        BitDepth::Ten => ash::vk::VideoComponentBitDepthFlagsKHR::TYPE_10,
    }.as_raw()
}

impl From<BitDepth> for ComponentBitDepthFlags {
    fn from(depth: BitDepth) -> (flags: Self) {
        ComponentBitDepthFlags { raw: component_bit_depth_number(depth) }
    }
}

impl vstd::std_specs::convert::FromSpecImpl<BitDepth> for ComponentBitDepthFlags {
    open spec fn obeys_from_spec() -> bool {
        true
    }

    open spec fn from_spec(depth: BitDepth) -> ComponentBitDepthFlags {
        ComponentBitDepthFlags { raw: depth.component_bit_depth() }
    }
}

/// Rate control modes.
#[derive(Debug, Clone, Copy, PartialEq, Eq, Structural)]
pub enum RateControlMode {
    /// Disabled rate control - constant QP.
    Disabled,
    /// Constant QP mode.
    Cqp,
    /// Constant bitrate mode.
    Cbr,
    /// Variable bitrate mode.
    Vbr,
}

impl Default for RateControlMode {
    fn default() -> (mode: Self)
        ensures
            mode == RateControlMode::Disabled,
    {
        RateControlMode::Disabled
    }
}

/// Frame types in encoded stream.
#[derive(Debug, Clone, Copy, PartialEq, Eq, Structural)]
pub enum FrameType {
    /// Instantaneous Decoder Refresh frame.
    Idr,
    /// Intra-coded frame.
    I,
    /// Predicted frame.
    P,
    /// Bi-predicted frame.
    B,
    /// Unknown frame type.
    Unknown,
}

/// Video dimensions.
#[derive(Debug, Clone, Copy, PartialEq, Eq, Structural)]
pub struct Dimensions {
    pub width: u32,
    pub height: u32,
}

/// Video signal color description for VUI parameters.
///
/// Describes how color is encoded in the video stream, allowing decoders
/// to correctly interpret the color space.
#[derive(Debug, Clone, Copy, PartialEq, Eq, Structural)]
pub struct ColorDescription {
    /// Color primaries (1=BT.709, 9=BT.2020).
    pub color_primaries: u8,
    /// Transfer characteristics (1=BT.709, 16=ST2084/PQ).
    pub transfer_characteristics: u8,
    /// Matrix coefficients (1=BT.709, 9=BT.2020 NCL).
    pub matrix_coefficients: u8,
    /// Full range (true) or limited/TV range (false).
    pub full_range: bool,
}

impl ColorDescription {
    /// BT.709 color description (standard SDR).
    pub fn bt709() -> (desc: Self)
        ensures
            desc == (ColorDescription {
                color_primaries: 1,
                transfer_characteristics: 1,
                matrix_coefficients: 1,
                full_range: true,
            }),
    {
        ColorDescription {
            color_primaries: 1,
            transfer_characteristics: 1,
            matrix_coefficients: 1,
            full_range: true,
        }
    }

    /// BT.2020 with PQ transfer function (HDR10).
    pub fn bt2020_pq() -> (desc: Self)
        ensures
            desc == (ColorDescription {
                color_primaries: 9,
                transfer_characteristics: 16,
                matrix_coefficients: 9,
                full_range: false,
            }),
    {
        ColorDescription {
            color_primaries: 9,
            transfer_characteristics: 16,
            matrix_coefficients: 9,
            full_range: false,
        }
    }
}

/// Encode configuration.
#[derive(Debug, Clone, Copy)]
#[must_use]
pub struct EncodeConfig {
    /// Video codec to use.
    pub codec: Codec,
    /// Video dimensions.
    pub dimensions: Dimensions,
    /// Pixel format (chroma subsampling).
    pub pixel_format: PixelFormat,
    /// Bit depth per component.
    pub bit_depth: BitDepth,
    /// Rate control mode.
    pub rate_control_mode: RateControlMode,
    /// Target bitrate in bits per second.
    pub target_bitrate: u32,
    /// Maximum bitrate in bits per second.
    pub max_bitrate: u32,
    /// Quality level for CQP mode (QP value).
    pub quality_level: u32,
    /// Frame rate numerator.
    pub frame_rate_numerator: u32,
    /// Frame rate denominator.
    pub frame_rate_denominator: u32,
    /// GOP size (distance between IDR frames).
    pub gop_size: u32,
    /// Number of consecutive B-frames.
    pub b_frame_count: u32,
    /// Maximum number of reference frames.
    pub max_reference_frames: u32,
    /// VBV/HRD virtual buffer size in milliseconds.
    /// Controls how much the encoder can deviate from the target bitrate
    /// on a per-frame basis. Smaller values produce more uniform frame
    /// sizes.
    pub virtual_buffer_size_ms: u32,
    /// Initial VBV buffer fullness in milliseconds.
    /// Controls how much budget the encoder has for IDR/I-frames.
    /// Setting this to 0 constrains IDR frames to the same budget as
    /// P-frames. Setting it equal to `virtual_buffer_size_ms` gives
    /// IDR frames maximum headroom.
    pub initial_virtual_buffer_size_ms: u32,
    /// Color description for VUI signaling.
    /// Defaults to BT.709 (full-range) when `None`.
    pub color_description: Option<ColorDescription>,
}

/// The default configuration of a codec, with its default QP.
pub open spec fn default_config(codec: Codec, width: u32, height: u32, qp: u32) -> EncodeConfig {
    EncodeConfig {
        codec,
        dimensions: Dimensions { width, height },
        pixel_format: PixelFormat::Yuv420,
        bit_depth: BitDepth::Eight,
        rate_control_mode: RateControlMode::Disabled,
        target_bitrate: DEFAULT_TARGET_BITRATE,
        max_bitrate: DEFAULT_MAX_BITRATE,
        quality_level: qp,
        frame_rate_numerator: DEFAULT_FRAME_RATE,
        frame_rate_denominator: 1,
        gop_size: DEFAULT_GOP_SIZE,
        b_frame_count: 0,
        max_reference_frames: DEFAULT_MAX_REFERENCE_FRAMES,
        virtual_buffer_size_ms: DEFAULT_VIRTUAL_BUFFER_MS,
        initial_virtual_buffer_size_ms: DEFAULT_VIRTUAL_BUFFER_MS,
        color_description: None,
    }
}

impl EncodeConfig {
    /// Create a new H.264 encode configuration with default settings.
    pub fn h264(width: u32, height: u32) -> (config: Self)
        requires
            width > 0,
            height > 0,
        ensures
            config == default_config(Codec::H264, width, height, DEFAULT_H264_QP),
    {
        EncodeConfig {
            codec: Codec::H264,
            dimensions: Dimensions { width, height },
            pixel_format: PixelFormat::Yuv420,
            bit_depth: BitDepth::Eight,
            rate_control_mode: RateControlMode::Disabled,
            target_bitrate: DEFAULT_TARGET_BITRATE,
            max_bitrate: DEFAULT_MAX_BITRATE,
            quality_level: DEFAULT_H264_QP,
            frame_rate_numerator: DEFAULT_FRAME_RATE,
            frame_rate_denominator: 1,
            gop_size: DEFAULT_GOP_SIZE,
            b_frame_count: 0,  // Start without B-frames for simplicity.
            max_reference_frames: DEFAULT_MAX_REFERENCE_FRAMES,
            virtual_buffer_size_ms: DEFAULT_VIRTUAL_BUFFER_MS,
            initial_virtual_buffer_size_ms: DEFAULT_VIRTUAL_BUFFER_MS,
            color_description: None,
        }
    }

    /// Create a new H.265/HEVC encode configuration with default settings.
    pub fn h265(width: u32, height: u32) -> (config: Self)
        requires
            width > 0,
            height > 0,
        ensures
            config == default_config(Codec::H265, width, height, DEFAULT_H265_QP),
    {
        EncodeConfig {
            codec: Codec::H265,
            dimensions: Dimensions { width, height },
            pixel_format: PixelFormat::Yuv420,
            bit_depth: BitDepth::Eight,
            rate_control_mode: RateControlMode::Disabled,
            target_bitrate: DEFAULT_TARGET_BITRATE,
            max_bitrate: DEFAULT_MAX_BITRATE,
            quality_level: DEFAULT_H265_QP,
            frame_rate_numerator: DEFAULT_FRAME_RATE,
            frame_rate_denominator: 1,
            gop_size: DEFAULT_GOP_SIZE,
            b_frame_count: 0,  // Start without B-frames for simplicity.
            max_reference_frames: DEFAULT_MAX_REFERENCE_FRAMES,
            virtual_buffer_size_ms: DEFAULT_VIRTUAL_BUFFER_MS,
            initial_virtual_buffer_size_ms: DEFAULT_VIRTUAL_BUFFER_MS,
            color_description: None,
        }
    }

    /// Create a new AV1 encode configuration with default settings.
    pub fn av1(width: u32, height: u32) -> (config: Self)
        requires
            width > 0,
            height > 0,
        ensures
            config == default_config(Codec::AV1, width, height, DEFAULT_AV1_QP),
    {
        EncodeConfig {
            codec: Codec::AV1,
            dimensions: Dimensions { width, height },
            pixel_format: PixelFormat::Yuv420,
            bit_depth: BitDepth::Eight,
            rate_control_mode: RateControlMode::Disabled,
            target_bitrate: DEFAULT_TARGET_BITRATE,
            max_bitrate: DEFAULT_MAX_BITRATE,
            quality_level: DEFAULT_AV1_QP,
            frame_rate_numerator: DEFAULT_FRAME_RATE,
            frame_rate_denominator: 1,
            gop_size: DEFAULT_GOP_SIZE,
            b_frame_count: 0,  // Start without B-frames for simplicity.
            max_reference_frames: DEFAULT_MAX_REFERENCE_FRAMES,
            virtual_buffer_size_ms: DEFAULT_VIRTUAL_BUFFER_MS,
            initial_virtual_buffer_size_ms: DEFAULT_VIRTUAL_BUFFER_MS,
            color_description: None,
        }
    }

    /// Set the rate control mode.
    pub fn with_rate_control(self, mode: RateControlMode) -> (config: Self)
        ensures
            config == (EncodeConfig { rate_control_mode: mode, ..self }),
    {
        let mut config = self;
        config.rate_control_mode = mode;
        config
    }

    /// Set the pixel format (chroma subsampling).
    pub fn with_pixel_format(self, format: PixelFormat) -> (config: Self)
        ensures
            config == (EncodeConfig { pixel_format: format, ..self }),
    {
        let mut config = self;
        config.pixel_format = format;
        config
    }

    /// Set the bit depth (8 or 10 bit).
    pub fn with_bit_depth(self, depth: BitDepth) -> (config: Self)
        ensures
            config == (EncodeConfig { bit_depth: depth, ..self }),
    {
        let mut config = self;
        config.bit_depth = depth;
        config
    }

    /// Set the quality level (QP for CQP mode).
    pub fn with_quality_level(self, level: u32) -> (config: Self)
        ensures
            config == (EncodeConfig { quality_level: level, ..self }),
    {
        let mut config = self;
        config.quality_level = level;
        config
    }

    /// Set the frame rate.
    pub fn with_frame_rate(self, numerator: u32, denominator: u32) -> (config: Self)
        ensures
            config == (EncodeConfig { frame_rate_numerator: numerator, frame_rate_denominator: denominator, ..self }),
    {
        let mut config = self;
        config.frame_rate_numerator = numerator;
        config.frame_rate_denominator = denominator;
        config
    }

    /// Set the GOP size.
    pub fn with_gop_size(self, size: u32) -> (config: Self)
        ensures
            config == (EncodeConfig { gop_size: size, ..self }),
    {
        let mut config = self;
        config.gop_size = size;
        config
    }

    /// Set the number of B-frames.
    pub fn with_b_frames(self, count: u32) -> (config: Self)
        ensures
            config == (EncodeConfig { b_frame_count: count, ..self }),
    {
        let mut config = self;
        config.b_frame_count = count;
        config
    }

    /// Set the maximum reference frames.
    pub fn with_max_reference_frames(self, count: u32) -> (config: Self)
        ensures
            config == (EncodeConfig { max_reference_frames: count, ..self }),
    {
        let mut config = self;
        config.max_reference_frames = count;
        config
    }

    /// Set the target bitrate.
    pub fn with_target_bitrate(self, bitrate: u32) -> (config: Self)
        ensures
            config == (EncodeConfig { target_bitrate: bitrate, ..self }),
    {
        let mut config = self;
        config.target_bitrate = bitrate;
        config
    }

    /// Set the maximum bitrate.
    pub fn with_max_bitrate(self, bitrate: u32) -> (config: Self)
        ensures
            config == (EncodeConfig { max_bitrate: bitrate, ..self }),
    {
        let mut config = self;
        config.max_bitrate = bitrate;
        config
    }

    /// Set the VBV/HRD virtual buffer size in milliseconds.
    /// Smaller values produce more uniform frame sizes at the cost of
    /// quality variation during scene changes.
    pub fn with_virtual_buffer_size_ms(self, ms: u32) -> (config: Self)
        ensures
            config == (EncodeConfig { virtual_buffer_size_ms: ms, ..self }),
    {
        let mut config = self;
        config.virtual_buffer_size_ms = ms;
        config
    }

    /// Set the initial VBV buffer fullness in milliseconds.
    /// Use 0 to tightly constrain IDR/I-frame sizes.
    pub fn with_initial_virtual_buffer_size_ms(self, ms: u32) -> (config: Self)
        ensures
            config == (EncodeConfig { initial_virtual_buffer_size_ms: ms, ..self }),
    {
        let mut config = self;
        config.initial_virtual_buffer_size_ms = ms;
        config
    }

    /// Set the color description for VUI signaling.
    pub fn with_color_description(self, desc: ColorDescription) -> (config: Self)
        ensures
            config == (EncodeConfig { color_description: Some(desc), ..self }),
    {
        let mut config = self;
        config.color_description = Some(desc);
        config
    }
}

/// Encoded video packet.
#[derive(Debug, Clone)]
pub struct EncodedPacket {
    /// Encoded bitstream data.
    pub data: Vec<u8>,
    /// Frame type.
    pub frame_type: FrameType,
    /// Whether this is a keyframe.
    pub is_key_frame: bool,
    /// Presentation timestamp.
    pub pts: u64,
    /// Decode timestamp.
    pub dts: u64,
}

/// What a packet holds.
#[verifier::ext_equal]
pub struct PacketModel {
    /// Encoded bitstream data.
    pub data: Seq<u8>,
    /// Frame type.
    pub frame_type: FrameType,
    /// Whether this is a keyframe.
    pub is_key_frame: bool,
    /// Presentation timestamp.
    pub pts: u64,
    /// Decode timestamp.
    pub dts: u64,
}

impl View for EncodedPacket {
    type V = PacketModel;

    open spec fn view(&self) -> PacketModel {
        PacketModel {
            data: self.data@,
            frame_type: self.frame_type,
            is_key_frame: self.is_key_frame,
            pts: self.pts,
            dts: self.dts,
        }
    }
}

/// A frame has a luma sample for each pixel, and for each of two chroma components a
/// quarter as many with 4:2:0, half as many with 4:2:2, and as many with 4:4:4.
pub proof fn law_frame_size_counts_the_samples(format: PixelFormat, pixels: int)
    requires
        pixels >= 0,
        pixels % 4 == 0,
    ensures
        ({
            let chroma = match format {
                PixelFormat::Yuv420 => pixels / 4,
                PixelFormat::Yuv422 => pixels / 2,
                PixelFormat::Yuv444 => pixels,
            };
            format.size_of(pixels) == pixels + chroma + chroma
        }),
{
}

/// A default configuration encodes 8-bit 4:2:0 frames with a fixed quantization parameter,
/// at 30 frames per second, with an IDR frame each second and without B-frames.
pub proof fn law_default_configuration(codec: Codec, width: u32, height: u32, qp: u32)
    ensures
        ({
            let config = default_config(codec, width, height, qp);
            &&& config.codec == codec
            &&& config.dimensions.width == width
            &&& config.dimensions.height == height
            &&& config.pixel_format == PixelFormat::Yuv420
            &&& config.bit_depth == BitDepth::Eight
            &&& config.rate_control_mode == RateControlMode::Disabled
            &&& config.quality_level == qp
            &&& config.frame_rate_denominator == 1
            &&& config.frame_rate_numerator == 30 * config.frame_rate_denominator
            &&& config.gop_size * config.frame_rate_denominator == config.frame_rate_numerator
            &&& config.b_frame_count == 0
            &&& config.max_reference_frames == 4
            &&& config.target_bitrate == 4_000_000
            &&& config.max_bitrate == config.target_bitrate + config.target_bitrate / 2
            &&& config.virtual_buffer_size_ms == 1000
            &&& config.initial_virtual_buffer_size_ms == config.virtual_buffer_size_ms
            &&& config.color_description is None
        }),
{
}

} // verus!
