//! H.264 profile, cropping, and sequence and picture parameter sets.

use crate::encoder::session::SessionPlan;
use crate::encoder::{BitDepth, ColorDescription, Dimensions, EncodeConfig, PixelFormat};
use crate::error::PixelForgeError;
use crate::text::{append_decimal, decimal};
use vstd::prelude::*;

verus! {

/// H.264 macroblock size in pixels.
pub const MB_SIZE: u32 = 16;

/// H.264 profiles.
#[derive(Debug, Clone, Copy, PartialEq, Eq, Structural)]
pub enum H264Profile {
    /// High profile.
    High,
    /// High 4:4:4 Predictive profile.
    High444Predictive,
}

/// The profile of a pixel format: High, or High 4:4:4 Predictive for YUV444.
pub open spec fn profile_of(format: PixelFormat) -> H264Profile {
    if format == PixelFormat::Yuv444 {
        H264Profile::High444Predictive
    } else {
        H264Profile::High
    }
}

/// Select the H.264 profile based on the pixel format.
pub fn h264_profile(format: PixelFormat) -> (profile: H264Profile)
    ensures
        profile == profile_of(format),
{
    match format {
        PixelFormat::Yuv444 => H264Profile::High444Predictive,
        _ => H264Profile::High,
    }
}

/// Cropping offsets are expressed in units that depend on chroma subsampling: 2
/// pixels for 4:2:0, 1 for 4:4:4.
pub open spec fn crop_unit(format: PixelFormat) -> u32 {
    if format == PixelFormat::Yuv420 {
        2
    } else {
        1
    }
}

/// Pixels of whole macroblocks beyond `size`.
pub open spec fn crop_pixels(coded: u32, size: u32) -> int {
    let whole = coded as int / 16 * 16;
    if whole >= size {
        whole - size
    } else {
        0
    }
}

fn pixels_to_crop(coded: u32, size: u32) -> (pixels: u32)
    ensures
        pixels == crop_pixels(coded, size),
{
    let whole: u32 = coded / 16 * 16;
    if whole >= size {
        whole - size
    } else {
        0
    }
}

fn crop_unit_of(format: PixelFormat) -> (unit: u32)
    ensures
        unit == crop_unit(format),
{
    match format {
        PixelFormat::Yuv420 => 2,
        _ => 1,
    }
}

/// The message that a dimension cannot be cropped to.
pub open spec fn not_representable(
    dimension: Seq<char>,
    coded_dimension: Seq<char>,
    unit_name: Seq<char>,
    size: u32,
    coded: u32,
    format: PixelFormat,
) -> Seq<char> {
    dimension + decimal(size as nat) + " is not representable for "@ + format.spelled()
        + coded_dimension + decimal((coded as int / 16 * 16) as nat) + unit_name + decimal(
        crop_unit(format) as nat,
    ) + "): crop delta "@ + decimal(crop_pixels(coded, size) as nat)
        + " must be divisible by crop unit"@
}

fn not_representable_message(
    dimension: &str,
    coded_dimension: &str,
    unit_name: &str,
    size: u32,
    coded: u32,
    format: PixelFormat,
) -> (message: String)
    ensures
        message@ == not_representable(
            dimension@,
            coded_dimension@,
            unit_name@,
            size,
            coded,
            format,
        ),
{
    let mut message = dimension.to_string();
    append_decimal(&mut message, size as u64);
    message.append(" is not representable for ");
    message.append(format.name());
    message.append(coded_dimension);
    append_decimal(&mut message, (coded / 16 * 16) as u64);
    message.append(unit_name);
    append_decimal(&mut message, crop_unit_of(format) as u64);
    message.append("): crop delta ");
    append_decimal(&mut message, pixels_to_crop(coded, size) as u64);
    message.append(" must be divisible by crop unit");
    message
}

/// The message that a pixel format is not supported.
pub open spec fn unsupported(format: PixelFormat) -> Seq<char> {
    "Unsupported pixel format for H.264: "@ + format.spelled()
}

fn unsupported_message(format: PixelFormat) -> (message: String)
    ensures
        message@ == unsupported(format),
{
    let mut message = "Unsupported pixel format for H.264: ".to_string();
    message.append(format.name());
    message
}

/// Both dimensions can be cropped to.
pub open spec fn croppable(dimensions: Dimensions, coded: Dimensions, format: PixelFormat) -> bool {
    &&& crop_pixels(coded.width, dimensions.width) % crop_unit(format) as int == 0
    &&& crop_pixels(coded.height, dimensions.height) % crop_unit(format) as int == 0
}

/// Checking the cropping of a coded extent to dimensions gives this result.
pub open spec fn checks_cropping(
    dimensions: Dimensions,
    coded: Dimensions,
    format: PixelFormat,
    result: Result<(), PixelForgeError>,
) -> bool {
    if format == PixelFormat::Yuv422 {
        result matches Err(e) && e.is_invalid_input(unsupported(format))
    } else if crop_pixels(coded.width, dimensions.width) % crop_unit(format) as int != 0 {
        result matches Err(e) && e.is_invalid_input(
            not_representable(
                "Width "@,
                " with coded width "@,
                " (crop_unit_x="@,
                dimensions.width,
                coded.width,
                format,
            ),
        )
    } else if crop_pixels(coded.height, dimensions.height) % crop_unit(format) as int != 0 {
        result matches Err(e) && e.is_invalid_input(
            not_representable(
                "Height "@,
                " with coded height "@,
                " (crop_unit_y="@,
                dimensions.height,
                coded.height,
                format,
            ),
        )
    } else {
        result is Ok
    }
}

/// Check that the coded extent can be cropped to the dimensions.
pub fn check_cropping(dimensions: Dimensions, coded: Dimensions, format: PixelFormat) -> (result:
    Result<(), PixelForgeError>)
    ensures
        checks_cropping(dimensions, coded, format, result),
{
    if format == PixelFormat::Yuv422 {
        return Err(PixelForgeError::InvalidInput(unsupported_message(format)));
    }
    let unit: u32 = crop_unit_of(format);
    if pixels_to_crop(coded.width, dimensions.width) % unit != 0 {
        return Err(
            PixelForgeError::InvalidInput(
                not_representable_message(
                    "Width ",
                    " with coded width ",
                    " (crop_unit_x=",
                    dimensions.width,
                    coded.width,
                    format,
                ),
            ),
        );
    }
    if pixels_to_crop(coded.height, dimensions.height) % unit != 0 {
        return Err(
            PixelForgeError::InvalidInput(
                not_representable_message(
                    "Height ",
                    " with coded height ",
                    " (crop_unit_y=",
                    dimensions.height,
                    coded.height,
                    format,
                ),
            ),
        );
    }
    Ok(())
}

/// Video usability information of a sequence parameter set.
#[derive(Debug, Clone, Copy, PartialEq, Eq, Structural)]
pub struct H264Vui {
    /// The aspect ratio is given: square samples.
    pub aspect_ratio_info_present: bool,
    /// The video signal type is given.
    pub video_signal_type_present: bool,
    /// Video format; 5 is unspecified.
    pub video_format: u8,
    /// Full range (true) or limited range (false).
    pub video_full_range: bool,
    /// The color description is given.
    pub color_description_present: bool,
    /// Color primaries.
    pub colour_primaries: u8,
    /// Transfer characteristics.
    pub transfer_characteristics: u8,
    /// Matrix coefficients.
    pub matrix_coefficients: u8,
    /// HRD parameters are given.
    pub nal_hrd_parameters_present: bool,
    /// Bitstream restrictions are given.
    pub bitstream_restriction: bool,
    /// Frames that precede others in decoding order but follow in output order.
    pub max_num_reorder_frames: u8,
    /// Frames that the decoder buffers.
    pub max_dec_frame_buffering: u8,
}

/// Sequence parameter set. What it leaves out is zero.
#[derive(Debug, Clone, Copy, PartialEq, Eq, Structural)]
pub struct H264Sps {
    /// Profile.
    pub profile: H264Profile,
    /// Level, times 10.
    pub level: u8,
    /// Chroma format: 1 is 4:2:0, 3 is 4:4:4.
    pub chroma_format_idc: u8,
    /// Bit depth of luma samples, minus 8.
    pub bit_depth_luma_minus8: u8,
    /// Bit depth of chroma samples, minus 8.
    pub bit_depth_chroma_minus8: u8,
    /// Direct prediction infers motion vectors of 8x8 blocks.
    pub direct_8x8_inference: bool,
    /// All pictures are frames.
    pub frame_mbs_only: bool,
    /// log2 of the frame number range, minus 4.
    pub log2_max_frame_num_minus4: u8,
    /// How picture order counts are coded: 0 with B frames, 2 without.
    pub pic_order_cnt_type: u8,
    /// log2 of the picture order count LSB range, minus 4.
    pub log2_max_pic_order_cnt_lsb_minus4: u8,
    /// Number of reference frames.
    pub max_num_ref_frames: u8,
    /// Width in macroblocks, minus 1.
    pub pic_width_in_mbs_minus1: u32,
    /// Height in macroblocks, minus 1.
    pub pic_height_in_map_units_minus1: u32,
    /// Frames are cropped.
    pub frame_cropping: bool,
    /// Crop units that are cut off at the right.
    pub frame_crop_right_offset: u32,
    /// Crop units that are cut off at the bottom.
    pub frame_crop_bottom_offset: u32,
    /// Video usability information.
    pub vui: H264Vui,
}

/// Picture parameter set. What it leaves out is zero.
#[derive(Debug, Clone, Copy, PartialEq, Eq, Structural)]
pub struct H264Pps {
    /// The 8x8 transform is used.
    pub transform_8x8_mode: bool,
    /// Entropy coding is CABAC (true) or CAVLC (false).
    pub entropy_coding_mode: bool,
    /// Slices can control the deblocking filter.
    pub deblocking_filter_control_present: bool,
    /// Default number of references, minus 1.
    pub num_ref_idx_l0_default_active_minus1: u8,
    /// Offset of the quantization of Cb.
    pub chroma_qp_index_offset: i8,
    /// Offset of the quantization of Cr.
    pub second_chroma_qp_index_offset: i8,
}

/// Parameter sets of a stream.
#[derive(Debug, Clone, Copy, PartialEq, Eq, Structural)]
pub struct H264Parameters {
    /// Sequence parameter set.
    pub sps: H264Sps,
    /// Picture parameter set.
    pub pps: H264Pps,
}

/// Crop units that are cut off a coded dimension.
pub open spec fn crop_offset(coded: u32, size: u32, format: PixelFormat) -> int {
    crop_pixels(coded, size) / crop_unit(format) as int
}

/// The parameter sets of a stream.
pub open spec fn parameters_of(
    config: EncodeConfig,
    session: SessionPlan,
    cabac: bool,
    desc: ColorDescription,
) -> H264Parameters {
    let format = config.pixel_format;
    let coded = session.coded_extent;
    let right = crop_offset(coded.width, config.dimensions.width, format);
    let bottom = crop_offset(coded.height, config.dimensions.height, format);
    let depth: u8 = if config.bit_depth == BitDepth::Ten {
        2
    } else {
        0
    };
    let chroma_offset: i8 = if format == PixelFormat::Yuv444 {
        6
    } else {
        0
    };
    let active = session.active_reference_count;
    H264Parameters {
        sps: H264Sps {
            profile: profile_of(format),
            level: 41,
            chroma_format_idc: if format == PixelFormat::Yuv444 {
                3
            } else {
                1
            },
            bit_depth_luma_minus8: depth,
            bit_depth_chroma_minus8: depth,
            direct_8x8_inference: true,
            frame_mbs_only: true,
            log2_max_frame_num_minus4: 4,
            pic_order_cnt_type: if config.b_frame_count > 0 {
                0
            } else {
                2
            },
            log2_max_pic_order_cnt_lsb_minus4: 4,
            max_num_ref_frames: active as u8,
            pic_width_in_mbs_minus1: (coded.width as int / 16 - 1) as u32,
            pic_height_in_map_units_minus1: (coded.height as int / 16 - 1) as u32,
            frame_cropping: right > 0 || bottom > 0,
            frame_crop_right_offset: right as u32,
            frame_crop_bottom_offset: bottom as u32,
            vui: H264Vui {
                aspect_ratio_info_present: true,
                video_signal_type_present: true,
                video_format: 5,
                video_full_range: desc.full_range,
                color_description_present: true,
                colour_primaries: desc.color_primaries,
                transfer_characteristics: desc.transfer_characteristics,
                matrix_coefficients: desc.matrix_coefficients,
                nal_hrd_parameters_present: false,
                bitstream_restriction: true,
                max_num_reorder_frames: if config.b_frame_count > 0 {
                    1
                } else {
                    0
                },
                max_dec_frame_buffering: (active + 1) as u8,
            },
        },
        pps: H264Pps {
            transform_8x8_mode: true,
            entropy_coding_mode: cabac,
            deblocking_filter_control_present: true,
            num_ref_idx_l0_default_active_minus1: if active > 0 {
                (active - 1) as u8
            } else {
                0
            },
            chroma_qp_index_offset: chroma_offset,
            second_chroma_qp_index_offset: chroma_offset,
        },
    }
}

/// Build SPS/PPS.
///
/// This is used both during initial encoder creation and when the color
/// description changes. Keeping a single implementation ensures the parameter sets
/// stay consistent.
pub fn build_parameters(
    config: &EncodeConfig,
    session: &SessionPlan,
    preferred_entropy_cabac: bool,
    desc: &ColorDescription,
) -> (parameters: Result<H264Parameters, PixelForgeError>)
    requires
        session.coded_extent.width >= MB_SIZE,
        session.coded_extent.height >= MB_SIZE,
        session.active_reference_count < 128,
    ensures
        match parameters {
            Ok(parameters) => config.pixel_format != PixelFormat::Yuv422 && parameters
                == parameters_of(*config, *session, preferred_entropy_cabac, *desc),
            Err(e) => config.pixel_format == PixelFormat::Yuv422 && e.is_invalid_input(
                unsupported(config.pixel_format),
            ),
        },
{
    let format = config.pixel_format;
    if format == PixelFormat::Yuv422 {
        return Err(PixelForgeError::InvalidInput(unsupported_message(format)));
    }
    let coded = session.coded_extent;
    let unit: u32 = crop_unit_of(format);
    let right: u32 = pixels_to_crop(coded.width, config.dimensions.width) / unit;
    let bottom: u32 = pixels_to_crop(coded.height, config.dimensions.height) / unit;
    let depth: u8 = match config.bit_depth {
        BitDepth::Eight => 0,
        BitDepth::Ten => 2,
    };
    // Chroma QP offsets of 6 for 4:4:4 improve driver compatibility for SPS/PPS
    // generation.
    let chroma_offset: i8 = match format {
        PixelFormat::Yuv444 => 6,
        _ => 0,
    };
    let max_active: u8 = session.active_reference_count as u8;
    let vui = H264Vui {
        aspect_ratio_info_present: true,
        video_signal_type_present: true,
        video_format: 5,
        video_full_range: desc.full_range,
        color_description_present: true,
        colour_primaries: desc.color_primaries,
        transfer_characteristics: desc.transfer_characteristics,
        matrix_coefficients: desc.matrix_coefficients,
        // HRD with zeroed bitrate values causes device loss on some drivers.
        nal_hrd_parameters_present: false,
        bitstream_restriction: true,
        max_num_reorder_frames: if config.b_frame_count > 0 {
            1
        } else {
            0
        },
        max_dec_frame_buffering: max_active + 1,
    };
    let sps = H264Sps {
        profile: h264_profile(format),
        level: 41,
        chroma_format_idc: match format {
            PixelFormat::Yuv444 => 3,
            _ => 1,
        },
        bit_depth_luma_minus8: depth,
        bit_depth_chroma_minus8: depth,
        direct_8x8_inference: true,
        frame_mbs_only: true,
        log2_max_frame_num_minus4: 4,
        pic_order_cnt_type: if config.b_frame_count > 0 {
            0
        } else {
            2
        },
        log2_max_pic_order_cnt_lsb_minus4: 4,
        max_num_ref_frames: max_active,
        pic_width_in_mbs_minus1: coded.width / 16 - 1,
        pic_height_in_map_units_minus1: coded.height / 16 - 1,
        frame_cropping: right > 0 || bottom > 0,
        frame_crop_right_offset: right,
        frame_crop_bottom_offset: bottom,
        vui,
    };
    let pps = H264Pps {
        // Required by some drivers for High 4:4:4 Predictive SPS/PPS generation.
        transform_8x8_mode: true,
        // Some drivers require CAVLC for High 4:4:4 Predictive.
        entropy_coding_mode: preferred_entropy_cabac,
        deblocking_filter_control_present: true,
        num_ref_idx_l0_default_active_minus1: if max_active > 0 {
            max_active - 1
        } else {
            0
        },
        chroma_qp_index_offset: chroma_offset,
        second_chroma_qp_index_offset: chroma_offset,
    };
    Ok(H264Parameters { sps, pps })
}

/// A decoder that crops the coded pictures as the sequence parameter set says gets
/// pictures of the dimensions of the configuration.
pub proof fn law_cropping_gives_dimensions(
    config: EncodeConfig,
    session: SessionPlan,
    cabac: bool,
    desc: ColorDescription,
)
    requires
        session.coded_extent.width % 16 == 0,
        session.coded_extent.height % 16 == 0,
        16 <= session.coded_extent.width,
        16 <= session.coded_extent.height,
        config.dimensions.width <= session.coded_extent.width,
        config.dimensions.height <= session.coded_extent.height,
        croppable(config.dimensions, session.coded_extent, config.pixel_format),
    ensures
        ({
            let sps = parameters_of(config, session, cabac, desc).sps;
            let unit = crop_unit(config.pixel_format);
            &&& (sps.pic_width_in_mbs_minus1 + 1) * 16 - sps.frame_crop_right_offset * unit
                == config.dimensions.width
            &&& (sps.pic_height_in_map_units_minus1 + 1) * 16 - sps.frame_crop_bottom_offset * unit
                == config.dimensions.height
            &&& !sps.frame_cropping ==> session.coded_extent == config.dimensions
        }),
{
}

} // verus!
