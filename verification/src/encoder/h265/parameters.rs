//! H.265 profile, and video, sequence and picture parameter sets.

use crate::encoder::session::SessionPlan;
use crate::encoder::{BitDepth, ColorDescription, EncodeConfig, PixelFormat};
use crate::error::PixelForgeError;
use vstd::prelude::*;

verus! {

/// H.265 Coding Tree Block (CTB) size in pixels.
pub const CTB_SIZE: u32 = 32;

/// H.265 profiles.
#[derive(Debug, Clone, Copy, PartialEq, Eq, Structural)]
pub enum H265Profile {
    /// Main profile.
    Main,
    /// Main 10 profile.
    Main10,
    /// Format range extensions profiles, such as Main 4:4:4.
    FormatRangeExtensions,
}

/// The profile of a pixel format and bit depth, none for YUV422.
pub open spec fn profile_of(format: PixelFormat, depth: BitDepth) -> Option<H265Profile> {
    match (format, depth) {
        (PixelFormat::Yuv420, BitDepth::Eight) => Some(H265Profile::Main),
        (PixelFormat::Yuv420, BitDepth::Ten) => Some(H265Profile::Main10),
        (PixelFormat::Yuv444, _) => Some(H265Profile::FormatRangeExtensions),
        (PixelFormat::Yuv422, _) => None,
    }
}

/// The message that a combination of pixel format and bit depth is not supported.
pub open spec fn unsupported_combination(format: PixelFormat, depth: BitDepth) -> Seq<char> {
    "Unsupported pixel format / bit depth combination for H.265: "@ + format.spelled() + " / "@
        + depth.spelled()
}

/// Select the profile based on pixel format and bit depth:
/// - Main for YUV420 8-bit
/// - Main 10 for YUV420 10-bit
/// - format range extensions for YUV444
pub fn h265_profile(format: PixelFormat, depth: BitDepth) -> (profile: Result<
    H265Profile,
    PixelForgeError,
>)
    ensures
        match profile {
            Ok(profile) => profile_of(format, depth) == Some(profile),
            Err(e) => profile_of(format, depth) is None && e.is_invalid_input(
                unsupported_combination(format, depth),
            ),
        },
{
    match (format, depth) {
        (PixelFormat::Yuv420, BitDepth::Eight) => Ok(H265Profile::Main),
        (PixelFormat::Yuv420, BitDepth::Ten) => Ok(H265Profile::Main10),
        (PixelFormat::Yuv444, _) => Ok(H265Profile::FormatRangeExtensions),
        (PixelFormat::Yuv422, _) => {
            let mut message =
                "Unsupported pixel format / bit depth combination for H.265: ".to_string();
            message.append(format.name());
            message.append(" / ");
            message.append(depth.name());
            Err(PixelForgeError::InvalidInput(message))
        },
    }
}

/// Video usability information of a sequence parameter set. What it leaves out is
/// zero.
#[derive(Debug, Clone, Copy, PartialEq, Eq, Structural)]
pub struct H265Vui {
    /// The aspect ratio is given: square samples.
    pub aspect_ratio_info_present: bool,
    /// The video signal type is given.
    pub video_signal_type_present: bool,
    /// Video format; 5 is unspecified.
    pub video_format: u8,
    /// Full range (true) or limited range (false).
    pub video_full_range: bool,
    /// The color description is given.
    pub colour_description_present: bool,
    /// Color primaries.
    pub colour_primaries: u8,
    /// Transfer characteristics.
    pub transfer_characteristics: u8,
    /// Matrix coefficients.
    pub matrix_coeffs: u8,
}

/// Profile, tier and level. What it leaves out is zero.
#[derive(Debug, Clone, Copy, PartialEq, Eq, Structural)]
pub struct H265ProfileTierLevel {
    /// The source is progressive.
    pub general_progressive_source: bool,
    /// All pictures are frames.
    pub general_frame_only_constraint: bool,
    /// Profile.
    pub general_profile: H265Profile,
    /// Level, times 10.
    pub general_level: u8,
}

/// Video parameter set. What it leaves out is zero.
#[derive(Debug, Clone, Copy, PartialEq, Eq, Structural)]
pub struct H265Vps {
    /// Temporal layers are nested.
    pub temporal_id_nesting: bool,
    /// Buffering is given for each layer.
    pub sub_layer_ordering_info_present: bool,
}

/// Sequence parameter set. What it leaves out is zero.
#[derive(Debug, Clone, Copy, PartialEq, Eq, Structural)]
pub struct H265Sps {
    /// Temporal layers are nested.
    pub temporal_id_nesting: bool,
    /// Pictures are cropped to a conformance window.
    pub conformance_window: bool,
    /// Buffering is given for each layer.
    pub sub_layer_ordering_info_present: bool,
    /// Blocks can be partitioned asymmetrically.
    pub amp_enabled: bool,
    /// The sample adaptive offset filter is used.
    pub sample_adaptive_offset_enabled: bool,
    /// Video usability information is given.
    pub vui_parameters_present: bool,
    /// Chroma format: 1 is 4:2:0, 3 is 4:4:4.
    pub chroma_format_idc: u8,
    /// Coded width.
    pub pic_width_in_luma_samples: u32,
    /// Coded height.
    pub pic_height_in_luma_samples: u32,
    /// Bit depth of luma samples, minus 8.
    pub bit_depth_luma_minus8: u8,
    /// Bit depth of chroma samples, minus 8.
    pub bit_depth_chroma_minus8: u8,
    /// log2 of the picture order count LSB range, minus 4.
    pub log2_max_pic_order_cnt_lsb_minus4: u8,
    /// log2 of the smallest coding block, minus 3.
    pub log2_min_luma_coding_block_size_minus3: u8,
    /// log2 of the largest coding block by the smallest.
    pub log2_diff_max_min_luma_coding_block_size: u8,
    /// log2 of the smallest transform block, minus 2.
    pub log2_min_luma_transform_block_size_minus2: u8,
    /// log2 of the largest transform block by the smallest.
    pub log2_diff_max_min_luma_transform_block_size: u8,
    /// How often transform blocks are divided in inter prediction.
    pub max_transform_hierarchy_depth_inter: u8,
    /// How often transform blocks are divided in intra prediction.
    pub max_transform_hierarchy_depth_intra: u8,
    /// Bit depth of luma PCM samples, minus 1.
    pub pcm_sample_bit_depth_luma_minus1: u8,
    /// Bit depth of chroma PCM samples, minus 1.
    pub pcm_sample_bit_depth_chroma_minus1: u8,
    /// log2 of the smallest PCM block, minus 3.
    pub log2_min_pcm_luma_coding_block_size_minus3: u8,
    /// log2 of the largest PCM block by the smallest.
    pub log2_diff_max_min_pcm_luma_coding_block_size: u8,
    /// Chroma samples that are cut off at the right.
    pub conf_win_right_offset: u32,
    /// Chroma samples that are cut off at the bottom.
    pub conf_win_bottom_offset: u32,
    /// Pictures that the decoder buffers, minus 1.
    pub max_dec_pic_buffering_minus1: u8,
    /// References before a picture, in the reference picture set that is given.
    pub rps_num_negative_pics: u8,
    /// Which of them a picture uses.
    pub rps_used_by_curr_pic_s0_flag: u16,
    /// Profile, tier and level.
    pub profile_tier_level: H265ProfileTierLevel,
    /// Video usability information.
    pub vui: H265Vui,
}

/// Picture parameter set. What it leaves out is zero.
#[derive(Debug, Clone, Copy, PartialEq, Eq, Structural)]
pub struct H265Pps {
    /// Slices can choose how CABAC is initialised.
    pub cabac_init_present: bool,
    /// Blocks can skip the transform.
    pub transform_skip_enabled: bool,
    /// Blocks can change the quantization.
    pub cu_qp_delta_enabled: bool,
    /// The loop filter crosses slices.
    pub loop_filter_across_slices_enabled: bool,
    /// Slices can control the deblocking filter.
    pub deblocking_filter_control_present: bool,
    /// Bit depth of luma palette entries, minus 8.
    pub luma_bit_depth_entry_minus8: u8,
    /// Bit depth of chroma palette entries, minus 8.
    pub chroma_bit_depth_entry_minus8: u8,
}

/// Parameter sets of a stream.
#[derive(Debug, Clone, Copy, PartialEq, Eq, Structural)]
pub struct H265Parameters {
    /// Video parameter set.
    pub vps: H265Vps,
    /// Sequence parameter set.
    pub sps: H265Sps,
    /// Picture parameter set.
    pub pps: H265Pps,
}

/// Luma samples for each chroma sample in both directions: 1 for 4:4:4, otherwise 2.
pub open spec fn chroma_unit(format: PixelFormat) -> u32 {
    if format == PixelFormat::Yuv444 {
        1
    } else {
        2
    }
}

/// Chroma samples that are cut off a coded dimension.
pub open spec fn window_offset(coded: u32, size: u32, format: PixelFormat) -> int {
    (coded - size) / chroma_unit(format) as int
}

/// The parameter sets of a stream.
pub open spec fn parameters_of(
    config: EncodeConfig,
    session: SessionPlan,
    profile: H265Profile,
    desc: ColorDescription,
) -> H265Parameters {
    let format = config.pixel_format;
    let coded = session.coded_extent;
    let right = window_offset(coded.width, config.dimensions.width, format);
    let bottom = window_offset(coded.height, config.dimensions.height, format);
    let depth: u8 = if config.bit_depth == BitDepth::Ten {
        2
    } else {
        0
    };
    H265Parameters {
        vps: H265Vps { temporal_id_nesting: true, sub_layer_ordering_info_present: true },
        sps: H265Sps {
            temporal_id_nesting: true,
            conformance_window: right > 0 || bottom > 0,
            sub_layer_ordering_info_present: true,
            amp_enabled: true,
            sample_adaptive_offset_enabled: true,
            vui_parameters_present: true,
            chroma_format_idc: if format == PixelFormat::Yuv444 {
                3
            } else {
                1
            },
            pic_width_in_luma_samples: coded.width,
            pic_height_in_luma_samples: coded.height,
            bit_depth_luma_minus8: depth,
            bit_depth_chroma_minus8: depth,
            log2_max_pic_order_cnt_lsb_minus4: 4,
            log2_min_luma_coding_block_size_minus3: 1,
            log2_diff_max_min_luma_coding_block_size: 1,
            log2_min_luma_transform_block_size_minus2: 0,
            log2_diff_max_min_luma_transform_block_size: 3,
            max_transform_hierarchy_depth_inter: 3,
            max_transform_hierarchy_depth_intra: 3,
            pcm_sample_bit_depth_luma_minus1: 7,
            pcm_sample_bit_depth_chroma_minus1: 7,
            log2_min_pcm_luma_coding_block_size_minus3: 1,
            log2_diff_max_min_pcm_luma_coding_block_size: 1,
            conf_win_right_offset: right as u32,
            conf_win_bottom_offset: bottom as u32,
            max_dec_pic_buffering_minus1: (session.dpb_slot_count - 1) as u8,
            rps_num_negative_pics: 1,
            rps_used_by_curr_pic_s0_flag: 1,
            profile_tier_level: H265ProfileTierLevel {
                general_progressive_source: true,
                general_frame_only_constraint: true,
                general_profile: profile,
                general_level: 51,
            },
            vui: H265Vui {
                aspect_ratio_info_present: true,
                video_signal_type_present: true,
                video_format: 5,
                video_full_range: desc.full_range,
                colour_description_present: true,
                colour_primaries: desc.color_primaries,
                transfer_characteristics: desc.transfer_characteristics,
                matrix_coeffs: desc.matrix_coefficients,
            },
        },
        pps: H265Pps {
            cabac_init_present: true,
            transform_skip_enabled: true,
            cu_qp_delta_enabled: true,
            loop_filter_across_slices_enabled: true,
            deblocking_filter_control_present: true,
            luma_bit_depth_entry_minus8: depth,
            chroma_bit_depth_entry_minus8: depth,
        },
    }
}

/// The message that a pixel format is not supported.
pub open spec fn unsupported(format: PixelFormat) -> Seq<char> {
    "Unsupported pixel format for H.265: "@ + format.spelled()
}

/// Build VPS/SPS/PPS.
///
/// This is used both during initial encoder creation and when the color
/// description changes. Keeping a single implementation ensures the parameter sets
/// stay consistent.
pub fn build_parameters(
    config: &EncodeConfig,
    session: &SessionPlan,
    profile: H265Profile,
    desc: &ColorDescription,
) -> (parameters: Result<H265Parameters, PixelForgeError>)
    requires
        session.coded_extent.width >= config.dimensions.width,
        session.coded_extent.height >= config.dimensions.height,
        1 <= session.dpb_slot_count <= 256,
    ensures
        match parameters {
            Ok(parameters) => config.pixel_format != PixelFormat::Yuv422 && parameters
                == parameters_of(*config, *session, profile, *desc),
            Err(e) => config.pixel_format == PixelFormat::Yuv422 && e.is_invalid_input(
                unsupported(config.pixel_format),
            ),
        },
{
    // CTB/CB size constants.
    let ctb_log2_size_y: u8 = 5;
    let min_cb_log2_size_y: u8 = 4;
    let log2_min_transform_block_size: u8 = 2;
    let log2_max_transform_block_size: u8 = 5;

    let format = config.pixel_format;
    let coded = session.coded_extent;
    let unit: u32 = match format {
        PixelFormat::Yuv444 => 1,
        _ => 2,
    };
    let right: u32 = (coded.width - config.dimensions.width) / unit;
    let bottom: u32 = (coded.height - config.dimensions.height) / unit;
    let depth: u8 = match config.bit_depth {
        BitDepth::Eight => 0,
        BitDepth::Ten => 2,
    };
    if format == PixelFormat::Yuv422 {
        let mut message = "Unsupported pixel format for H.265: ".to_string();
        message.append(format.name());
        return Err(PixelForgeError::InvalidInput(message));
    }
    let sps = H265Sps {
        temporal_id_nesting: true,
        conformance_window: right > 0 || bottom > 0,
        sub_layer_ordering_info_present: true,
        amp_enabled: true,
        sample_adaptive_offset_enabled: true,
        vui_parameters_present: true,
        chroma_format_idc: match format {
            PixelFormat::Yuv444 => 3,
            _ => 1,
        },
        pic_width_in_luma_samples: coded.width,
        pic_height_in_luma_samples: coded.height,
        bit_depth_luma_minus8: depth,
        bit_depth_chroma_minus8: depth,
        log2_max_pic_order_cnt_lsb_minus4: 4,
        log2_min_luma_coding_block_size_minus3: min_cb_log2_size_y - 3,
        log2_diff_max_min_luma_coding_block_size: ctb_log2_size_y - min_cb_log2_size_y,
        log2_min_luma_transform_block_size_minus2: log2_min_transform_block_size - 2,
        log2_diff_max_min_luma_transform_block_size: log2_max_transform_block_size
            - log2_min_transform_block_size,
        max_transform_hierarchy_depth_inter: ctb_log2_size_y - log2_min_transform_block_size,
        max_transform_hierarchy_depth_intra: 3,
        pcm_sample_bit_depth_luma_minus1: 7,
        pcm_sample_bit_depth_chroma_minus1: 7,
        log2_min_pcm_luma_coding_block_size_minus3: min_cb_log2_size_y - 3,
        log2_diff_max_min_pcm_luma_coding_block_size: ctb_log2_size_y - min_cb_log2_size_y,
        conf_win_right_offset: right,
        conf_win_bottom_offset: bottom,
        max_dec_pic_buffering_minus1: (session.dpb_slot_count - 1) as u8,
        rps_num_negative_pics: 1,
        rps_used_by_curr_pic_s0_flag: 1,
        profile_tier_level: H265ProfileTierLevel {
            general_progressive_source: true,
            general_frame_only_constraint: true,
            general_profile: profile,
            general_level: 51,
        },
        vui: H265Vui {
            aspect_ratio_info_present: true,
            video_signal_type_present: true,
            video_format: 5,
            video_full_range: desc.full_range,
            colour_description_present: true,
            colour_primaries: desc.color_primaries,
            transfer_characteristics: desc.transfer_characteristics,
            matrix_coeffs: desc.matrix_coefficients,
        },
    };
    let pps = H265Pps {
        cabac_init_present: true,
        transform_skip_enabled: true,
        cu_qp_delta_enabled: true,
        loop_filter_across_slices_enabled: true,
        deblocking_filter_control_present: true,
        luma_bit_depth_entry_minus8: depth,
        chroma_bit_depth_entry_minus8: depth,
    };
    Ok(
        H265Parameters {
            vps: H265Vps { temporal_id_nesting: true, sub_layer_ordering_info_present: true },
            sps,
            pps,
        },
    )
}

/// A decoder that cuts off what lies outside the conformance window gets pictures
/// of the dimensions of the configuration, if chroma samples divide the difference
/// evenly.
pub proof fn law_window_gives_dimensions(
    config: EncodeConfig,
    session: SessionPlan,
    profile: H265Profile,
    desc: ColorDescription,
)
    requires
        config.dimensions.width <= session.coded_extent.width,
        config.dimensions.height <= session.coded_extent.height,
        (session.coded_extent.width - config.dimensions.width) % chroma_unit(
            config.pixel_format,
        ) as int == 0,
        (session.coded_extent.height - config.dimensions.height) % chroma_unit(
            config.pixel_format,
        ) as int == 0,
    ensures
        ({
            let sps = parameters_of(config, session, profile, desc).sps;
            let unit = chroma_unit(config.pixel_format);
            &&& sps.pic_width_in_luma_samples - sps.conf_win_right_offset * unit
                == config.dimensions.width
            &&& sps.pic_height_in_luma_samples - sps.conf_win_bottom_offset * unit
                == config.dimensions.height
            &&& !sps.conformance_window ==> session.coded_extent == config.dimensions
        }),
{
}

} // verus!
