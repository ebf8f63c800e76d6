//! Configuration of encoders.

use pixelforge::encoder::{
    BitDepth, ChromaSubsamplingFlags, Codec, ColorDescription, ComponentBitDepthFlags,
    EncodeConfig, EncodedPacket, FrameType, PixelFormat, RateControlMode,
};
use ash::vk;

#[test]
fn test_yuv420_frame_size() {
    // YUV420: Y = width * height, U = Y/4, V = Y/4 -> total = Y * 1.5
    let size = PixelFormat::Yuv420.frame_size(1920, 1080);
    let expected = (1920 * 1080) * 3 / 2; // 3110400
    assert_eq!(size, expected);
}

#[test]
fn test_yuv422_frame_size() {
    // YUV422: Y = width * height, U = Y/2, V = Y/2 -> total = Y * 2
    let size = PixelFormat::Yuv422.frame_size(1920, 1080);
    let expected = (1920 * 1080) * 2; // 4147200
    assert_eq!(size, expected);
}

#[test]
fn test_yuv444_frame_size() {
    // YUV444: Y = width * height, U = Y, V = Y -> total = Y * 3
    let size = PixelFormat::Yuv444.frame_size(1920, 1080);
    let expected = (1920 * 1080) * 3; // 6220800
    assert_eq!(size, expected);
}

#[test]
fn test_small_resolution() {
    // Test with small resolution.
    let size = PixelFormat::Yuv420.frame_size(320, 240);
    let expected = (320 * 240) * 3 / 2; // 115200
    assert_eq!(size, expected);
}

#[test]
fn test_4k_resolution() {
    // Test with 4K resolution.
    let size = PixelFormat::Yuv420.frame_size(3840, 2160);
    let expected = (3840 * 2160) * 3 / 2; // 12441600
    assert_eq!(size, expected);
}

#[test]
fn test_h264_defaults() {
    let config = EncodeConfig::h264(1920, 1080);

    assert_eq!(config.codec, Codec::H264);
    assert_eq!(config.dimensions.width, 1920);
    assert_eq!(config.dimensions.height, 1080);
    assert_eq!(config.pixel_format, PixelFormat::Yuv420);
    assert_eq!(config.bit_depth, BitDepth::Eight);
    assert_eq!(config.rate_control_mode, RateControlMode::Disabled);
    assert_eq!(config.quality_level, 26);
    assert_eq!(config.gop_size, 30);
    assert_eq!(config.b_frame_count, 0);
    assert_eq!(config.frame_rate_numerator, 30);
    assert_eq!(config.frame_rate_denominator, 1);
}

#[test]
fn test_h265_defaults() {
    let config = EncodeConfig::h265(3840, 2160);

    assert_eq!(config.codec, Codec::H265);
    assert_eq!(config.dimensions.width, 3840);
    assert_eq!(config.dimensions.height, 2160);
    assert_eq!(config.quality_level, 28); // H.265 uses slightly higher QP
}

#[test]
fn test_with_rate_control() {
    let config = EncodeConfig::h264(1920, 1080).with_rate_control(RateControlMode::Cbr);

    assert_eq!(config.rate_control_mode, RateControlMode::Cbr);
}

#[test]
fn test_with_pixel_format() {
    let config = EncodeConfig::h264(1920, 1080).with_pixel_format(PixelFormat::Yuv444);

    assert_eq!(config.pixel_format, PixelFormat::Yuv444);
}

#[test]
fn test_with_bit_depth() {
    let config = EncodeConfig::h265(1920, 1080).with_bit_depth(BitDepth::Ten);

    assert_eq!(config.bit_depth, BitDepth::Ten);
}

#[test]
fn test_with_quality_level() {
    let config = EncodeConfig::h264(1920, 1080).with_quality_level(20);

    assert_eq!(config.quality_level, 20);
}

#[test]
fn test_with_frame_rate() {
    let config = EncodeConfig::h264(1920, 1080).with_frame_rate(60, 1);

    assert_eq!(config.frame_rate_numerator, 60);
    assert_eq!(config.frame_rate_denominator, 1);
}

#[test]
fn test_with_gop_size() {
    let config = EncodeConfig::h264(1920, 1080).with_gop_size(60);

    assert_eq!(config.gop_size, 60);
}

#[test]
fn test_with_b_frames() {
    let config = EncodeConfig::h264(1920, 1080).with_b_frames(2);

    assert_eq!(config.b_frame_count, 2);
}

#[test]
fn test_with_max_reference_frames() {
    let config = EncodeConfig::h264(1920, 1080).with_max_reference_frames(8);

    assert_eq!(config.max_reference_frames, 8);
}

#[test]
fn test_with_target_bitrate() {
    let config = EncodeConfig::h264(1920, 1080).with_target_bitrate(8_000_000);

    assert_eq!(config.target_bitrate, 8_000_000);
}

#[test]
fn test_with_max_bitrate() {
    let config = EncodeConfig::h264(1920, 1080).with_max_bitrate(12_000_000);

    assert_eq!(config.max_bitrate, 12_000_000);
}

#[test]
fn test_av1_defaults() {
    let config = EncodeConfig::av1(2560, 1440);

    assert_eq!(config.codec, Codec::AV1);
    assert_eq!(config.dimensions.width, 2560);
    assert_eq!(config.dimensions.height, 1440);
    assert_eq!(config.pixel_format, PixelFormat::Yuv420);
    assert_eq!(config.bit_depth, BitDepth::Eight);
    assert_eq!(config.rate_control_mode, RateControlMode::Disabled);
    assert_eq!(config.quality_level, 128); // AV1 uses 0-255 QP range
    assert_eq!(config.gop_size, 30);
    assert_eq!(config.b_frame_count, 0);
    assert_eq!(config.frame_rate_numerator, 30);
    assert_eq!(config.frame_rate_denominator, 1);
}

#[test]
fn test_av1_builder_chaining() {
    let config = EncodeConfig::av1(1920, 1080)
        .with_rate_control(RateControlMode::Vbr)
        .with_target_bitrate(8_000_000)
        .with_max_bitrate(12_000_000)
        .with_gop_size(60)
        .with_frame_rate(60, 1)
        .with_quality_level(100)
        .with_max_reference_frames(2);

    assert_eq!(config.codec, Codec::AV1);
    assert_eq!(config.rate_control_mode, RateControlMode::Vbr);
    assert_eq!(config.target_bitrate, 8_000_000);
    assert_eq!(config.max_bitrate, 12_000_000);
    assert_eq!(config.gop_size, 60);
    assert_eq!(config.frame_rate_numerator, 60);
    assert_eq!(config.quality_level, 100);
    assert_eq!(config.max_reference_frames, 2);
}

#[test]
fn test_builder_chaining() {
    let config = EncodeConfig::h264(1920, 1080)
        .with_rate_control(RateControlMode::Vbr)
        .with_target_bitrate(6_000_000)
        .with_max_bitrate(10_000_000)
        .with_gop_size(120)
        .with_b_frames(2)
        .with_frame_rate(60, 1)
        .with_pixel_format(PixelFormat::Yuv420)
        .with_bit_depth(BitDepth::Eight);

    assert_eq!(config.rate_control_mode, RateControlMode::Vbr);
    assert_eq!(config.target_bitrate, 6_000_000);
    assert_eq!(config.max_bitrate, 10_000_000);
    assert_eq!(config.gop_size, 120);
    assert_eq!(config.b_frame_count, 2);
    assert_eq!(config.frame_rate_numerator, 60);
}

#[test]
fn test_frame_types() {
    // Just test the enum variants exist and are distinct.
    assert_ne!(FrameType::Idr, FrameType::I);
    assert_ne!(FrameType::I, FrameType::P);
    assert_ne!(FrameType::P, FrameType::B);
    assert_ne!(FrameType::B, FrameType::Unknown);
}

#[test]
fn test_packet_creation() {
    let packet = EncodedPacket {
        data: vec![0x00, 0x00, 0x00, 0x01, 0x67],
        frame_type: FrameType::Idr,
        is_key_frame: true,
        pts: 0,
        dts: 0,
    };

    assert!(packet.is_key_frame);
    assert_eq!(packet.frame_type, FrameType::Idr);
    assert_eq!(packet.data.len(), 5);
}

#[test]
fn test_codec_variants() {
    assert_ne!(Codec::H264, Codec::H265);
    assert_ne!(Codec::H265, Codec::AV1);
}

#[test]
fn test_bt709() {
    let cd = ColorDescription::bt709();
    assert_eq!(cd.color_primaries, 1);
    assert_eq!(cd.transfer_characteristics, 1);
    assert_eq!(cd.matrix_coefficients, 1);
    assert!(cd.full_range);
}

#[test]
fn test_bt2020_pq() {
    let cd = ColorDescription::bt2020_pq();
    assert_eq!(cd.color_primaries, 9);
    assert_eq!(cd.transfer_characteristics, 16);
    assert_eq!(cd.matrix_coefficients, 9);
    assert!(!cd.full_range);
}

#[test]
fn mod_test_default() {
    assert_eq!(PixelFormat::default(), PixelFormat::Yuv420);
    assert_eq!(BitDepth::default(), BitDepth::Eight);
    assert_eq!(RateControlMode::default(), RateControlMode::Disabled);
}

#[test]
fn test_vk_chroma_subsampling_conversion() {
    let vk_420: ChromaSubsamplingFlags = PixelFormat::Yuv420.into();
    assert_eq!(vk_420.raw, vk::VideoChromaSubsamplingFlagsKHR::TYPE_420.as_raw());

    let vk_422: ChromaSubsamplingFlags = PixelFormat::Yuv422.into();
    assert_eq!(vk_422.raw, vk::VideoChromaSubsamplingFlagsKHR::TYPE_422.as_raw());

    let vk_444: ChromaSubsamplingFlags = PixelFormat::Yuv444.into();
    assert_eq!(vk_444.raw, vk::VideoChromaSubsamplingFlagsKHR::TYPE_444.as_raw());
    assert_eq!(vk_444.raw, 8);
}

#[test]
fn test_vk_bit_depth_conversion() {
    let vk_8: ComponentBitDepthFlags = BitDepth::Eight.into();
    assert_eq!(vk_8.raw, vk::VideoComponentBitDepthFlagsKHR::TYPE_8.as_raw());

    let vk_10: ComponentBitDepthFlags = BitDepth::Ten.into();
    assert_eq!(vk_10.raw, vk::VideoComponentBitDepthFlagsKHR::TYPE_10.as_raw());
    assert_eq!(vk_10.raw, 4);
}

#[test]
fn builders_change_one_field() {
    let base = EncodeConfig::h265(640, 480);
    let changed = base
        .with_virtual_buffer_size_ms(250)
        .with_initial_virtual_buffer_size_ms(0)
        .with_color_description(ColorDescription::bt2020_pq());
    assert_eq!(changed.virtual_buffer_size_ms, 250);
    assert_eq!(changed.initial_virtual_buffer_size_ms, 0);
    assert_eq!(changed.color_description, Some(ColorDescription::bt2020_pq()));
    assert_eq!(changed.target_bitrate, 4_000_000);
    assert_eq!(changed.max_bitrate, 6_000_000);
    assert_eq!(changed.max_reference_frames, 4);
    assert_eq!(base.virtual_buffer_size_ms, 1000);
    assert_eq!(base.initial_virtual_buffer_size_ms, 1000);
    assert!(base.color_description.is_none());
}
