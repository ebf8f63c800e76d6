//! Color conversion.

use ash::vk;
use pixelforge::converter::pipeline::create_converter;
use pixelforge::converter::shader::get_spirv_code;
use pixelforge::converter::SourceView;
use pixelforge::steps::{ImageBarrier, ImagePlane, ImageRole, PlaneCopy, Step};
use pixelforge::vk::{AccessMask, ImageLayout, PipelineStage};
use pixelforge::{
    ColorConverter, ColorConverterConfig, ColorSpace, InputFormat, OutputFormat, PixelForgeError,
};

#[test]
fn test_input_format_bytes_per_pixel() {
    assert_eq!(InputFormat::BGRx.bytes_per_pixel(), 4);
    assert_eq!(InputFormat::RGBx.bytes_per_pixel(), 4);
    assert_eq!(InputFormat::BGRA.bytes_per_pixel(), 4);
    assert_eq!(InputFormat::RGBA.bytes_per_pixel(), 4);
    assert_eq!(InputFormat::ABGR2101010.bytes_per_pixel(), 4);
    assert_eq!(InputFormat::RGBA16F.bytes_per_pixel(), 8);
}

#[test]
fn test_input_format_enum_values() {
    // Verify enum values match shader expectations.
    assert_eq!(InputFormat::BGRx as u32, 0);
    assert_eq!(InputFormat::RGBx as u32, 1);
    assert_eq!(InputFormat::BGRA as u32, 2);
    assert_eq!(InputFormat::RGBA as u32, 3);
    assert_eq!(InputFormat::ABGR2101010 as u32, 4);
    assert_eq!(InputFormat::RGBA16F as u32, 5);
}

#[test]
fn test_output_format_size_nv12() {
    // NV12: Y plane + interleaved UV at half resolution = 1.5 * pixel_count.
    assert_eq!(OutputFormat::NV12.output_size(8, 8), 96); // 64 * 1.5 = 96
    assert_eq!(OutputFormat::NV12.output_size(16, 16), 384); // 256 * 1.5 = 384
    assert_eq!(
        OutputFormat::NV12.output_size(1920, 1080),
        1920 * 1080 * 3 / 2
    );
}

#[test]
fn test_output_format_size_i420() {
    // I420: Y plane + U plane (quarter) + V plane (quarter) = 1.5 * pixel_count.
    assert_eq!(OutputFormat::I420.output_size(8, 8), 96);
    assert_eq!(OutputFormat::I420.output_size(16, 16), 384);
    assert_eq!(
        OutputFormat::I420.output_size(1920, 1080),
        1920 * 1080 * 3 / 2
    );
}

#[test]
fn test_output_format_size_yuv444() {
    // YUV444: Full resolution Y + U + V = 3 * pixel_count.
    assert_eq!(OutputFormat::YUV444.output_size(8, 8), 192); // 64 * 3 = 192
    assert_eq!(OutputFormat::YUV444.output_size(16, 16), 768); // 256 * 3 = 768
    assert_eq!(
        OutputFormat::YUV444.output_size(1920, 1080),
        1920 * 1080 * 3
    );
}

#[test]
fn test_output_format_size_standard_resolutions() {
    // Common video resolutions.
    let resolutions = [
        (320, 240),   // QVGA
        (640, 480),   // VGA
        (1280, 720),  // HD
        (1920, 1080), // Full HD
        (3840, 2160), // 4K
    ];

    for (width, height) in resolutions {
        let pixels = (width * height) as usize;

        // NV12 and I420 should be 1.5x pixels.
        assert_eq!(
            OutputFormat::NV12.output_size(width, height),
            pixels * 3 / 2
        );
        assert_eq!(
            OutputFormat::I420.output_size(width, height),
            pixels * 3 / 2
        );

        // YUV444 should be 3x pixels.
        assert_eq!(OutputFormat::YUV444.output_size(width, height), pixels * 3);
    }
}

#[test]
fn test_output_format_enum_values() {
    // Verify enum values match shader expectations.
    assert_eq!(OutputFormat::NV12 as u32, 0);
    assert_eq!(OutputFormat::I420 as u32, 1);
    assert_eq!(OutputFormat::YUV444 as u32, 2);
}

#[test]
fn test_config_clone() {
    let config = ColorConverterConfig {
        width: 1920,
        height: 1080,
        input_format: InputFormat::BGRx,
        output_format: OutputFormat::NV12,
        color_space: ColorSpace::Bt709,
    };

    let cloned = config.clone();
    assert_eq!(cloned.width, 1920);
    assert_eq!(cloned.height, 1080);
    assert_eq!(cloned.input_format, InputFormat::BGRx);
    assert_eq!(cloned.output_format, OutputFormat::NV12);
    assert_eq!(cloned.color_space, ColorSpace::Bt709);
}

#[test]
fn test_config_debug() {
    let config = ColorConverterConfig {
        width: 640,
        height: 480,
        input_format: InputFormat::RGBA,
        output_format: OutputFormat::I420,
        color_space: ColorSpace::Bt709,
    };

    let debug_str = format!("{:?}", config);
    assert!(debug_str.contains("640"));
    assert!(debug_str.contains("480"));
    assert!(debug_str.contains("RGBA"));
    assert!(debug_str.contains("I420"));
}

#[test]
fn test_input_format_vk_format() {
    let format = |f: InputFormat| vk::Format::from_raw(f.vk_format().as_raw());
    assert_eq!(format(InputFormat::BGRx), vk::Format::B8G8R8A8_UNORM);
    assert_eq!(format(InputFormat::BGRA), vk::Format::B8G8R8A8_UNORM);
    assert_eq!(format(InputFormat::RGBx), vk::Format::R8G8B8A8_UNORM);
    assert_eq!(format(InputFormat::RGBA), vk::Format::R8G8B8A8_UNORM);
    assert_eq!(format(InputFormat::ABGR2101010), vk::Format::A2B10G10R10_UNORM_PACK32);
    assert_eq!(format(InputFormat::RGBA16F), vk::Format::R16G16B16A16_SFLOAT);
}

#[test]
fn output_formats_have_vulkan_formats() {
    let format = |f: OutputFormat| vk::Format::from_raw(f.vulkan_format().as_raw());
    assert_eq!(format(OutputFormat::NV12), vk::Format::G8_B8R8_2PLANE_420_UNORM);
    assert_eq!(format(OutputFormat::I420), vk::Format::G8_B8_R8_3PLANE_420_UNORM);
    assert_eq!(format(OutputFormat::YUV444), vk::Format::G8_B8_R8_3PLANE_444_UNORM);
    assert_eq!(
        format(OutputFormat::P010),
        vk::Format::G10X6_B10X6R10X6_2PLANE_420_UNORM_3PACK16
    );
    assert_eq!(
        format(OutputFormat::YUV444P10),
        vk::Format::G10X6_B10X6R10X6_2PLANE_444_UNORM_3PACK16
    );
    assert!(OutputFormat::P010.is_10bit());
    assert!(!OutputFormat::NV12.is_10bit());
    assert_eq!(OutputFormat::YUV444P10.bytes_per_sample(), 2);
    assert_eq!(OutputFormat::I420.bytes_per_sample(), 1);
}

#[test]
fn ten_bit_output_sizes() {
    assert_eq!(OutputFormat::P010.output_size(16, 8), 384);
    assert_eq!(OutputFormat::YUV444P10.output_size(16, 8), 768);
}

#[test]
fn new_config_has_default_color_space() {
    let mut config = ColorConverterConfig::new(1920, 1080, InputFormat::BGRx, OutputFormat::NV12);
    assert_eq!(config.color_space, ColorSpace::Bt709);
    config.color_space = ColorSpace::SrgbToBt2020Pq;
    assert_eq!(config.color_space.code(), 2);
    assert_eq!(ColorSpace::Bt2020.code(), 1);
    assert_eq!(ColorSpace::Bt709LinearToBt2020Pq.code(), 3);
}

fn copies(format: OutputFormat, width: u32, height: u32) -> Vec<PlaneCopy> {
    ColorConverter::new(ColorConverterConfig::new(width, height, InputFormat::BGRx, format))
        .build_buffer_to_image_copy_regions()
}

#[test]
fn copy_regions_lie_one_after_the_other() {
    let nv12 = copies(OutputFormat::NV12, 8, 4);
    assert_eq!(nv12.len(), 2);
    assert_eq!(
        nv12[1],
        PlaneCopy { buffer_offset: 32, plane: ImagePlane::Plane1, width: 4, height: 2 }
    );
    let i420 = copies(OutputFormat::I420, 8, 4);
    assert_eq!(i420.len(), 3);
    assert_eq!(i420[1].buffer_offset, 32);
    assert_eq!(i420[2].buffer_offset, 40);
    assert_eq!(i420[2].plane, ImagePlane::Plane2);
    let yuv444 = copies(OutputFormat::YUV444, 8, 4);
    assert_eq!(yuv444[2].buffer_offset, 64);
    assert_eq!(yuv444[2].width, 8);
    let p010 = copies(OutputFormat::P010, 8, 4);
    assert_eq!(p010[1].buffer_offset, 64);
    assert_eq!(p010[1].width, 4);
    let yuv444p10 = copies(OutputFormat::YUV444P10, 8, 4);
    assert_eq!(yuv444p10.len(), 2);
    assert_eq!(yuv444p10[1].buffer_offset, 64);
    assert_eq!(yuv444p10[1].height, 4);
}

#[test]
fn conversion_runs_from_source_to_encoder_input() {
    let config = ColorConverterConfig {
        width: 20,
        height: 9,
        input_format: InputFormat::RGBA,
        output_format: OutputFormat::P010,
        color_space: ColorSpace::Bt2020,
    };
    let steps = ColorConverter::new(config).convert(ImageLayout::Undefined);
    assert_eq!(steps.len(), 11);
    assert!(matches!(
        steps[0],
        Step::ImageBarrier(ImageBarrier {
            image: ImageRole::Source,
            old_layout: ImageLayout::Undefined,
            new_layout: ImageLayout::ShaderReadOnlyOptimal,
            src_access: AccessMask::MemoryReadWrite,
            dst_access: AccessMask::ShaderRead,
            src_stage: PipelineStage::AllCommands,
            dst_stage: PipelineStage::ComputeShader,
        })
    ));
    assert!(matches!(steps[1], Step::FillBuffer(540)));
    assert!(matches!(steps[4], Step::PushConstants([20, 9, 3, 3, 1])));
    assert!(matches!(steps[5], Step::Dispatch(3, 2, 1)));
    assert!(matches!(
        steps[9],
        Step::ImageBarrier(ImageBarrier {
            image: ImageRole::Target,
            new_layout: ImageLayout::VideoEncodeSrc,
            ..
        })
    ));
}

#[test]
fn source_view_is_kept_until_the_image_changes() {
    let config = ColorConverterConfig::new(8, 8, InputFormat::RGBx, OutputFormat::NV12);
    let mut converter = ColorConverter::new(config);
    let format = InputFormat::RGBx.vk_format();
    assert_eq!(converter.config(), config);
    assert_eq!(
        converter.get_or_create_src_view(7),
        SourceView::Create { destroy: None, format }
    );
    converter.store_src_view(7, 70);
    assert_eq!(converter.get_or_create_src_view(7), SourceView::Reuse { view: 70 });
    assert_eq!(
        converter.get_or_create_src_view(8),
        SourceView::Create { destroy: Some(70), format }
    );
    assert_eq!(converter.take_src_view(), Some(70));
    assert_eq!(converter.take_src_view(), None);
}

#[test]
fn shader_code_is_cached_after_it_was_loaded() {
    let mut cache: Option<Vec<u32>> = None;
    let failed = get_spirv_code(
        &mut cache,
        Err(PixelForgeError::ResourceCreation("no shader".to_string())),
    );
    assert!(matches!(failed, Err(PixelForgeError::ResourceCreation(m)) if m == "no shader"));
    assert!(cache.is_none());
    assert_eq!(get_spirv_code(&mut cache, Ok(vec![1, 2, 3])).unwrap(), vec![1, 2, 3]);
    assert_eq!(get_spirv_code(&mut cache, Ok(vec![9])).unwrap(), vec![1, 2, 3]);
}

#[test]
fn converters_need_descriptor_buffers() {
    let config = ColorConverterConfig::new(640, 480, InputFormat::BGRA, OutputFormat::P010);
    let (converter, resources) = create_converter(config, true).unwrap();
    assert_eq!(resources.output_size, 921600);
    assert_eq!(resources.push_constant_size, 28);
    assert_eq!(converter.config().output_format, OutputFormat::P010);
    let config = ColorConverterConfig::new(640, 480, InputFormat::BGRA, OutputFormat::NV12);
    assert!(matches!(
        create_converter(config, false),
        Err(PixelForgeError::NoSuitableDevice(m)) if m == "VK_EXT_descriptor_buffer with \
            capture-replay is required but not available on this device"
    ));
}
