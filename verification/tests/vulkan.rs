//! Choice of a device.

use pixelforge::vk::VkFormat;
use pixelforge::vulkan::{
    find_queue_families, CodecProbe, DeviceExtension, DeviceInfo, QueueChoice, QueueFamily,
    ValidationPlan,
};
use pixelforge::{Codec, PixelForgeError, VideoContextBuilder};

fn family(video_encode: bool, transfer: bool, compute: bool) -> QueueFamily {
    QueueFamily { video_encode, transfer, compute }
}

fn probe(usable: bool) -> CodecProbe {
    CodecProbe { extension: usable, supported: usable }
}

fn device(queue_families: Vec<QueueFamily>, h264: bool, h265: bool, av1: bool) -> DeviceInfo {
    DeviceInfo {
        queue_families,
        extensions_listed: true,
        h264: probe(h264),
        h265: probe(h265),
        av1: probe(av1),
        memory_types: vec![1, 6],
    }
}

fn full_device() -> DeviceInfo {
    device(
        vec![family(false, true, true), family(false, true, false), family(true, false, false)],
        true,
        true,
        false,
    )
}

#[test]
fn last_transfer_and_first_compute_families_are_taken() {
    let families = vec![
        family(false, true, true),
        family(true, false, true),
        family(true, true, false),
        family(false, false, false),
    ];
    assert_eq!(
        find_queue_families(&families),
        QueueChoice { encode: Some(2), transfer: Some(2), compute: Some(0) }
    );
    assert_eq!(
        find_queue_families(&vec![]),
        QueueChoice { encode: None, transfer: None, compute: None }
    );
}

#[test]
fn first_suitable_device_is_chosen() {
    let devices = vec![
        device(vec![family(false, true, true)], true, true, true),
        device(vec![family(true, true, false)], true, true, true),
        device(vec![family(true, true, true)], true, false, false),
        full_device(),
    ];
    let context =
        VideoContextBuilder::new().require_encode(Codec::H265).build(&devices).unwrap();
    assert_eq!(context.physical_device(), 3);
    assert_eq!(context.video_encode_queue_family(), Some(2));
    assert_eq!(context.transfer_queue_family(), 1);
    assert_eq!(context.compute_queue_family(), 0);
    assert_eq!(context.queue_families(), vec![2, 1, 0]);
    assert!(context.supports_encode(Codec::H264));
    assert!(context.supports_encode(Codec::H265));
    assert!(!context.supports_encode(Codec::AV1));
    assert_eq!(
        context.device_extensions(false),
        vec![
            DeviceExtension::VideoQueue,
            DeviceExtension::Synchronization2,
            DeviceExtension::VideoEncodeQueue,
            DeviceExtension::VideoEncodeH264,
            DeviceExtension::VideoEncodeH265,
            DeviceExtension::Ycbcr2Plane444Formats,
        ]
    );
    assert_eq!(
        context.device_extensions(true)[..7],
        [
            DeviceExtension::VideoQueue,
            DeviceExtension::Synchronization2,
            DeviceExtension::ExternalMemory,
            DeviceExtension::ExternalMemoryFd,
            DeviceExtension::ExternalMemoryDmaBuf,
            DeviceExtension::ImageDrmFormatModifier,
            DeviceExtension::VideoEncodeQueue,
        ]
    );
    assert_eq!(context.find_memory_type(0b11, 0b10), Some(1));
    assert_eq!(context.find_memory_type(0b01, 0b10), None);
    let context = VideoContextBuilder::new().build(&devices).unwrap();
    assert_eq!(context.physical_device(), 2);
}

#[test]
fn encode_queue_also_transfers_if_no_other_does() {
    let devices = vec![device(vec![family(false, false, true), family(true, false, false)], true, false, true)];
    let context = VideoContextBuilder::default().build(&devices).unwrap();
    assert_eq!(context.transfer_queue_family(), 1);
    assert!(context.device_extensions(false).contains(&DeviceExtension::VideoEncodeAv1));
}

#[test]
fn codecs_need_extension_and_capabilities() {
    let mut info = full_device();
    info.h264 = CodecProbe { extension: true, supported: false };
    info.h265 = CodecProbe { extension: false, supported: true };
    let context = VideoContextBuilder::new().build(&vec![info]).unwrap();
    assert!(!context.supports_encode(Codec::H264));
    assert!(!context.supports_encode(Codec::H265));
}

#[test]
fn no_device_is_suitable() {
    let message = "No device with required video support found. Ensure your GPU drivers support \
                   Vulkan Video extensions (VK_KHR_video_queue, VK_KHR_video_encode_queue, etc.).";
    let refused = VideoContextBuilder::new().require_encode(Codec::AV1).build(&vec![full_device()]);
    assert!(matches!(refused, Err(PixelForgeError::NoSuitableDevice(m)) if m == message));
    let mut unlisted = full_device();
    unlisted.extensions_listed = false;
    let refused = VideoContextBuilder::new().build(&vec![unlisted]);
    assert!(matches!(refused, Err(PixelForgeError::NoSuitableDevice(m)) if m == message));
}

#[test]
fn application_info() {
    let builder = VideoContextBuilder::new();
    assert_eq!(builder.name(), "PixelForge");
    assert_eq!(builder.application_version(), 1 << 22);
    let builder = builder.app_name("My App").app_version(1, 2, 3);
    assert_eq!(builder.name(), "My App");
    assert_eq!(builder.application_version(), (1 << 22) | (2 << 12) | 3);
}

#[test]
fn validation_needs_its_layer() {
    let off = ValidationPlan { layer: false, features: false };
    assert_eq!(VideoContextBuilder::new().validation(true, true), off);
    let builder = VideoContextBuilder::new().enable_validation(true);
    assert_eq!(builder.validation(false, true), off);
    assert_eq!(builder.validation(true, false), ValidationPlan { layer: true, features: false });
    assert_eq!(builder.validation(true, true), ValidationPlan { layer: true, features: true });
}

#[test]
fn vulkan_errors_are_carried() {
    let error = PixelForgeError::from(ash::vk::Result::ERROR_DEVICE_LOST);
    assert!(matches!(error, PixelForgeError::Vulkan(r) if r == ash::vk::Result::ERROR_DEVICE_LOST));
}

#[test]
fn format_numbers() {
    assert_eq!(VkFormat::SemiPlanar420.as_raw(), 1000156003);
    assert_eq!(VkFormat::SemiPlanar444.as_raw(), 1000330000);
    assert_eq!(VkFormat::SemiPlanar420Ten.as_raw(), 1000156013);
    assert_eq!(VkFormat::SemiPlanar444Ten.as_raw(), 1000330001);
    assert_eq!(VkFormat::B8G8R8A8Unorm.as_raw(), 44);
}
