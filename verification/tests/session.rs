//! Negotiation of video sessions, and encoders of any codec.

use pixelforge::encoder::any::dimensions_are_usable;
use pixelforge::encoder::header::{HeaderOutcome, HeaderQuery};
use pixelforge::encoder::session::{
    coded_extent, dpb_counts, extent_is_computable, formats_counted, formats_listed, negotiate,
    DeviceReport, SessionPlan, VideoCapabilities,
};
use pixelforge::encoder::{Dimensions, Encoder, FramePlan};
use pixelforge::vk::PictureUsage;
use pixelforge::{Codec, ColorDescription, EncodeConfig, PixelForgeError, PixelFormat};

const NV12: i32 = 1000156003;
const P010: i32 = 1000156013;

fn capabilities() -> VideoCapabilities {
    VideoCapabilities {
        picture_access_granularity: Dimensions { width: 16, height: 16 },
        min_coded_extent: Dimensions { width: 64, height: 64 },
        max_coded_extent: Dimensions { width: 4096, height: 2304 },
        max_dpb_slots: 17,
        max_active_reference_pictures: 16,
        separate_reference_images: true,
    }
}

fn report() -> DeviceReport {
    DeviceReport {
        capabilities: Ok(capabilities()),
        src_formats: Ok(vec![NV12]),
        dpb_formats: Ok(vec![P010, NV12]),
        encode_queue_family: Some(2),
    }
}

fn refused(codec: Codec, config: EncodeConfig, report: DeviceReport) -> PixelForgeError {
    negotiate(codec, &config, report).unwrap_err()
}

fn no_device(error: PixelForgeError) -> String {
    match error {
        PixelForgeError::NoSuitableDevice(message) => message,
        other => panic!("unexpected error: {:?}", other),
    }
}

#[test]
fn negotiated_session() {
    let plan = negotiate(Codec::H264, &EncodeConfig::h264(1920, 1080), report()).unwrap();
    assert_eq!(
        plan,
        SessionPlan {
            coded_extent: Dimensions { width: 1920, height: 1088 },
            picture_format: NV12,
            reference_picture_format: NV12,
            dpb_slot_count: 5,
            active_reference_count: 4,
            use_layered_dpb: false,
            encode_queue_family: 2,
        }
    );
}

#[test]
fn references_fall_back_to_the_first_format() {
    let report = DeviceReport { dpb_formats: Ok(vec![P010, 44]), ..report() };
    let plan = negotiate(Codec::H264, &EncodeConfig::h264(640, 480), report).unwrap();
    assert_eq!(plan.picture_format, NV12);
    assert_eq!(plan.reference_picture_format, P010);
}

#[test]
fn layered_dpb_without_separate_images() {
    let caps = VideoCapabilities { separate_reference_images: false, ..capabilities() };
    let layered = |codec, config| {
        let report = DeviceReport { capabilities: Ok(caps), ..report() };
        negotiate(codec, &config, report).unwrap().use_layered_dpb
    };
    assert!(layered(Codec::H264, EncodeConfig::h264(640, 480)));
    assert!(layered(Codec::H265, EncodeConfig::h265(640, 480)));
}

#[test]
fn failed_capability_queries() {
    let failed = |codec, config| {
        let report = DeviceReport { capabilities: Err(-1000023000), ..report() };
        no_device(refused(codec, config, report))
    };
    assert_eq!(
        failed(Codec::H264, EncodeConfig::h264(640, 480)),
        "Failed to query Vulkan Video encode capabilities for requested H.264 profile: \
         ERROR_IMAGE_USAGE_NOT_SUPPORTED_KHR"
    );
    assert!(failed(Codec::H265, EncodeConfig::h265(640, 480))
        .ends_with("ERROR_IMAGE_USAGE_NOT_SUPPORTED_KHR"));
    assert!(failed(Codec::AV1, EncodeConfig::av1(640, 480))
        .ends_with("ERROR_IMAGE_USAGE_NOT_SUPPORTED_KHR"));
}

#[test]
fn unknown_status_codes_are_numbers() {
    let report = DeviceReport { capabilities: Err(-77), ..report() };
    assert!(no_device(refused(Codec::H264, EncodeConfig::h264(640, 480), report)).ends_with("-77"));
}

#[test]
fn too_large_extents() {
    let error = refused(Codec::H264, EncodeConfig::h264(4097, 1080), report());
    assert!(matches!(
        error,
        PixelForgeError::InvalidInput(m) if m == "Requested coded extent 4097x1080 (aligned to \
            4112x1088 with granularity 16x16) exceeds device max 4096x2304 for this profile"
    ));
    let error = refused(Codec::AV1, EncodeConfig::av1(640, 2305), report());
    assert!(matches!(
        error,
        PixelForgeError::InvalidInput(m) if m == "Requested coded extent 640x2305 (aligned to \
            640x2432) exceeds device max 4096x2304"
    ));
}

#[test]
fn failed_format_queries_are_handed_on() {
    let report = DeviceReport {
        src_formats: Err(PixelForgeError::NoSuitableDevice("src".to_string())),
        dpb_formats: Err(PixelForgeError::NoSuitableDevice("dpb".to_string())),
        ..report()
    };
    assert_eq!(no_device(refused(Codec::H265, EncodeConfig::h265(640, 480), report)), "src");
}

#[test]
fn missing_formats() {
    let empty_src = || DeviceReport { src_formats: Ok(vec![]), ..report() };
    let empty_dpb = || DeviceReport { dpb_formats: Ok(vec![]), ..report() };
    assert_eq!(
        no_device(refused(Codec::H264, EncodeConfig::h264(640, 480), empty_src())),
        "No supported Vulkan Video SRC formats returned for this profile"
    );
    assert_eq!(
        no_device(refused(Codec::H265, EncodeConfig::h265(640, 480), empty_src())),
        "No supported Vulkan Video SRC formats returned for this H.265 profile"
    );
    assert_eq!(
        no_device(refused(Codec::AV1, EncodeConfig::av1(640, 480), empty_src())),
        "No supported Vulkan Video SRC formats for AV1"
    );
    assert_eq!(
        no_device(refused(Codec::H264, EncodeConfig::h264(640, 480), empty_dpb())),
        "No supported Vulkan Video DPB formats returned for this profile"
    );
    assert_eq!(
        no_device(refused(Codec::H265, EncodeConfig::h265(640, 480), empty_dpb())),
        "No supported Vulkan Video DPB formats returned for this H.265 profile"
    );
    assert_eq!(
        no_device(refused(Codec::AV1, EncodeConfig::av1(640, 480), empty_dpb())),
        "No supported Vulkan Video DPB formats for AV1"
    );
}

#[test]
fn preferred_format_is_required() {
    let others = || DeviceReport { src_formats: Ok(vec![P010, 44]), ..report() };
    assert_eq!(
        no_device(refused(Codec::H264, EncodeConfig::h264(640, 480), others())),
        "Preferred input format G8_B8R8_2PLANE_420_UNORM is not supported for \
         VIDEO_ENCODE_SRC_KHR. Supported: [G10X6_B10X6R10X6_2PLANE_420_UNORM_3PACK16, \
         B8G8R8A8_UNORM]"
    );
    assert_eq!(
        no_device(refused(Codec::AV1, EncodeConfig::av1(640, 480), others())),
        "Preferred input format G8_B8R8_2PLANE_420_UNORM not supported for AV1"
    );
}

#[test]
fn two_dpb_slots_are_needed() {
    let caps = VideoCapabilities { max_dpb_slots: 1, ..capabilities() };
    let report = DeviceReport { capabilities: Ok(caps), ..report() };
    assert_eq!(
        no_device(refused(Codec::H264, EncodeConfig::h264(640, 480), report)),
        "Device reports max_dpb_slots=1 for this profile; need at least 2"
    );
}

#[test]
fn an_encode_queue_is_needed() {
    let report = DeviceReport { encode_queue_family: None, ..report() };
    assert_eq!(
        no_device(refused(Codec::H265, EncodeConfig::h265(640, 480), report)),
        "No video encode queue family available"
    );
}

#[test]
fn coded_extents() {
    let size = |codec, width, height| {
        coded_extent(codec, Dimensions { width, height }, &capabilities())
            .map(|e| (e.width, e.height))
            .unwrap()
    };
    assert_eq!(size(Codec::H264, 1920, 1080), (1920, 1088));
    assert_eq!(size(Codec::H265, 1920, 1080), (1920, 1088));
    assert_eq!(size(Codec::AV1, 1920, 1080), (1920, 1152));
    assert_eq!(size(Codec::H264, 1, 1), (64, 64));
    let coarse = VideoCapabilities {
        picture_access_granularity: Dimensions { width: 24, height: 0 },
        ..capabilities()
    };
    let extent =
        coded_extent(Codec::H264, Dimensions { width: 100, height: 100 }, &coarse).unwrap();
    // The least common multiple of 16 and 24 is 48.
    assert_eq!(extent, Dimensions { width: 144, height: 112 });
}

#[test]
fn reference_and_slot_counts() {
    let caps = capabilities();
    assert_eq!(dpb_counts(Codec::H264, 4, &caps), (5, 4));
    assert_eq!(dpb_counts(Codec::H264, 0, &caps), (2, 1));
    assert_eq!(dpb_counts(Codec::H264, 100, &caps), (16, 15));
    assert_eq!(dpb_counts(Codec::H265, 100, &caps), (16, 15));
    assert_eq!(dpb_counts(Codec::AV1, 100, &caps), (9, 8));
    let few = VideoCapabilities { max_dpb_slots: 3, ..caps };
    assert_eq!(dpb_counts(Codec::H264, 4, &few), (3, 2));
    assert_eq!(dpb_counts(Codec::AV1, 4, &few), (3, 4));
    let none = VideoCapabilities { max_active_reference_pictures: 0, ..caps };
    assert_eq!(dpb_counts(Codec::H264, 4, &none), (1, 0));
}

#[test]
fn extents_that_cannot_be_computed() {
    let caps = capabilities();
    let huge = Dimensions { width: u32::MAX, height: 16 };
    assert!(!extent_is_computable(Codec::H264, huge, &caps));
    assert!(extent_is_computable(Codec::H264, Dimensions { width: 4096, height: 16 }, &caps));
    let coarse = VideoCapabilities {
        picture_access_granularity: Dimensions { width: u32::MAX, height: 1 },
        ..caps
    };
    let small = Dimensions { width: 16, height: 16 };
    assert!(!extent_is_computable(Codec::AV1, small, &coarse));
}

#[test]
fn usable_dimensions() {
    assert!(dimensions_are_usable(&EncodeConfig::h264(640, 480), &report()));
    assert!(dimensions_are_usable(&EncodeConfig::h264(0, 0), &report()));
    let caps = VideoCapabilities {
        min_coded_extent: Dimensions { width: 0, height: 0 },
        ..capabilities()
    };
    let unlimited = DeviceReport { capabilities: Ok(caps), ..report() };
    assert!(!dimensions_are_usable(&EncodeConfig::h264(0, 480), &unlimited));
    assert!(!dimensions_are_usable(&EncodeConfig::av1(1, 480), &report()));
    assert!(!dimensions_are_usable(&EncodeConfig::h265(u32::MAX, 480), &report()));
}

fn encoder(config: EncodeConfig) -> Encoder {
    Encoder::new(config, report(), Some(true)).unwrap()
}

#[test]
fn encoders_follow_their_codec() {
    assert!(matches!(encoder(EncodeConfig::h264(640, 480)), Encoder::H264(_)));
    assert!(matches!(encoder(EncodeConfig::h265(640, 480)), Encoder::H265(_)));
    assert!(matches!(encoder(EncodeConfig::av1(640, 480)), Encoder::AV1(_)));
    let report = DeviceReport { encode_queue_family: None, ..report() };
    let failed = Encoder::new(EncodeConfig::av1(640, 480), report, None);
    assert_eq!(no_device(failed.unwrap_err()), "No video encode queue family available");
}

#[test]
fn all_encoders_deliver_packets_in_order() {
    let configs = [
        EncodeConfig::h264(640, 480).with_gop_size(2),
        EncodeConfig::h265(640, 480).with_gop_size(2),
        EncodeConfig::av1(640, 480).with_gop_size(2),
    ];
    for config in configs {
        let prefix: Vec<u8> = if config.codec == Codec::AV1 { vec![0x12, 0x00] } else { vec![] };
        let mut encoder = encoder(config);
        let mut packets = Vec::new();
        for number in 0..5u8 {
            assert_eq!(encoder.input_image(), number as usize % 2);
            let frame = encoder.start_frame();
            assert!(encoder.upload_from_image(false).is_some());
            encoder.uploaded();
            assert!(encoder.can_encode(&frame));
            let header = if encoder.start_picture(&frame) { Some(vec![0xee]) } else { None };
            match (encoder.encode(&frame), config.codec) {
                (FramePlan::H264(plan), Codec::H264) => {
                    assert_eq!(plan.picture.idr, number % 2 == 0)
                }
                (FramePlan::H265(plan), Codec::H265) => {
                    assert_eq!(plan.picture.irap, number % 2 == 0)
                }
                (FramePlan::AV1(plan), Codec::AV1) => {
                    assert_eq!(plan.reference.is_none(), number % 2 == 0)
                }
                _ => panic!("plan of another codec"),
            }
            encoder.finish_frame(&frame, header);
            let read = vec![number.wrapping_sub(1)];
            packets.extend(encoder.drain_current_slot(Ok(read)).unwrap());
            assert_eq!(packets.len(), number as usize);
        }
        packets.extend(encoder.flush(vec![Ok(vec![4])]).unwrap());
        assert!(encoder.flush(vec![]).unwrap().is_empty());
        assert_eq!(packets.len(), 5);
        for (number, packet) in packets.iter().enumerate() {
            assert_eq!(packet.pts, number as u64);
            assert_eq!(packet.dts, number as u64);
            assert_eq!(packet.is_key_frame, number % 2 == 0);
            let mut data = prefix.clone();
            if number % 2 == 0 {
                data.push(0xee);
            }
            data.push(number as u8);
            assert_eq!(packet.data, data);
        }
    }
}

#[test]
fn any_encoder_takes_requests() {
    for config in
        [EncodeConfig::h264(640, 480), EncodeConfig::h265(640, 480), EncodeConfig::av1(640, 480)]
    {
        let mut encoder = encoder(config);
        let frame = encoder.start_frame();
        let header = if encoder.start_picture(&frame) { Some(vec![1]) } else { None };
        encoder.finish_frame(&frame, header);
        encoder.request_idr();
        let frame = encoder.start_frame();
        assert!(frame.position.frame_type.is_idr());
        encoder.start_picture(&frame);
        encoder.finish_frame(&frame, Some(vec![1]));
        encoder.set_color_description(ColorDescription::bt2020_pq(), Ok(())).unwrap();
        assert_eq!(
            encoder.state().config().color_description,
            Some(ColorDescription::bt2020_pq())
        );
        let mut query = HeaderQuery::new();
        assert!(matches!(
            encoder.header_answer(&mut query, 0, vec![5; 4096], 1),
            HeaderOutcome::Done(Ok(header)) if header == vec![5]
        ));
    }
}

#[test]
fn frames_wait_for_those_in_flight() {
    let mut encoder = encoder(EncodeConfig::av1(640, 480));
    for _ in 0..2 {
        let frame = encoder.start_frame();
        encoder.start_picture(&frame);
        encoder.finish_frame(&frame, Some(vec![1]));
    }
    assert_eq!(encoder.state().others_in_flight(), vec![1]);
    assert!(encoder.state().can_encode());
    assert!(encoder.state().can_submit());
}

#[test]
fn formats_of_other_chroma_are_negotiated() {
    let report = DeviceReport {
        src_formats: Ok(vec![1000330000]),
        dpb_formats: Ok(vec![1000330000]),
        ..report()
    };
    let config = EncodeConfig::h265(640, 480).with_pixel_format(PixelFormat::Yuv444);
    let plan = negotiate(Codec::H265, &config, report).unwrap();
    assert_eq!(plan.picture_format, 1000330000);
}

#[test]
fn format_queries() {
    assert_eq!(formats_counted(PictureUsage::Src, 0, 0).unwrap(), None);
    assert_eq!(formats_counted(PictureUsage::Src, 0, 3).unwrap(), Some(3));
    assert_eq!(
        no_device(formats_counted(PictureUsage::Src, -3, 0).unwrap_err()),
        "Failed to query video format properties for usage VIDEO_ENCODE_SRC_KHR: \
         ERROR_INITIALIZATION_FAILED"
    );
    assert_eq!(formats_listed(PictureUsage::Dpb, 0, 2, vec![1, 2, 3]).unwrap(), vec![1, 2]);
    assert_eq!(formats_listed(PictureUsage::Dpb, 0, 5, vec![1, 2, 3]).unwrap(), vec![1, 2, 3]);
    assert_eq!(
        no_device(formats_listed(PictureUsage::Dpb, 5, 2, vec![1]).unwrap_err()),
        "Failed to enumerate video format properties for usage VIDEO_ENCODE_DPB_KHR: INCOMPLETE"
    );
}

#[test]
fn a_failed_flush_moves_to_its_slot() {
    for config in
        [EncodeConfig::h264(640, 480), EncodeConfig::h265(640, 480), EncodeConfig::av1(640, 480)]
    {
        let mut encoder = encoder(config);
        let frame = encoder.start_frame();
        let header = if encoder.start_picture(&frame) { Some(vec![1]) } else { None };
        encoder.finish_frame(&frame, header);
        assert_eq!(encoder.input_image(), 1);
        let failed = encoder.flush(vec![Err(PixelForgeError::QueryPool("lost".to_string()))]);
        assert!(matches!(failed, Err(PixelForgeError::QueryPool(m)) if m == "lost"));
        // H.264 and AV1 encoders go back to the slot that failed.
        let moved = config.codec != Codec::H265;
        assert_eq!(encoder.input_image(), if moved { 0 } else { 1 });
        assert!(encoder.state().in_flight(0));
        assert_eq!(encoder.flush(vec![Ok(vec![2])]).unwrap()[0].pts, 0);
    }
}
