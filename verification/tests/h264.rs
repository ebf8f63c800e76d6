//! H.264 encoder.

use pixelforge::encoder::gop::{GopFrameType, GopPosition};
use pixelforge::encoder::h264::frame::{plan_frame, H264Picture, H264Slice, H264Slot};
use pixelforge::encoder::h264::parameters::{check_cropping, h264_profile, H264Profile};
use pixelforge::encoder::h264::{H264Encoder, ReferenceInfo, MB_SIZE};
use pixelforge::encoder::header::{HeaderOutcome, HeaderQuery};
use pixelforge::encoder::pictures::{CodedPictureType, SliceType};
use pixelforge::encoder::pipeline::TimelineValues;
use pixelforge::encoder::rate_control::{DeviceRateControl, QpRange, RateControlLayer};
use pixelforge::encoder::session::{DeviceReport, VideoCapabilities};
use pixelforge::encoder::{Dimensions, StartedFrame};
use pixelforge::steps::Step;
use pixelforge::vk::ImageLayout;
use pixelforge::{
    ColorDescription, EncodeBitDepth, EncodeConfig, EncodedPacket, FrameType, PixelForgeError,
    PixelFormat, RateControlMode,
};

fn capabilities() -> VideoCapabilities {
    VideoCapabilities {
        picture_access_granularity: Dimensions { width: 16, height: 16 },
        min_coded_extent: Dimensions { width: 64, height: 64 },
        max_coded_extent: Dimensions { width: 4096, height: 4096 },
        max_dpb_slots: 17,
        max_active_reference_pictures: 16,
        separate_reference_images: true,
    }
}

fn report(formats: &[i32]) -> DeviceReport {
    DeviceReport {
        capabilities: Ok(capabilities()),
        src_formats: Ok(formats.to_vec()),
        dpb_formats: Ok(formats.to_vec()),
        encode_queue_family: Some(1),
    }
}

fn encoder(config: EncodeConfig) -> H264Encoder {
    let report = report(&[1000156003, 1000330000, 1000156013]);
    H264Encoder::new(config, report, Some(true)).unwrap()
}

fn start(encoder: &mut H264Encoder) -> (StartedFrame, Option<Vec<u8>>) {
    let frame = encoder.start_frame();
    let header = if encoder.start_picture(&frame) { Some(vec![1, 2]) } else { None };
    (frame, header)
}

fn encode(encoder: &mut H264Encoder) -> Option<EncodedPacket> {
    let (frame, header) = start(encoder);
    encoder.finish_frame(&frame, header);
    encoder.drain_current_slot(Ok(vec![0xaa])).unwrap()
}

#[test]
fn idr_plan() {
    let mut encoder = encoder(
        EncodeConfig::h264(1920, 1080)
            .with_rate_control(RateControlMode::Cqp)
            .with_quality_level(22),
    );
    let (frame, header) = start(&mut encoder);
    assert_eq!(header, Some(vec![1, 2]));
    assert!(encoder.quality_fits());
    let plan = encoder.encode(&frame);
    assert_eq!(plan.coded_extent, Dimensions { width: 1920, height: 1088 });
    assert_eq!(
        plan.setup,
        H264Slot { dpb_slot: 0, picture_type: CodedPictureType::Idr, frame_num: 0, pic_order_cnt: 0 }
    );
    assert!(plan.references.is_empty());
    assert!(plan.lists.is_none());
    assert_eq!(plan.begin_slots, vec![-1]);
    assert_eq!(
        plan.slice,
        H264Slice {
            slice_type: SliceType::I,
            num_ref_idx_active_override: false,
            slice_qp_delta: -4,
        }
    );
    assert_eq!(
        plan.picture,
        H264Picture {
            idr: true,
            is_reference: true,
            idr_pic_id: 1,
            picture_type: CodedPictureType::Idr,
            frame_num: 0,
            pic_order_cnt: 0,
        }
    );
    assert_eq!(plan.constant_qp, 22);
    assert_eq!(plan.qp_range, QpRange { min: 22, max: 22 });
    assert_eq!(plan.rate_control.mode, DeviceRateControl::Disabled);
    assert_eq!(plan.rate_control.virtual_buffer_size_ms, 0);
    assert!(plan.first_frame);
    assert_eq!(plan.barriers.len(), 1);
    assert_eq!(plan.barriers[0].old_layout, ImageLayout::Undefined);
}

#[test]
fn predicted_plan() {
    let mut encoder = encoder(
        EncodeConfig::h264(640, 480)
            .with_rate_control(RateControlMode::Vbr)
            .with_target_bitrate(1000)
            .with_max_bitrate(2000)
            .with_frame_rate(60, 1)
            .with_virtual_buffer_size_ms(500)
            .with_initial_virtual_buffer_size_ms(250)
            .with_max_reference_frames(2),
    );
    for _ in 0..3 {
        encode(&mut encoder);
    }
    let (frame, header) = start(&mut encoder);
    assert_eq!(header, None);
    let plan = encoder.encode(&frame);
    // Two references: the two frames before, the most recent first.
    assert_eq!(
        plan.references,
        vec![
            H264Slot {
                dpb_slot: 2,
                picture_type: CodedPictureType::P,
                frame_num: 2,
                pic_order_cnt: 4,
            },
            H264Slot {
                dpb_slot: 1,
                picture_type: CodedPictureType::P,
                frame_num: 1,
                pic_order_cnt: 2,
            },
        ]
    );
    assert_eq!(
        plan.setup,
        H264Slot { dpb_slot: 0, picture_type: CodedPictureType::P, frame_num: 3, pic_order_cnt: 6 }
    );
    assert_eq!(plan.begin_slots, vec![-1, 2, 1]);
    let lists = plan.lists.unwrap();
    assert_eq!(&lists.list0[..3], &[2, 1, 0xff]);
    assert_eq!(lists.list1, [0xff; 32]);
    assert_eq!(lists.num_ref_idx_l0_active_minus1, 1);
    assert_eq!(lists.num_ref_idx_l1_active_minus1, 0);
    assert_eq!(plan.slice.slice_type, SliceType::P);
    assert!(plan.slice.num_ref_idx_active_override);
    assert_eq!(plan.slice.slice_qp_delta, 0);
    assert_eq!(plan.picture.idr_pic_id, 1);
    assert_eq!(plan.constant_qp, 0);
    assert_eq!(plan.qp_range, QpRange { min: 18, max: 42 });
    assert_eq!(
        plan.rate_control.layer,
        RateControlLayer {
            average_bitrate: 1000,
            max_bitrate: 2000,
            frame_rate_numerator: 60,
            frame_rate_denominator: 1,
        }
    );
    assert_eq!(plan.rate_control.mode, DeviceRateControl::Vbr);
    assert_eq!(plan.rate_control.virtual_buffer_size_ms, 500);
    assert_eq!(plan.rate_control.initial_virtual_buffer_size_ms, 250);
    assert_eq!(plan.rate_control.idr_period, 30);
    assert!(!plan.first_frame);
    // Slot 0 was used for the IDR frame, so what it holds is kept in order.
    assert_eq!(plan.barriers.len(), 3);
    assert_eq!(plan.barriers[0].old_layout, ImageLayout::VideoEncodeDpb);
}

#[test]
fn constant_bitrate_has_no_higher_maximum() {
    let mut encoder = encoder(
        EncodeConfig::h264(640, 480)
            .with_rate_control(RateControlMode::Cbr)
            .with_target_bitrate(1000)
            .with_max_bitrate(2000),
    );
    let (frame, _) = start(&mut encoder);
    let plan = encoder.encode(&frame);
    assert_eq!(plan.rate_control.mode, DeviceRateControl::Cbr);
    assert_eq!(plan.rate_control.layer.average_bitrate, 1000);
    assert_eq!(plan.rate_control.layer.max_bitrate, 1000);
}

#[test]
fn bidirectional_plan() {
    let mut encoder = encoder(EncodeConfig::h264(640, 480));
    encode(&mut encoder);
    let frame = StartedFrame {
        position: GopPosition {
            frame_type: GopFrameType::B,
            is_reference: false,
            pic_order_cnt: 2,
        },
        display_order: 1,
    };
    let references = vec![
        ReferenceInfo { dpb_slot: 0, frame_num: 0, poc: 0 },
        ReferenceInfo { dpb_slot: 3, frame_num: 0, poc: 0 },
    ];
    let after = ReferenceInfo { dpb_slot: 2, frame_num: 1, poc: 4 };
    let plan = plan_frame(encoder.state(), &frame, 2, 0, &references, Some(after));
    assert_eq!(plan.slice.slice_type, SliceType::B);
    assert_eq!(plan.picture.picture_type, CodedPictureType::B);
    assert_eq!(plan.setup.picture_type, CodedPictureType::P);
    assert_eq!(plan.begin_slots, vec![-1, 0, 2]);
    assert_eq!(plan.references[1].pic_order_cnt, 4);
    let lists = plan.lists.unwrap();
    assert_eq!(&lists.list0[..2], &[0, 0xff]);
    assert_eq!(&lists.list1[..2], &[2, 0xff]);
}

#[test]
fn idr_frames_forget_references() {
    let mut encoder = encoder(EncodeConfig::h264(640, 480).with_gop_size(3));
    let mut seen = Vec::new();
    for _ in 0..7 {
        let (frame, header) = start(&mut encoder);
        let plan = encoder.encode(&frame);
        seen.push((
            plan.picture.idr,
            plan.picture.frame_num,
            plan.picture.idr_pic_id,
            plan.references.len(),
            header.is_some(),
        ));
        encoder.finish_frame(&frame, header);
    }
    assert_eq!(
        seen,
        vec![
            (true, 0, 1, 0, true),
            (false, 1, 1, 1, false),
            (false, 2, 1, 2, false),
            (true, 0, 0, 0, true),
            (false, 1, 0, 1, false),
            (false, 2, 0, 2, false),
            (true, 0, 1, 0, true),
        ]
    );
}

#[test]
fn frame_numbers_have_eight_bits() {
    let mut encoder = encoder(EncodeConfig::h264(640, 480).with_gop_size(1000));
    for _ in 0..256 {
        encode(&mut encoder);
    }
    let (frame, _) = start(&mut encoder);
    let plan = encoder.encode(&frame);
    assert_eq!(plan.picture.frame_num, 0);
    assert_eq!(plan.picture.pic_order_cnt, 0);
    assert_eq!(plan.references[0].frame_num, 255);
    assert_eq!(plan.references[0].pic_order_cnt, 510);
}

#[test]
fn the_pipeline_fills_then_delivers() {
    let mut encoder = encoder(EncodeConfig::h264(640, 480));
    assert_eq!(encoder.input_image(), 0);
    assert_eq!(encoder.state().timeline_values(), TimelineValues { wait: None, signal: 1 });
    assert!(encode(&mut encoder).is_none());
    assert_eq!(encoder.input_image(), 1);
    let first = encode(&mut encoder).unwrap();
    assert_eq!(encoder.input_image(), 0);
    assert_eq!(encoder.state().timeline_values(), TimelineValues { wait: Some(2), signal: 3 });
    assert_eq!(first.data, vec![1, 2, 0xaa]);
    assert_eq!(first.frame_type, FrameType::I);
    assert!(first.is_key_frame);
    assert_eq!((first.pts, first.dts), (0, 0));
    let second = encode(&mut encoder).unwrap();
    assert_eq!(second.data, vec![0xaa]);
    assert_eq!(second.frame_type, FrameType::P);
    assert!(!second.is_key_frame);
    assert_eq!((second.pts, second.dts), (1, 1));
    for number in 2..6 {
        assert_eq!(encode(&mut encoder).unwrap().pts, number);
        assert!(!encoder.state().in_flight(encoder.input_image()));
    }
    assert_eq!(encoder.state().flush_order(), vec![0]);
    let rest = encoder.flush(vec![Ok(vec![3])]).unwrap();
    assert_eq!(rest.len(), 1);
    assert_eq!(rest[0].pts, 6);
    assert_eq!(rest[0].data, vec![3]);
    assert!(encoder.state().flush_order().is_empty());
    assert!(encoder.flush(vec![]).unwrap().is_empty());
}

#[test]
fn a_failed_read_is_handed_on() {
    let mut encoder = encoder(EncodeConfig::h264(640, 480));
    encode(&mut encoder);
    let (frame, header) = start(&mut encoder);
    encoder.finish_frame(&frame, header);
    let failed =
        encoder.drain_current_slot(Err(PixelForgeError::QueryPool("not ready".to_string())));
    assert!(matches!(failed, Err(PixelForgeError::QueryPool(m)) if m == "not ready"));
    assert!(encoder.state().in_flight(0));
    // The slot can be drained again.
    assert_eq!(encoder.drain_current_slot(Ok(vec![7])).unwrap().unwrap().pts, 0);
    assert_eq!(encode(&mut encoder).unwrap().pts, 1);
}

#[test]
fn requested_idr_comes_next() {
    let mut encoder = encoder(EncodeConfig::h264(640, 480));
    encode(&mut encoder);
    encoder.request_idr();
    let (frame, header) = start(&mut encoder);
    assert!(frame.position.frame_type.is_idr());
    assert_eq!(frame.display_order, 1);
    assert!(header.is_some());
}

#[test]
fn new_colors_bring_an_idr() {
    let mut encoder = encoder(EncodeConfig::h264(640, 480));
    encode(&mut encoder);
    encoder.set_color_description(ColorDescription::bt2020_pq(), Ok(())).unwrap();
    assert_eq!(
        encoder.state().config().color_description,
        Some(ColorDescription::bt2020_pq())
    );
    let (frame, _) = start(&mut encoder);
    assert!(frame.position.frame_type.is_idr());
}

#[test]
fn colors_stay_if_parameters_cannot_be_recreated() {
    let mut encoder = encoder(EncodeConfig::h264(640, 480));
    encode(&mut encoder);
    let failed = encoder.set_color_description(
        ColorDescription::bt2020_pq(),
        Err(PixelForgeError::SessionParametersCreation("ERROR_UNKNOWN".to_string())),
    );
    assert!(matches!(
        failed,
        Err(PixelForgeError::SessionParametersCreation(m)) if m == "ERROR_UNKNOWN"
    ));
    assert_eq!(encoder.state().config().color_description, None);
    let (frame, _) = start(&mut encoder);
    assert!(!frame.position.frame_type.is_idr());
}

#[test]
fn parameters_of_hd_video() {
    let encoder = encoder(EncodeConfig::h264(1920, 1080));
    let parameters = encoder.create_session_params(&ColorDescription::bt709()).unwrap();
    let sps = parameters.sps;
    assert_eq!(sps.profile, H264Profile::High);
    assert_eq!(sps.level, 41);
    assert_eq!(sps.chroma_format_idc, 1);
    assert_eq!(sps.pic_width_in_mbs_minus1, 119);
    assert_eq!(sps.pic_height_in_map_units_minus1, 67);
    assert!(sps.frame_cropping);
    assert_eq!(sps.frame_crop_right_offset, 0);
    assert_eq!(sps.frame_crop_bottom_offset, 4);
    assert_eq!(sps.max_num_ref_frames, 4);
    assert_eq!(sps.pic_order_cnt_type, 2);
    assert_eq!(sps.log2_max_frame_num_minus4, 4);
    assert_eq!(sps.vui.video_format, 5);
    assert_eq!(sps.vui.colour_primaries, 1);
    assert_eq!(sps.vui.max_dec_frame_buffering, 5);
    assert_eq!(sps.vui.max_num_reorder_frames, 0);
    assert!(!sps.vui.nal_hrd_parameters_present);
    let pps = parameters.pps;
    assert!(pps.transform_8x8_mode);
    assert!(pps.entropy_coding_mode);
    assert_eq!(pps.num_ref_idx_l0_default_active_minus1, 3);
    assert_eq!(pps.chroma_qp_index_offset, 0);
}

#[test]
fn parameters_of_full_chroma_video() {
    let config = EncodeConfig::h264(641, 480)
        .with_pixel_format(PixelFormat::Yuv444)
        .with_max_reference_frames(0);
    let report = report(&[1000330000]);
    let encoder = H264Encoder::new(config, report, Some(false)).unwrap();
    let parameters = encoder.create_session_params(&ColorDescription::bt2020_pq()).unwrap();
    assert_eq!(parameters.sps.profile, H264Profile::High444Predictive);
    assert_eq!(parameters.sps.chroma_format_idc, 3);
    assert_eq!(parameters.sps.pic_width_in_mbs_minus1, 40);
    assert_eq!(parameters.sps.frame_crop_right_offset, 15);
    assert_eq!(parameters.sps.frame_crop_bottom_offset, 0);
    assert_eq!(parameters.sps.vui.colour_primaries, 9);
    assert_eq!(parameters.sps.vui.transfer_characteristics, 16);
    // One reference is used even if none is asked for.
    assert_eq!(parameters.sps.max_num_ref_frames, 1);
    assert!(!parameters.pps.entropy_coding_mode);
    assert_eq!(parameters.pps.num_ref_idx_l0_default_active_minus1, 0);
    assert_eq!(parameters.pps.chroma_qp_index_offset, 6);
    assert_eq!(parameters.pps.second_chroma_qp_index_offset, 6);
}

#[test]
fn parameters_without_cropping() {
    let encoder =
        encoder(EncodeConfig::h264(640, 480).with_bit_depth(EncodeBitDepth::Ten));
    let parameters = encoder.create_session_params(&ColorDescription::bt709()).unwrap();
    assert!(!parameters.sps.frame_cropping);
    assert_eq!(parameters.sps.bit_depth_luma_minus8, 2);
}

#[test]
fn cabac_is_the_default_entropy_coding() {
    let encoder =
        H264Encoder::new(EncodeConfig::h264(640, 480), report(&[1000156003]), None).unwrap();
    let parameters = encoder.create_session_params(&ColorDescription::bt709()).unwrap();
    assert!(parameters.pps.entropy_coding_mode);
}

#[test]
fn profiles() {
    assert_eq!(MB_SIZE, 16);
    assert_eq!(h264_profile(PixelFormat::Yuv420), H264Profile::High);
    assert_eq!(h264_profile(PixelFormat::Yuv444), H264Profile::High444Predictive);
}

#[test]
fn odd_widths_cannot_be_cropped() {
    let created = H264Encoder::new(EncodeConfig::h264(639, 480), report(&[1000156003]), None);
    assert!(matches!(
        created,
        Err(PixelForgeError::InvalidInput(m)) if m == "Width 639 is not representable for Yuv420 \
            with coded width 640 (crop_unit_x=2): crop delta 1 must be divisible by crop unit"
    ));
}

#[test]
fn odd_heights_cannot_be_cropped() {
    let created = H264Encoder::new(EncodeConfig::h264(640, 471), report(&[1000156003]), None);
    assert!(matches!(
        created,
        Err(PixelForgeError::InvalidInput(m)) if m == "Height 471 is not representable for Yuv420 \
            with coded height 480 (crop_unit_y=2): crop delta 9 must be divisible by crop unit"
    ));
}

#[test]
fn other_pixel_formats_are_not_cropped() {
    let size = Dimensions { width: 640, height: 480 };
    let checked = check_cropping(size, size, PixelFormat::Yuv422);
    assert!(matches!(
        checked,
        Err(PixelForgeError::InvalidInput(m)) if m == "Unsupported pixel format for H.264: Yuv422"
    ));
}

#[test]
fn header_queries() {
    let encoder = encoder(EncodeConfig::h264(640, 480));
    let mut query = HeaderQuery::new();
    assert!(matches!(
        encoder.header_answer(&mut query, 0, vec![7; 4096], 2),
        HeaderOutcome::Done(Ok(header)) if header == vec![7, 7]
    ));
    let mut query = HeaderQuery::new();
    assert!(matches!(
        encoder.header_answer(&mut query, 0, vec![7; 4096], 0),
        HeaderOutcome::Done(Err(PixelForgeError::SessionParametersCreation(m)))
            if m == "Encoded parameters size is 0"
    ));
    let mut query = HeaderQuery::new();
    assert!(matches!(
        encoder.header_answer(&mut query, -1, vec![7; 4096], 0),
        HeaderOutcome::Done(Err(PixelForgeError::SessionParametersCreation(m)))
            if m == "Failed to get encoded parameters: ERROR_OUT_OF_HOST_MEMORY"
    ));
}

#[test]
fn own_input_image_is_not_uploaded() {
    let mut encoder = encoder(EncodeConfig::h264(640, 480));
    assert!(encoder.upload_from_image(true).is_none());
    let steps = encoder.upload_from_image(false).unwrap();
    let copies = steps.iter().filter(|s| matches!(s, Step::CopyImage(_))).count();
    assert_eq!(copies, 1);
    encoder.uploaded();
    assert!(matches!(
        encoder.upload_from_image(false).unwrap().last().unwrap(),
        Step::ImageBarrier(_)
    ));
}
