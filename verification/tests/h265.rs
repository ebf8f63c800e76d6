//! H.265 encoder.

use pixelforge::encoder::gop::{GopFrameType, GopPosition};
use pixelforge::encoder::h265::frame::{plan_frame, H265Picture, H265Slice, H265Slot};
use pixelforge::encoder::h265::parameters::{h265_profile, H265Profile};
use pixelforge::encoder::h265::{H265Encoder, ReferenceInfo, CTB_SIZE};
use pixelforge::encoder::header::{HeaderOutcome, HeaderQuery};
use pixelforge::encoder::pictures::{CodedPictureType, SliceType};
use pixelforge::encoder::rate_control::QpRange;
use pixelforge::encoder::session::{DeviceReport, VideoCapabilities};
use pixelforge::encoder::{Dimensions, StartedFrame};
use pixelforge::vk::ImageLayout;
use pixelforge::{
    ColorDescription, EncodeBitDepth, EncodeConfig, EncodedPacket, FrameType, PixelForgeError,
    PixelFormat, RateControlMode,
};

fn report() -> DeviceReport {
    DeviceReport {
        capabilities: Ok(VideoCapabilities {
            picture_access_granularity: Dimensions { width: 1, height: 1 },
            min_coded_extent: Dimensions { width: 16, height: 16 },
            max_coded_extent: Dimensions { width: 8192, height: 8192 },
            max_dpb_slots: 16,
            max_active_reference_pictures: 15,
            separate_reference_images: false,
        }),
        src_formats: Ok(vec![1000156003, 1000330000, 1000156013, 1000330001]),
        dpb_formats: Ok(vec![1000156003, 1000330000, 1000156013, 1000330001]),
        encode_queue_family: Some(0),
    }
}

fn encoder(config: EncodeConfig) -> H265Encoder {
    H265Encoder::new(config, report()).unwrap()
}

fn start(encoder: &mut H265Encoder) -> StartedFrame {
    let frame = encoder.start_frame();
    if encoder.start_picture(&frame) {
        encoder.set_header(vec![9, 8, 7]);
    }
    frame
}

fn encode(encoder: &mut H265Encoder) -> Option<EncodedPacket> {
    let frame = start(encoder);
    encoder.finish_frame(&frame);
    encoder.drain_current_slot(Ok(vec![0xbb])).unwrap()
}

#[test]
fn idr_plan_of_h265() {
    let mut encoder = encoder(
        EncodeConfig::h265(1920, 1080)
            .with_rate_control(RateControlMode::Disabled)
            .with_quality_level(30),
    );
    let frame = start(&mut encoder);
    let plan = encoder.encode(&frame);
    assert_eq!(plan.coded_extent, Dimensions { width: 1920, height: 1088 });
    assert_eq!(
        plan.setup,
        H265Slot { dpb_slot: 0, picture_type: CodedPictureType::Idr, pic_order_cnt: 0 }
    );
    assert!(plan.references.is_empty());
    assert!(plan.lists.is_none());
    assert_eq!(plan.begin_slots, vec![-1]);
    assert_eq!(
        plan.slice,
        H265Slice {
            first_slice_segment_in_pic: true,
            slice_sao_luma: true,
            slice_sao_chroma: true,
            num_ref_idx_active_override: true,
            slice_type: SliceType::I,
            max_num_merge_cand: 5,
        }
    );
    assert_eq!(
        plan.picture,
        H265Picture {
            is_reference: true,
            irap: true,
            pic_output: true,
            no_output_of_prior_pics: true,
            picture_type: CodedPictureType::Idr,
            pic_order_cnt: 0,
        }
    );
    assert_eq!(plan.rps.num_negative_pics, 0);
    assert_eq!(plan.rps.used_by_curr_pic_s0_flag, 0);
    assert_eq!(plan.constant_qp, 30);
    assert_eq!(plan.qp_range, QpRange { min: 30, max: 30 });
    assert!(plan.first_frame);
    assert_eq!(plan.post_barrier.place.image, 0);
}

#[test]
fn predicted_plan_of_h265() {
    let mut encoder = encoder(
        EncodeConfig::h265(640, 480)
            .with_rate_control(RateControlMode::Vbr)
            .with_max_reference_frames(3),
    );
    for _ in 0..5 {
        encode(&mut encoder);
    }
    let frame = start(&mut encoder);
    let plan = encoder.encode(&frame);
    assert_eq!(plan.picture.pic_order_cnt, 10);
    let pocs: Vec<i32> = plan.references.iter().map(|r| r.pic_order_cnt).collect();
    assert_eq!(pocs, vec![8, 6, 4]);
    let slots: Vec<u8> = plan.references.iter().map(|r| r.dpb_slot).collect();
    assert_eq!(slots, vec![0, 3, 2]);
    assert_eq!(plan.setup.dpb_slot, 1);
    assert_eq!(plan.begin_slots, vec![-1, 0, 3, 2]);
    let lists = plan.lists.unwrap();
    assert_eq!(&lists.list0[..4], &[0, 3, 2, 0xff]);
    assert_eq!(lists.num_ref_idx_l0_active_minus1, 2);
    assert_eq!(plan.rps.num_negative_pics, 3);
    assert_eq!(plan.rps.num_positive_pics, 0);
    assert_eq!(plan.rps.used_by_curr_pic_s0_flag, 0b111);
    assert_eq!(&plan.rps.delta_poc_s0_minus1[..4], &[1, 1, 1, 0]);
    assert_eq!(plan.qp_range, QpRange { min: 26, max: 51 });
    assert_eq!(plan.constant_qp, 0);
    // The DPB is layered, and the post-encode barrier is on the layer of the slot.
    assert_eq!(plan.post_barrier.place.layer, 1);
    assert_eq!(plan.post_barrier.old_layout, ImageLayout::VideoEncodeDpb);
}

#[test]
fn references_stay_two_apart_when_counts_start_over() {
    let mut encoder = encoder(
        EncodeConfig::h265(640, 480).with_gop_size(1000).with_max_reference_frames(2),
    );
    for _ in 0..257 {
        encode(&mut encoder);
    }
    let frame = start(&mut encoder);
    let plan = encoder.encode(&frame);
    assert_eq!(plan.picture.pic_order_cnt, 2);
    let pocs: Vec<i32> = plan.references.iter().map(|r| r.pic_order_cnt).collect();
    assert_eq!(pocs, vec![0, 510]);
    assert_eq!(&plan.rps.delta_poc_s0_minus1[..3], &[1, 1, 0]);
}

#[test]
fn bidirectional_plan_of_h265() {
    let encoder = encoder(EncodeConfig::h265(640, 480));
    let frame = StartedFrame {
        position: GopPosition {
            frame_type: GopFrameType::B,
            is_reference: false,
            pic_order_cnt: 4,
        },
        display_order: 2,
    };
    let references = vec![
        ReferenceInfo { dpb_slot: 1, poc: 2 },
        ReferenceInfo { dpb_slot: 2, poc: 0 },
    ];
    let after = ReferenceInfo { dpb_slot: 3, poc: 10 };
    let plan = plan_frame(encoder.state(), &frame, &references, Some(after));
    assert_eq!(plan.slice.slice_type, SliceType::B);
    assert_eq!(plan.setup.picture_type, CodedPictureType::B);
    assert_eq!(plan.begin_slots, vec![-1, 1, 2, 3]);
    assert_eq!(plan.rps.num_negative_pics, 2);
    assert_eq!(plan.rps.num_positive_pics, 1);
    assert_eq!(plan.rps.used_by_curr_pic_s1_flag, 1);
    assert_eq!(plan.rps.delta_poc_s1_minus1[0], 5);
    let lists = plan.lists.unwrap();
    assert_eq!(&lists.list0[..2], &[1, 0xff]);
    assert_eq!(&lists.list1[..2], &[3, 0xff]);
    assert!(!plan.picture.is_reference);
}

#[test]
fn h265_header_is_retrieved_once() {
    let mut encoder = encoder(EncodeConfig::h265(640, 480).with_gop_size(2));
    let mut packets = Vec::new();
    let mut retrieved = 0;
    for _ in 0..6 {
        let frame = encoder.start_frame();
        if encoder.start_picture(&frame) {
            retrieved += 1;
            encoder.set_header(vec![9]);
        }
        encoder.finish_frame(&frame);
        packets.extend(encoder.drain_current_slot(Ok(vec![0xbb])).unwrap());
    }
    packets.extend(encoder.flush(vec![Ok(vec![2])]).unwrap());
    assert_eq!(retrieved, 1);
    let data: Vec<Vec<u8>> = packets.iter().map(|p| p.data.clone()).collect();
    assert_eq!(
        data,
        vec![vec![9, 0xbb], vec![0xbb], vec![9, 0xbb], vec![0xbb], vec![9, 0xbb], vec![2]]
    );
    let keys: Vec<bool> = packets.iter().map(|p| p.is_key_frame).collect();
    assert_eq!(keys, vec![true, false, true, false, true, false]);
    assert_eq!(packets[1].frame_type, FrameType::P);
    assert_eq!(packets[5].pts, 5);
    assert_eq!(packets[5].dts, 5);
}

#[test]
fn h265_idr_reactivates_slots() {
    let mut encoder = encoder(EncodeConfig::h265(640, 480).with_gop_size(2));
    let mut layouts = Vec::new();
    for _ in 0..4 {
        let frame = start(&mut encoder);
        layouts.push(encoder.encode(&frame).barriers[0].old_layout);
        encoder.finish_frame(&frame);
    }
    // Slots 0 and 1, then slot 2 for the second IDR frame, and slot 0 again, which the
    // IDR frame has made inactive.
    assert_eq!(layouts, vec![ImageLayout::Undefined; 4]);
}

#[test]
fn new_colors_discard_the_h265_header() {
    let mut encoder = encoder(EncodeConfig::h265(640, 480));
    encode(&mut encoder);
    encoder.set_color_description(ColorDescription::bt2020_pq(), Ok(())).unwrap();
    let frame = encoder.start_frame();
    assert!(frame.position.frame_type.is_idr());
    assert!(encoder.start_picture(&frame));
    let failed = encoder.set_color_description(
        ColorDescription::bt709(),
        Err(PixelForgeError::Synchronization("timeout".to_string())),
    );
    assert!(matches!(failed, Err(PixelForgeError::Synchronization(m)) if m == "timeout"));
    assert_eq!(
        encoder.state().config().color_description,
        Some(ColorDescription::bt2020_pq())
    );
}

#[test]
fn requested_h265_idr() {
    let mut encoder = encoder(EncodeConfig::h265(640, 480));
    encode(&mut encoder);
    encoder.request_idr();
    let frame = start(&mut encoder);
    assert_eq!(frame.position.frame_type, GopFrameType::Idr);
    assert_eq!(frame.position.pic_order_cnt, 0);
}

#[test]
fn h265_parameters() {
    let encoder = encoder(EncodeConfig::h265(1920, 1080));
    let parameters = encoder.create_session_params(&ColorDescription::bt709()).unwrap();
    let sps = parameters.sps;
    assert_eq!(sps.chroma_format_idc, 1);
    assert_eq!(sps.pic_width_in_luma_samples, 1920);
    assert_eq!(sps.pic_height_in_luma_samples, 1088);
    assert!(sps.conformance_window);
    assert_eq!(sps.conf_win_right_offset, 0);
    assert_eq!(sps.conf_win_bottom_offset, 4);
    assert_eq!(sps.log2_min_luma_coding_block_size_minus3, 1);
    assert_eq!(sps.log2_diff_max_min_luma_coding_block_size, 1);
    assert_eq!(sps.log2_min_luma_transform_block_size_minus2, 0);
    assert_eq!(sps.log2_diff_max_min_luma_transform_block_size, 3);
    assert_eq!(sps.max_transform_hierarchy_depth_inter, 3);
    assert_eq!(sps.max_transform_hierarchy_depth_intra, 3);
    assert_eq!(sps.max_dec_pic_buffering_minus1, 4);
    assert_eq!(sps.rps_num_negative_pics, 1);
    assert_eq!(sps.profile_tier_level.general_profile, H265Profile::Main);
    assert_eq!(sps.profile_tier_level.general_level, 51);
    assert_eq!(sps.vui.matrix_coeffs, 1);
    assert!(sps.sample_adaptive_offset_enabled);
    assert!(sps.amp_enabled);
    assert!(parameters.vps.temporal_id_nesting);
    assert!(parameters.pps.cabac_init_present);
    assert!(parameters.pps.transform_skip_enabled);
    assert!(parameters.pps.cu_qp_delta_enabled);
    assert!(parameters.pps.loop_filter_across_slices_enabled);
    assert!(parameters.pps.deblocking_filter_control_present);
    assert_eq!(parameters.pps.luma_bit_depth_entry_minus8, 0);
}

#[test]
fn h265_parameters_of_ten_bit_full_chroma() {
    let encoder = encoder(
        EncodeConfig::h265(641, 480)
            .with_pixel_format(PixelFormat::Yuv444)
            .with_bit_depth(EncodeBitDepth::Ten),
    );
    let parameters = encoder.create_session_params(&ColorDescription::bt2020_pq()).unwrap();
    assert_eq!(parameters.sps.chroma_format_idc, 3);
    assert_eq!(parameters.sps.bit_depth_luma_minus8, 2);
    assert_eq!(parameters.sps.conf_win_right_offset, 31);
    assert_eq!(parameters.sps.conf_win_bottom_offset, 0);
    assert_eq!(
        parameters.sps.profile_tier_level.general_profile,
        H265Profile::FormatRangeExtensions
    );
    assert_eq!(parameters.pps.chroma_bit_depth_entry_minus8, 2);
    assert_eq!(parameters.sps.vui.transfer_characteristics, 16);
}

#[test]
fn h265_profiles() {
    assert_eq!(CTB_SIZE, 32);
    let of = |format, depth| h265_profile(format, depth).ok();
    assert_eq!(of(PixelFormat::Yuv420, EncodeBitDepth::Eight), Some(H265Profile::Main));
    assert_eq!(of(PixelFormat::Yuv420, EncodeBitDepth::Ten), Some(H265Profile::Main10));
    assert_eq!(
        of(PixelFormat::Yuv444, EncodeBitDepth::Eight),
        Some(H265Profile::FormatRangeExtensions)
    );
    assert!(h265_profile(PixelFormat::Yuv422, EncodeBitDepth::Eight).is_err());
}

#[test]
fn h265_header_queries() {
    let encoder = encoder(EncodeConfig::h265(640, 480));
    let mut query = HeaderQuery::new();
    assert!(matches!(encoder.header_answer(&mut query, 5, vec![0; 4096], 5000), HeaderOutcome::Retry));
    assert_eq!(query.buffer_size(), 8192);
    assert!(matches!(
        encoder.header_answer(&mut query, 0, vec![6; 8192], 1),
        HeaderOutcome::Done(Ok(header)) if header == vec![6]
    ));
}

#[test]
fn drained_h265_slots_need_metadata() {
    let mut encoder = encoder(EncodeConfig::h265(640, 480));
    assert!(encoder.drain_current_slot(Ok(vec![])).unwrap().is_none());
    assert!(encoder.flush(vec![]).unwrap().is_empty());
    assert_eq!(encoder.input_image(), 0);
}
