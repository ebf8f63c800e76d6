//! AV1 encoder.

use pixelforge::encoder::av1::frame::{
    calculate_reference_frame_mapping, Av1FrameType, Av1Prediction, Av1Slot,
};
use pixelforge::encoder::av1::parameters::{
    bitstream_buffer_size, build_sequence_header, session_profile, Av1ColorPrimaries,
    Av1MatrixCoefficients, Av1Profile, Av1TransferCharacteristics,
};
use pixelforge::encoder::av1::{AV1Encoder, ReferenceInfo, SUPERBLOCK_SIZE};
use pixelforge::encoder::header::{HeaderOutcome, HeaderQuery};
use pixelforge::encoder::references::{find_free_slot as next_free_slot, remember};
use pixelforge::encoder::resources::align_up;
use pixelforge::encoder::session::{DeviceReport, VideoCapabilities};
use pixelforge::encoder::{Dimensions, StartedFrame};
use pixelforge::{
    ColorDescription, EncodeBitDepth, EncodeConfig, EncodedPacket, FrameType, PixelForgeError,
    PixelFormat, RateControlMode,
};

fn slots(references: &[ReferenceInfo]) -> Vec<u8> {
    references.iter().map(|r| r.dpb_slot).collect()
}

fn find_free_slot(references: &[ReferenceInfo], slot_count: u8) -> u8 {
    next_free_slot(&slots(references), slot_count, 0)
}

#[test]
fn test_superblock_size() {
    assert_eq!(SUPERBLOCK_SIZE, 128);
}

#[test]
fn test_superblock_alignment() {
    // Dimensions should be aligned up to superblock boundaries.
    let align = |v: u32| align_up(v, SUPERBLOCK_SIZE);

    assert_eq!(align(1920), 1920); // Already aligned
    assert_eq!(align(1080), 1152); // 1080 rounds up to 1152
    assert_eq!(align(2560), 2560); // Already aligned
    assert_eq!(align(1440), 1536); // 1440 rounds up to 1536
    assert_eq!(align(1), 128); // Minimum is one superblock
}

#[test]
fn test_reference_info() {
    let ref_info = ReferenceInfo {
        dpb_slot: 2,
        order_hint: 42,
    };

    assert_eq!(ref_info.dpb_slot, 2);
    assert_eq!(ref_info.order_hint, 42);

    // Should be Copy + Clone.
    let copied = ref_info;
    assert_eq!(copied.dpb_slot, ref_info.dpb_slot);
    assert_eq!(copied.order_hint, ref_info.order_hint);
}

#[test]
fn test_order_hint_wrapping() {
    // AV1 order hints are 8-bit, wrapping at 256.
    let mut order_hint: u32 = 254;
    for _ in 0..4 {
        order_hint = (order_hint + 1) & 0xFF;
    }
    // 254 -> 255 -> 0 -> 1 -> 2
    assert_eq!(order_hint, 2);

    // The encoder counts likewise: frame 258 after the key frame has order hint 2.
    let mut encoder = encoder(EncodeConfig::av1(64, 64).with_gop_size(1000));
    for _ in 0..254 {
        encode(&mut encoder);
    }
    let mut hints = Vec::new();
    for _ in 0..5 {
        let frame = start(&mut encoder);
        hints.push(encoder.encode(&frame).picture.order_hint);
        encoder.finish_frame(&frame);
    }
    assert_eq!(hints, vec![254, 255, 0, 1, 2]);
}

#[test]
fn test_reference_tracking() {
    // Building up a reference list.
    let mut references: Vec<ReferenceInfo> = Vec::new();
    let max_refs = 4usize;

    for i in 0..6u8 {
        let ref_info = ReferenceInfo {
            dpb_slot: i % max_refs as u8,
            order_hint: i as u32,
        };
        remember(&mut references, ref_info, max_refs);
    }

    // Should have exactly max_refs entries.
    assert_eq!(references.len(), max_refs);
    // Most recent should be first.
    assert_eq!(references[0].order_hint, 5);
    assert_eq!(references[max_refs - 1].order_hint, 2);
}

#[test]
fn test_key_frame_clears_references() {
    let mut references: Vec<ReferenceInfo> = Vec::new();

    // Build up some references (like a sequence of P-frames).
    for i in 0..3u8 {
        remember(
            &mut references,
            ReferenceInfo {
                dpb_slot: i,
                order_hint: i as u32,
            },
            3,
        );
    }
    assert_eq!(references.len(), 3);

    // Key frame resets everything.
    references.clear();
    assert!(references.is_empty());

    // First frame after key should start fresh at slot 0.
    remember(
        &mut references,
        ReferenceInfo {
            dpb_slot: 0,
            order_hint: 0,
        },
        3,
    );
    assert_eq!(references.len(), 1);
    assert_eq!(references[0].dpb_slot, 0);
    assert_eq!(references[0].order_hint, 0);
}

#[test]
fn test_dpb_slot_reuse() {
    // After encoding a reference frame, find the first slot not used by any active
    // reference.
    let max_refs = 2usize;
    let dpb_slot_count = 3u8; // active_refs + 1
    let mut references: Vec<ReferenceInfo> = Vec::new();
    let mut current_dpb_slot: u8 = 0;

    // Frame 0 (IDR): uses slot 0.
    assert_eq!(current_dpb_slot, 0);
    remember(&mut references, ReferenceInfo { dpb_slot: 0, order_hint: 0 }, max_refs);
    current_dpb_slot = find_free_slot(&references, dpb_slot_count);
    assert_eq!(current_dpb_slot, 1); // slot 0 is used, next free is 1

    // Frame 1 (P): uses slot 1.
    remember(&mut references, ReferenceInfo { dpb_slot: 1, order_hint: 1 }, max_refs);
    current_dpb_slot = find_free_slot(&references, dpb_slot_count);
    assert_eq!(current_dpb_slot, 2); // slots 0,1 used, next free is 2

    // Frame 2 (P): uses slot 2. Now all 3 slots have been touched,
    // but max_refs=2 means the oldest reference (slot 0) gets evicted.
    remember(&mut references, ReferenceInfo { dpb_slot: 2, order_hint: 2 }, max_refs);
    // references = [{slot:2, hint:2}, {slot:1, hint:1}] - slot 0 evicted
    assert_eq!(references.len(), 2);
    assert_eq!(references[0].dpb_slot, 2);
    assert_eq!(references[1].dpb_slot, 1);
    current_dpb_slot = find_free_slot(&references, dpb_slot_count);
    assert_eq!(current_dpb_slot, 0); // slot 0 is now free again (reuse!)

    // Frame 3 (P): uses recycled slot 0.
    remember(&mut references, ReferenceInfo { dpb_slot: 0, order_hint: 3 }, max_refs);
    // references = [{slot:0, hint:3}, {slot:2, hint:2}] - slot 1 evicted
    current_dpb_slot = find_free_slot(&references, dpb_slot_count);
    assert_eq!(current_dpb_slot, 1); // slot 1 recycled
}

#[test]
fn test_idr_p_p_idr_cycle() {
    // Full GOP cycle: IDR -> P -> P -> IDR, verifying DPB slot allocation
    // and reference list state at each step.
    let max_refs = 2usize;
    let dpb_slot_count = 3u8;
    let mut references: Vec<ReferenceInfo> = Vec::new();
    let mut current_dpb_slot: u8 = 0;

    // IDR frame: clears refs, writes to slot 0.
    references.clear();
    remember(
        &mut references,
        ReferenceInfo { dpb_slot: current_dpb_slot, order_hint: 0 },
        max_refs,
    );
    current_dpb_slot = find_free_slot(&references, dpb_slot_count);

    assert_eq!(references.len(), 1);
    assert_eq!(references[0].order_hint, 0);
    assert_eq!(current_dpb_slot, 1);

    // P frame 1: writes to slot 1.
    remember(
        &mut references,
        ReferenceInfo { dpb_slot: current_dpb_slot, order_hint: 1 },
        max_refs,
    );
    current_dpb_slot = find_free_slot(&references, dpb_slot_count);

    assert_eq!(references.len(), 2);
    assert_eq!(references[0].order_hint, 1);
    assert_eq!(current_dpb_slot, 2);

    // P frame 2: writes to slot 2, evicts oldest ref (slot 0).
    remember(
        &mut references,
        ReferenceInfo { dpb_slot: current_dpb_slot, order_hint: 2 },
        max_refs,
    );
    current_dpb_slot = find_free_slot(&references, dpb_slot_count);

    assert_eq!(references.len(), 2);
    assert_eq!(references[0].order_hint, 2);
    assert_eq!(current_dpb_slot, 0); // slot 0 recycled

    // Second IDR: everything resets.
    references.clear();
    assert!(references.is_empty());
}

#[test]
fn test_single_reference_slot() {
    // Edge case: only 1 active reference with 2 DPB slots (minimum viable).
    let max_refs = 1usize;
    let dpb_slot_count = 2u8;
    let mut references: Vec<ReferenceInfo> = Vec::new();

    // Frame 0: slot 0.
    remember(&mut references, ReferenceInfo { dpb_slot: 0, order_hint: 0 }, max_refs);
    let mut current_dpb_slot = find_free_slot(&references, dpb_slot_count);
    assert_eq!(current_dpb_slot, 1);

    // Frame 1: slot 1. Old ref (slot 0) evicted since max_refs=1.
    remember(&mut references, ReferenceInfo { dpb_slot: 1, order_hint: 1 }, max_refs);
    assert_eq!(references.len(), 1);
    assert_eq!(references[0].dpb_slot, 1);
    current_dpb_slot = find_free_slot(&references, dpb_slot_count);
    assert_eq!(current_dpb_slot, 0); // ping-pong between 0 and 1

    // Frame 2: slot 0 again.
    remember(&mut references, ReferenceInfo { dpb_slot: 0, order_hint: 2 }, max_refs);
    current_dpb_slot = find_free_slot(&references, dpb_slot_count);
    assert_eq!(current_dpb_slot, 1); // ping-pong back
}

#[test]
fn no_free_slot_keeps_the_current_one() {
    assert_eq!(next_free_slot(&vec![0, 1, 2], 3, 2), 2);
    assert_eq!(next_free_slot(&vec![], 0, 5), 5);
    assert_eq!(next_free_slot(&vec![0, 2], 3, 2), 1);
}

fn report() -> DeviceReport {
    DeviceReport {
        capabilities: Ok(VideoCapabilities {
            picture_access_granularity: Dimensions { width: 64, height: 64 },
            min_coded_extent: Dimensions { width: 16, height: 16 },
            max_coded_extent: Dimensions { width: 4096, height: 4096 },
            max_dpb_slots: 16,
            max_active_reference_pictures: 7,
            separate_reference_images: false,
        }),
        src_formats: Ok(vec![1000156003, 1000156013]),
        dpb_formats: Ok(vec![1000156013, 1000156003]),
        encode_queue_family: Some(3),
    }
}

fn encoder(config: EncodeConfig) -> AV1Encoder {
    AV1Encoder::new(config, report()).unwrap()
}

fn start(encoder: &mut AV1Encoder) -> StartedFrame {
    let frame = encoder.start_frame();
    if encoder.start_picture(&frame) {
        encoder.set_header(vec![0x0a, 0x0b]);
    }
    frame
}

fn encode(encoder: &mut AV1Encoder) -> Option<EncodedPacket> {
    let frame = start(encoder);
    encoder.finish_frame(&frame);
    encoder.drain_current_slot(Ok(vec![0xaa])).unwrap()
}

#[test]
fn only_key_frames_are_references() {
    let mut encoder = encoder(EncodeConfig::av1(64, 64).with_gop_size(3));
    let mut setups = Vec::new();
    let mut references = Vec::new();
    for _ in 0..6 {
        let frame = start(&mut encoder);
        let plan = encoder.encode(&frame);
        setups.push(plan.setup.dpb_slot);
        references.push(plan.reference.map(|r| r.dpb_slot));
        encoder.finish_frame(&frame);
    }
    // The first key frame is in slot 0; the frames after it reuse slot 1 and refer to
    // slot 0. The next key frame is in slot 1, and slots change places.
    assert_eq!(setups, vec![0, 1, 1, 1, 0, 0]);
    assert_eq!(references, vec![None, Some(0), Some(0), None, Some(1), Some(1)]);
}

#[test]
fn key_frame_plan() {
    let mut encoder = encoder(
        EncodeConfig::av1(1000, 600)
            .with_rate_control(RateControlMode::Cqp)
            .with_quality_level(300),
    );
    let frame = start(&mut encoder);
    let plan = encoder.encode(&frame);
    assert_eq!(plan.frame_extent, Dimensions { width: 1000, height: 600 });
    assert_eq!(
        plan.setup,
        Av1Slot { dpb_slot: 0, frame_type: Av1FrameType::Key, order_hint: 0 }
    );
    assert_eq!(plan.reference, None);
    assert_eq!(plan.begin_slots, vec![-1]);
    assert_eq!(plan.barriers.len(), 1);
    assert_eq!(plan.prediction, Av1Prediction::IntraOnly);
    assert_eq!(plan.reference_name_slot_indices, [-1; 7]);
    assert_eq!(plan.constant_q_index, Some(300));
    assert_eq!(plan.picture.base_q_idx, 44);
    assert_eq!(plan.picture.render_width_minus_1, 999);
    assert_eq!(plan.picture.render_height_minus_1, 599);
    assert_eq!(plan.picture.mapping.refresh_frame_flags, 0xff);
    assert_eq!(plan.picture.mapping.primary_ref_frame, 7);
    assert_eq!(plan.picture.loop_filter_ref_deltas, [1, 0, 0, 0, -1, 0, -1, -1]);
    assert!(plan.picture.show_frame);
    assert!(plan.picture.error_resilient_mode);
    assert!(!plan.picture.showable_frame);
    assert!(plan.first_frame);
}

#[test]
fn inter_frame_plan() {
    let mut encoder = encoder(EncodeConfig::av1(64, 64).with_rate_control(RateControlMode::Vbr));
    encode(&mut encoder);
    let frame = start(&mut encoder);
    let plan = encoder.encode(&frame);
    assert_eq!(
        plan.setup,
        Av1Slot { dpb_slot: 1, frame_type: Av1FrameType::Inter, order_hint: 1 }
    );
    assert_eq!(
        plan.reference,
        Some(Av1Slot { dpb_slot: 0, frame_type: Av1FrameType::Key, order_hint: 0 })
    );
    assert_eq!(plan.begin_slots, vec![-1, 0]);
    assert_eq!(plan.barriers.len(), 2);
    assert_eq!(plan.prediction, Av1Prediction::SingleReference);
    assert_eq!(plan.reference_name_slot_indices, [0, -1, -1, -1, -1, -1, -1]);
    assert_eq!(plan.constant_q_index, None);
    assert_eq!(plan.picture.base_q_idx, 128);
    assert_eq!(plan.picture.frame_presentation_time, 1);
    assert_eq!(plan.picture.mapping.refresh_frame_flags, 2);
    assert_eq!(plan.picture.mapping.primary_ref_frame, 0);
    assert!(!plan.first_frame);
}

#[test]
fn reference_mapping() {
    let references = vec![ReferenceInfo { dpb_slot: 1, order_hint: 300 }];
    let mapping = calculate_reference_frame_mapping(false, &references, 3);
    assert_eq!(mapping.ref_frame_idx, [1, 0, 0, 0, 0, 0, 0]);
    assert_eq!(mapping.ref_order_hint, [44, 0, 0, 0, 0, 0, 0, 0]);
    assert_eq!(mapping.primary_ref_frame, 0);
    assert_eq!(mapping.refresh_frame_flags, 8);
    let none = calculate_reference_frame_mapping(false, &vec![], 3);
    assert_eq!(none.primary_ref_frame, 7);
    assert_eq!(none.refresh_frame_flags, 0);
}

#[test]
fn packets_start_with_a_temporal_delimiter() {
    let mut encoder = encoder(EncodeConfig::av1(64, 64));
    assert!(encode(&mut encoder).is_none());
    let key = encode(&mut encoder).unwrap();
    assert_eq!(key.data, vec![0x12, 0x00, 0x0a, 0x0b, 0xaa]);
    assert_eq!(key.frame_type, FrameType::I);
    assert!(key.is_key_frame);
    let inter = encode(&mut encoder).unwrap();
    assert_eq!(inter.data, vec![0x12, 0x00, 0xaa]);
    assert_eq!(inter.frame_type, FrameType::P);
    assert_eq!(inter.pts, 1);
    let rest = encoder.flush(vec![Ok(vec![2])]).unwrap();
    assert_eq!(rest.len(), 1);
    assert_eq!(rest[0].data, vec![0x12, 0x00, 2]);
    assert_eq!(rest[0].pts, 2);
}

#[test]
fn new_colors_need_a_new_header() {
    let mut encoder = encoder(EncodeConfig::av1(64, 64));
    encode(&mut encoder);
    encode(&mut encoder);
    encoder.set_color_description(ColorDescription::bt2020_pq(), Ok(())).unwrap();
    let frame = encoder.start_frame();
    assert!(frame.position.frame_type.is_idr());
    assert!(encoder.start_picture(&frame));
    let failed = encoder.set_color_description(
        ColorDescription::bt709(),
        Err(PixelForgeError::Synchronization("lost".to_string())),
    );
    assert!(matches!(failed, Err(PixelForgeError::Synchronization(m)) if m == "lost"));
}

#[test]
fn sequence_headers() {
    let config = EncodeConfig::av1(1920, 1080);
    let header = build_sequence_header(&config, &ColorDescription::bt709());
    assert_eq!(header.seq_profile, Av1Profile::Main);
    assert_eq!(header.frame_width_bits_minus_1, 10);
    assert_eq!(header.frame_height_bits_minus_1, 10);
    assert_eq!(header.max_frame_width_minus_1, 1919);
    assert_eq!(header.max_frame_height_minus_1, 1079);
    assert_eq!(header.order_hint_bits_minus_1, 7);
    assert_eq!(header.color.bit_depth, 8);
    assert_eq!(header.color.subsampling_x, 1);
    assert!(header.color.color_range);
    assert_eq!(header.color.color_primaries, Av1ColorPrimaries::Bt709);

    let config = EncodeConfig::av1(2, 257)
        .with_pixel_format(PixelFormat::Yuv444)
        .with_bit_depth(EncodeBitDepth::Ten);
    let header = build_sequence_header(&config, &ColorDescription::bt2020_pq());
    assert_eq!(header.seq_profile, Av1Profile::High);
    assert_eq!(header.frame_width_bits_minus_1, 0);
    assert_eq!(header.frame_height_bits_minus_1, 8);
    assert_eq!(header.color.bit_depth, 10);
    assert_eq!(header.color.subsampling_y, 0);
    assert_eq!(header.color.color_primaries, Av1ColorPrimaries::Bt2020);
    assert_eq!(header.color.transfer_characteristics, Av1TransferCharacteristics::Smpte2084);
    assert_eq!(header.color.matrix_coefficients, Av1MatrixCoefficients::Bt2020Ncl);
    assert!(!header.color.color_range);

    let encoder = encoder(EncodeConfig::av1(64, 64));
    let header = encoder.create_session_params(&ColorDescription::bt709());
    assert_eq!(header.max_frame_width_minus_1, 63);
}

#[test]
fn session_profiles() {
    let config = EncodeConfig::av1(64, 64);
    assert_eq!(session_profile(&config), Av1Profile::Main);
    assert_eq!(session_profile(&config.with_bit_depth(EncodeBitDepth::Ten)), Av1Profile::High);
    assert_eq!(
        session_profile(&config.with_pixel_format(PixelFormat::Yuv444)),
        Av1Profile::High
    );
}

#[test]
fn bitstream_buffers_hold_a_byte_for_each_pixel() {
    assert_eq!(bitstream_buffer_size(Dimensions { width: 128, height: 128 }), 2097152);
    assert_eq!(bitstream_buffer_size(Dimensions { width: 4096, height: 2048 }), 8388608);
}

#[test]
fn sequence_header_queries() {
    let encoder = encoder(EncodeConfig::av1(64, 64));
    let mut query = HeaderQuery::new();
    let outcome = encoder.header_answer(&mut query, 0, vec![0; 4096], 0);
    assert!(matches!(
        outcome,
        HeaderOutcome::Done(Err(PixelForgeError::SessionParametersCreation(m)))
            if m == "AV1 sequence header size is 0"
    ));
    let mut query = HeaderQuery::new();
    let outcome = encoder.header_answer(&mut query, -4, vec![0; 4096], 0);
    assert!(matches!(
        outcome,
        HeaderOutcome::Done(Err(PixelForgeError::SessionParametersCreation(m)))
            if m == "Failed to get AV1 sequence header: ERROR_DEVICE_LOST"
    ));
}

#[test]
fn av1_session() {
    let encoder = encoder(EncodeConfig::av1(1920, 1080).with_max_reference_frames(20));
    let session = encoder.state().session();
    assert_eq!(session.coded_extent, Dimensions { width: 1920, height: 1152 });
    assert_eq!(session.dpb_slot_count, 8);
    assert_eq!(session.active_reference_count, 7);
    assert!(!session.use_layered_dpb);
    assert_eq!(session.picture_format, 1000156003);
    assert_eq!(session.reference_picture_format, 1000156003);
}
