//! Encode pipelining, header retrieval and GOP structure.

use pixelforge::encoder::gop::{GopFrameType, GopStructure};
use pixelforge::encoder::header::{HeaderOutcome, HeaderQuery};
use pixelforge::encoder::pipeline::{
    EncodePipeline, SlotPacketMetadata, TimelineValues, ENCODE_PIPELINE_DEPTH, NO_METADATA,
};
use pixelforge::vk::ImageLayout;
use pixelforge::{FrameType, PixelForgeError};

fn metadata(number: u64) -> SlotPacketMetadata {
    SlotPacketMetadata {
        frame_type: FrameType::P,
        is_key_frame: false,
        pts: number,
        dts: number,
        header: if number == 0 { Some(vec![0xf0]) } else { None },
    }
}

fn submit(pipeline: &mut EncodePipeline, number: u64) {
    pipeline.submit_current();
    pipeline.set_pending_metadata(metadata(number));
    pipeline.advance();
}

#[test]
fn packets_come_out_in_submission_order() {
    let mut pipeline = EncodePipeline::new();
    let prefix: Vec<u8> = vec![];
    let mut numbers = Vec::new();
    for number in 0..5 {
        let slot = pipeline.current();
        assert_eq!(slot, number as usize % ENCODE_PIPELINE_DEPTH);
        let packet = pipeline
            .drain_slot(slot, Ok(vec![number as u8]), &prefix, NO_METADATA)
            .unwrap();
        assert_eq!(packet.is_some(), number >= 2);
        if let Some(packet) = packet {
            numbers.push(packet.pts);
        }
        submit(&mut pipeline, number);
    }
    assert_eq!(numbers, vec![0, 1, 2]);
    assert_eq!(pipeline.flush_order(), vec![1, 0]);
    let packets = pipeline
        .flush(vec![Ok(vec![7]), Ok(vec![8])], &prefix, NO_METADATA, true)
        .unwrap();
    assert_eq!(packets.len(), 2);
    assert_eq!((packets[0].pts, packets[0].data.clone()), (3, vec![7]));
    assert_eq!((packets[1].pts, packets[1].data.clone()), (4, vec![8]));
    assert!(pipeline.flush_order().is_empty());
    assert!(pipeline.flush(vec![], &prefix, NO_METADATA, true).unwrap().is_empty());
}

#[test]
fn packets_hold_prefix_header_and_bitstream() {
    let mut pipeline = EncodePipeline::new();
    submit(&mut pipeline, 0);
    let packet = pipeline
        .drain_slot(0, Ok(vec![1, 2]), &vec![0x12], NO_METADATA)
        .unwrap()
        .unwrap();
    assert_eq!(packet.data, vec![0x12, 0xf0, 1, 2]);
    assert_eq!(packet.frame_type, FrameType::P);
    assert_eq!(packet.dts, 0);
    assert!(pipeline.drain_slot(0, Ok(vec![3]), &vec![], NO_METADATA).unwrap().is_none());
}

#[test]
fn failed_reads_leave_the_slot_in_flight() {
    let mut pipeline = EncodePipeline::new();
    submit(&mut pipeline, 0);
    let failed = pipeline.drain_slot(
        0,
        Err(PixelForgeError::QueryPool("not ready".to_string())),
        &vec![],
        NO_METADATA,
    );
    assert!(matches!(failed, Err(PixelForgeError::QueryPool(m)) if m == "not ready"));
    assert!(pipeline.in_flight(0));
    assert!(!pipeline.in_flight(1));
}

#[test]
fn slots_without_metadata_are_reported() {
    let mut pipeline = EncodePipeline::new();
    pipeline.submit_current();
    let failed = pipeline.drain_slot(0, Ok(vec![1]), &vec![], "no info");
    assert!(matches!(failed, Err(PixelForgeError::CommandBuffer(m)) if m == "no info"));
    assert!(!pipeline.in_flight(0));
}

#[test]
fn flushing_stops_at_the_first_failure() {
    for moves in [false, true] {
        let mut pipeline = EncodePipeline::new();
        submit(&mut pipeline, 0);
        submit(&mut pipeline, 1);
        let failed = pipeline.flush(
            vec![Ok(vec![1]), Err(PixelForgeError::QueryPool("lost".to_string()))],
            &vec![],
            NO_METADATA,
            moves,
        );
        assert!(matches!(failed, Err(PixelForgeError::QueryPool(m)) if m == "lost"));
        assert!(!pipeline.in_flight(0));
        assert!(pipeline.in_flight(1));
        assert_eq!(pipeline.current(), if moves { 1 } else { 0 });
    }
}

#[test]
fn submits_wait_on_the_one_before() {
    let mut pipeline = EncodePipeline::new();
    assert_eq!(pipeline.depth(), 2);
    assert!(pipeline.can_submit());
    assert_eq!(pipeline.timeline_values(), TimelineValues { wait: None, signal: 1 });
    submit(&mut pipeline, 0);
    assert_eq!(pipeline.timeline_values(), TimelineValues { wait: Some(1), signal: 2 });
    submit(&mut pipeline, 1);
    assert_eq!(pipeline.timeline_values(), TimelineValues { wait: Some(2), signal: 3 });
    assert_eq!(pipeline.others_in_flight(), vec![1]);
}

#[test]
fn input_image_layout_is_tracked() {
    let mut pipeline = EncodePipeline::new();
    assert_eq!(pipeline.input_image_layout(), ImageLayout::VideoEncodeSrc);
    pipeline.set_input_image_layout(ImageLayout::General);
    assert_eq!(pipeline.input_image_layout(), ImageLayout::General);
    pipeline.advance();
    assert_eq!(pipeline.input_image_layout(), ImageLayout::VideoEncodeSrc);
}

#[test]
fn header_is_cut_to_its_size() {
    let mut query = HeaderQuery::new();
    assert_eq!(query.buffer_size(), 4096);
    let mut buffer = vec![0; 4096];
    buffer[0] = 9;
    let outcome = query.answer(0, buffer, 3, "empty", "failed: ");
    assert!(matches!(outcome, HeaderOutcome::Done(Ok(header)) if header == vec![9, 0, 0]));
}

#[test]
fn header_query_grows_its_buffer_and_gives_up() {
    let mut query = HeaderQuery::new();
    assert!(matches!(query.answer(5, vec![0; 4096], 10, "empty", "failed: "), HeaderOutcome::Retry));
    assert_eq!(query.buffer_size(), 8192);
    assert!(matches!(
        query.answer(5, vec![0; 8192], 100_000, "empty", "failed: "),
        HeaderOutcome::Retry
    ));
    assert_eq!(query.buffer_size(), 100_000);
    let outcome = query.answer(5, vec![0; 100_000], 200_000, "empty", "failed: ");
    assert!(matches!(
        outcome,
        HeaderOutcome::Done(Err(PixelForgeError::SessionParametersCreation(m)))
            if m == "failed: INCOMPLETE"
    ));
}

#[test]
fn empty_headers_are_refused() {
    let mut query = HeaderQuery::new();
    let outcome = query.answer(0, vec![0; 4096], 0, "empty", "failed: ");
    assert!(matches!(
        outcome,
        HeaderOutcome::Done(Err(PixelForgeError::SessionParametersCreation(m))) if m == "empty"
    ));
}

#[test]
fn gops_start_with_idr_frames() {
    let mut gop = GopStructure::new_ip_only(3);
    let mut frames = Vec::new();
    for _ in 0..7 {
        let position = gop.get_next_frame();
        assert!(position.is_reference);
        frames.push((position.frame_type.is_idr(), position.pic_order_cnt));
    }
    assert_eq!(
        frames,
        vec![(true, 0), (false, 2), (false, 4), (true, 0), (false, 2), (false, 4), (true, 0)]
    );
}

#[test]
fn requested_idr_starts_a_gop() {
    let mut gop = GopStructure::new_ip_only(3);
    gop.get_next_frame();
    gop.get_next_frame();
    gop.request_idr();
    let types: Vec<GopFrameType> = (0..4).map(|_| gop.get_next_frame().frame_type).collect();
    assert_eq!(
        types,
        vec![GopFrameType::Idr, GopFrameType::P, GopFrameType::P, GopFrameType::Idr]
    );
}

#[test]
fn picture_order_counts_start_over() {
    let mut gop = GopStructure::new_ip_only(1000);
    gop.set_max_poc_lsb(4);
    let pocs: Vec<i32> = (0..258).map(|_| gop.get_next_frame().pic_order_cnt).collect();
    assert_eq!(pocs[255], 510);
    assert_eq!(pocs[256], 0);
    assert_eq!(pocs[257], 2);
    let mut gop = GopStructure::new_ip_only(1000);
    gop.set_max_poc_lsb(0);
    let pocs: Vec<i32> = (0..17).map(|_| gop.get_next_frame().pic_order_cnt).collect();
    assert_eq!(pocs[15], 30);
    assert_eq!(pocs[16], 0);
}

#[test]
fn a_gop_has_at_least_one_frame() {
    let mut gop = GopStructure::new_ip_only(0);
    assert!(gop.get_next_frame().frame_type.is_idr());
    assert!(gop.get_next_frame().frame_type.is_idr());
}
