//! Decoded picture buffer.

use pixelforge::encoder::dpb::{
    DpbConfig, DpbEntry, DpbH265, DpbState, H264ReferenceListBuilder, H265ReferenceListBuilder,
    MarkingState, PictureStartInfo, PictureType, ReferenceList, ReferencePicture,
    ShortTermRefPicSet, MAX_DPB_SIZE,
};

#[test]
fn test_h265_dpb_sequence_start() {
    let mut dpb = DpbH265::new();
    dpb.sequence_start(DpbConfig {
        dpb_size: 4,
        ..Default::default()
    });

    assert_eq!(dpb.dpb_size(), 4);
    assert!(dpb.is_empty());
}

#[test]
fn test_h265_dpb_picture_flow() {
    let mut dpb = DpbH265::new();
    dpb.sequence_start(DpbConfig {
        dpb_size: 4,
        ..Default::default()
    });

    // Add IDR.
    let slot = dpb.picture_start(PictureStartInfo {
        frame_id: 0,
        pic_order_cnt: 0,
        pic_type: PictureType::Idr,
        is_reference: true,
        ..Default::default()
    });
    assert_eq!(slot, 0);
    dpb.picture_end(true);

    assert!(!dpb.is_empty());
    assert_eq!(dpb.num_short_term_refs(), 1);

    // Add P frame.
    let slot = dpb.picture_start(PictureStartInfo {
        frame_id: 1,
        pic_order_cnt: 2,
        pic_type: PictureType::P,
        is_reference: true,
        ..Default::default()
    });
    assert_eq!(slot, 1);
    dpb.picture_end(true);

    assert_eq!(dpb.num_short_term_refs(), 2);
}

#[test]
fn test_h265_short_term_rps() {
    let mut dpb = DpbH265::new();
    dpb.sequence_start(DpbConfig {
        dpb_size: 4,
        use_multiple_references: true,
        ..Default::default()
    });

    // Add IDR at POC 0.
    dpb.picture_start(PictureStartInfo {
        frame_id: 0,
        pic_order_cnt: 0,
        pic_type: PictureType::Idr,
        is_reference: true,
        ..Default::default()
    });
    dpb.picture_end(true);

    // Initialize RPS for P-frame at POC 2.
    let rps = dpb.initialize_short_term_rps(2, PictureType::P, 0, 1, 0);
    assert_eq!(rps.num_negative_pics, 1);
    assert_eq!(rps.num_positive_pics, 0);
}

#[test]
fn test_reference_list_add() {
    let mut list = ReferenceList::new();
    assert_eq!(list.count, 0);

    list.add(ReferencePicture {
        dpb_index: 0,
        poc: 0,
        ..Default::default()
    });
    assert_eq!(list.count, 1);

    list.add(ReferencePicture {
        dpb_index: 1,
        poc: 2,
        ..Default::default()
    });
    assert_eq!(list.count, 2);
}

#[test]
fn test_reference_list_dpb_indices() {
    let mut list = ReferenceList::new();
    list.add(ReferencePicture {
        dpb_index: 2,
        ..Default::default()
    });
    list.add(ReferencePicture {
        dpb_index: 5,
        ..Default::default()
    });

    let indices = list.dpb_indices();
    assert_eq!(indices, vec![2, 5]);
}

fn dpb(size: u32, multiple: bool) -> DpbH265 {
    let mut dpb = DpbH265::new();
    dpb.sequence_start(DpbConfig {
        dpb_size: size,
        use_multiple_references: multiple,
        ..Default::default()
    });
    dpb
}

fn enter(dpb: &mut DpbH265, poc: i32, pic_type: PictureType) -> i8 {
    let slot = dpb.picture_start(PictureStartInfo {
        frame_id: poc as u64,
        pic_order_cnt: poc,
        pic_type,
        is_reference: true,
        ..Default::default()
    });
    dpb.picture_end(true);
    slot
}

#[test]
fn sliding_window_leaves_a_slot() {
    let mut dpb = dpb(3, true);
    enter(&mut dpb, 0, PictureType::Idr);
    let slots: Vec<i8> = (1..6).map(|i| enter(&mut dpb, 2 * i, PictureType::P)).collect();
    assert_eq!(slots, vec![1, 2, 0, 1, 2]);
    assert_eq!(dpb.num_short_term_refs(), 2);
    assert_eq!(dpb.num_long_term_refs(), 0);
    let pocs: Vec<i32> = (0..3)
        .filter_map(|i| dpb.get_entry(i))
        .filter(|e| e.is_short_term_reference())
        .map(|e| e.pic_order_cnt)
        .collect();
    assert_eq!(pocs, vec![8, 10]);
}

#[test]
fn idr_pictures_drop_references() {
    let mut dpb = dpb(4, true);
    enter(&mut dpb, 0, PictureType::Idr);
    enter(&mut dpb, 2, PictureType::P);
    assert_eq!(enter(&mut dpb, 0, PictureType::Idr), 0);
    assert_eq!(dpb.num_short_term_refs(), 1);
    assert_eq!(dpb.current_slot(), 0);
}

#[test]
fn flushed_dpb_is_empty() {
    let mut dpb = dpb(2, false);
    enter(&mut dpb, 0, PictureType::Idr);
    assert!(!dpb.is_empty());
    assert!(!dpb.is_full());
    dpb.flush();
    assert!(dpb.is_empty());
    assert_eq!(dpb.num_short_term_refs(), 0);
    assert!(dpb.get_entry(0).is_none());
    assert!(dpb.get_entry(100).is_none());
    assert!(dpb.get_entry_mut(100).is_none());
}

#[test]
fn intra_pictures_refresh_references() {
    let mut dpb = dpb(4, false);
    enter(&mut dpb, 0, PictureType::Idr);
    dpb.reference_picture_marking(2, PictureType::I, false);
    enter(&mut dpb, 2, PictureType::I);
    assert_eq!(dpb.num_short_term_refs(), 2);
    dpb.reference_picture_marking(4, PictureType::P, false);
    assert_eq!(dpb.num_short_term_refs(), 1);
    dpb.reference_picture_marking(6, PictureType::Idr, false);
    assert_eq!(dpb.num_short_term_refs(), 0);
}

#[test]
fn reference_picture_set_gives_back_pocs() {
    let mut dpb = dpb(5, true);
    for (poc, pic_type) in [(0, PictureType::Idr), (8, PictureType::P), (4, PictureType::B)] {
        enter(&mut dpb, poc, pic_type);
    }
    let rps = dpb.initialize_short_term_rps(6, PictureType::B, 0, 2, 1);
    assert_eq!(rps.num_negative_pics, 2);
    assert_eq!(rps.num_positive_pics, 1);
    assert_eq!(&rps.delta_poc_s0_minus1[..2], &[1, 3]);
    assert_eq!(rps.delta_poc_s1_minus1[0], 1);
    assert_eq!(rps.used_by_curr_pic_s0_flag, 0b11);
    assert_eq!(rps.used_by_curr_pic_s1_flag, 0b1);
    let set = dpb.apply_reference_picture_set(6, PictureType::B, &rps, 0, &[], 0);
    assert_eq!(&set.st_curr_before[..2], &[2, 0]);
    assert_eq!(set.st_curr_after[0], 1);
    assert_eq!((set.num_st_curr_before, set.num_st_curr_after), (2, 1));
    let (list0, list1) = dpb.setup_reference_lists(PictureType::B, &set, 3, 3);
    assert_eq!(list0.dpb_indices(), vec![2, 0, 1]);
    assert_eq!(list1.dpb_indices(), vec![1, 2, 0]);
    assert_eq!(list0.refs[0].poc, 4);
    assert!(list0.contains_dpb_index(1));
    assert!(!list0.contains_dpb_index(5));
}

#[test]
fn pictures_outside_the_set_are_unmarked() {
    let mut dpb = dpb(5, true);
    enter(&mut dpb, 0, PictureType::Idr);
    enter(&mut dpb, 2, PictureType::P);
    let rps = ShortTermRefPicSet {
        num_negative_pics: 1,
        delta_poc_s0_minus1: [1; MAX_DPB_SIZE],
        used_by_curr_pic_s0_flag: 1,
        ..Default::default()
    };
    let set = dpb.apply_reference_picture_set(4, PictureType::P, &rps, 0, &[], 0);
    assert_eq!(set.st_curr_before[0], 1);
    assert_eq!(dpb.num_short_term_refs(), 1);
}

#[test]
fn a_slot_stays_free_over_a_long_run() {
    let mut dpb = dpb(4, true);
    for k in 0..40 {
        let idr = k % 13 == 0;
        let is_reference = k % 3 != 2;
        let slot = dpb.picture_start(PictureStartInfo {
            frame_id: k,
            pic_order_cnt: if idr { 0 } else { (k % 13) as i32 * 2 },
            pic_type: if idr { PictureType::Idr } else { PictureType::P },
            is_reference,
            pic_output_flag: k % 2 == 0,
            no_output_of_prior_pics_flag: k % 26 == 0,
            ..Default::default()
        });
        assert!(slot >= 0);
        dpb.picture_end(is_reference);
        assert!(dpb.num_short_term_refs() + dpb.num_long_term_refs() <= 3);
        let marking = dpb.entries()[slot as usize].marking;
        assert_eq!(marking == MarkingState::ShortTerm, is_reference);
        assert_eq!(marking == MarkingState::Unused, !is_reference);
    }
}

#[test]
fn surplus_references_are_not_missed() {
    let mut dpb = dpb(4, true);
    enter(&mut dpb, 0, PictureType::Idr);
    enter(&mut dpb, 200, PictureType::P);
    enter(&mut dpb, 100, PictureType::B);
    let rps = dpb.initialize_short_term_rps(150, PictureType::B, 0, 1, 8);
    assert_eq!((rps.num_negative_pics, rps.num_positive_pics), (2, 1));
    let set = dpb.apply_reference_picture_set(150, PictureType::B, &rps, 0, &[], 0);
    assert_eq!((set.num_st_curr_before, set.num_st_curr_after), (1, 1));
    assert_eq!(dpb.entries()[set.st_curr_before[0] as usize].pic_order_cnt, 100);
    assert_eq!(dpb.entries()[set.st_curr_after[0] as usize].pic_order_cnt, 200);
}

#[test]
fn a_new_sequence_forgets_the_last() {
    let mut dpb = dpb(5, true);
    enter(&mut dpb, 0, PictureType::Idr);
    enter(&mut dpb, 2, PictureType::P);
    dpb.sequence_start(DpbConfig {
        dpb_size: 127,
        log2_max_pic_order_cnt_lsb_minus4: 6,
        ..Default::default()
    });
    assert_eq!(dpb.dpb_size(), MAX_DPB_SIZE as i8);
    assert!(dpb.is_empty());
    assert_eq!(dpb.current_slot(), -1);
    assert_eq!((dpb.num_short_term_refs(), dpb.num_long_term_refs()), (0, 0));
    assert_eq!(dpb.long_term_flags(), 0);
    assert_eq!(dpb.max_poc_lsb(), 1024);
}

fn entries(pictures: &[(u32, i32, MarkingState)]) -> [DpbEntry; MAX_DPB_SIZE] {
    let mut entries = [DpbEntry::new(); MAX_DPB_SIZE];
    for (i, (frame_num, poc, marking)) in pictures.iter().enumerate() {
        entries[i].state = DpbState::InUse;
        entries[i].marking = *marking;
        entries[i].bottom_field_marking = *marking;
        entries[i].frame_num = *frame_num;
        entries[i].pic_order_cnt = *poc;
    }
    entries
}

#[test]
fn h264_lists_are_ordered() {
    let st = MarkingState::ShortTerm;
    let dpb = entries(&[(1, 2, st), (3, 6, st), (250, 0, st), (2, 4, st)]);
    let list = H264ReferenceListBuilder::init_ref_list_p_frame(&dpb, 4, 4, 256);
    assert_eq!(list.dpb_indices(), vec![1, 3, 0, 2]);
    let (list0, list1) = H264ReferenceListBuilder::init_ref_lists_b_frame(&dpb, 4, 3);
    assert_eq!(list0.dpb_indices(), vec![0, 2, 3, 1]);
    assert_eq!(list1.dpb_indices(), vec![3, 1, 0, 2]);
}

#[test]
fn h265_lists_repeat_their_pictures() {
    let st = MarkingState::ShortTerm;
    let dpb = entries(&[(0, 0, st), (0, 2, st)]);
    let (list0, list1) = H265ReferenceListBuilder::build_ref_lists(
        &dpb,
        2,
        PictureType::P,
        &[1, 0],
        &[],
        &[],
        3,
        0,
        true,
    );
    assert_eq!(list0.dpb_indices(), vec![1, 0]);
    assert_eq!(list0.num_ref_idx_active_minus1, 1);
    assert_eq!(list1.count, 0);
    // Without a limit to the references there are, they are listed again.
    let (list0, _) = H265ReferenceListBuilder::build_ref_lists(
        &dpb,
        2,
        PictureType::P,
        &[1, 0],
        &[],
        &[],
        3,
        0,
        false,
    );
    assert_eq!(list0.dpb_indices(), vec![1, 0, 1]);
    assert_eq!(list0.num_ref_idx_active_minus1, 2);
}

#[test]
fn cleared_lists_are_empty() {
    let mut list = ReferenceList::new();
    list.add(ReferencePicture { dpb_index: 3, ..Default::default() });
    list.clear();
    assert_eq!(list.count, 0);
    assert!(list.dpb_indices().is_empty());
}
