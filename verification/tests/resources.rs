//! Resources of encoders.

use pixelforge::encoder::resources::{
    align_up, can_clear_input_image, clear_input_image, create_dpb_images, create_image, dpb_place, find_memory_type,
    find_session_memory_type, gcd, get_video_format, image_sharing, lcm, make_codec_name,
    read_bitstream, record_dpb_barriers, record_post_encode_dpb_barrier, require_memory_type,
    require_session_memory_type, unique_families, upload_image_to_input, DpbPlace,
    EncodeImageUsage,
};
use pixelforge::steps::{ImagePlane, ImageRole, PlaneCopy, PlaneExtent, Step};
use pixelforge::text::{append_decimal, append_hexadecimal, too_small_message};
use pixelforge::vk::{AccessMask, ImageLayout, VkFormat};
use pixelforge::{EncodeBitDepth, PixelForgeError, PixelFormat};

#[test]
fn test_gcd() {
    assert_eq!(gcd(12, 8), 4);
    assert_eq!(gcd(8, 12), 4);
    assert_eq!(gcd(16, 16), 16);
    assert_eq!(gcd(7, 3), 1);
    assert_eq!(gcd(0, 5), 5);
    assert_eq!(gcd(5, 0), 5);
}

#[test]
fn test_lcm() {
    assert_eq!(lcm(32, 64), 64);
    assert_eq!(lcm(16, 12), 48);
    assert_eq!(lcm(4, 6), 12);
    assert_eq!(lcm(0, 5), 0);
    assert_eq!(lcm(5, 0), 0);
    assert_eq!(lcm(7, 7), 7);
}

#[test]
fn test_align_up() {
    assert_eq!(align_up(130, 64), 192);
    assert_eq!(align_up(128, 64), 128);
    assert_eq!(align_up(1, 64), 64);
    assert_eq!(align_up(0, 64), 0);
    assert_eq!(align_up(100, 1), 100);
    assert_eq!(align_up(100, 0), 100);
    // AMD-realistic case: align 320 to lcm(32, 64) = 64.
    assert_eq!(align_up(320, lcm(32, 64)), 320);
    // AMD-realistic case: align 130 to lcm(32, 16) = 32.
    assert_eq!(align_up(130, lcm(32, 16)), 160);
}

#[test]
fn video_formats() {
    let of = get_video_format;
    assert_eq!(of(PixelFormat::Yuv420, EncodeBitDepth::Eight), VkFormat::SemiPlanar420);
    assert_eq!(of(PixelFormat::Yuv420, EncodeBitDepth::Ten), VkFormat::SemiPlanar420Ten);
    assert_eq!(of(PixelFormat::Yuv444, EncodeBitDepth::Eight), VkFormat::SemiPlanar444);
    assert_eq!(of(PixelFormat::Yuv444, EncodeBitDepth::Ten), VkFormat::SemiPlanar444Ten);
}

#[test]
fn codec_names_end_with_zero() {
    let name = make_codec_name(b"VK_STD");
    assert_eq!(&name[..7], &[0x56, 0x4b, 0x5f, 0x53, 0x54, 0x44, 0]);
    let name = make_codec_name(&[0xff; 300]);
    assert_eq!(name[254], -1);
    assert_eq!(name[255], 0);
}

#[test]
fn memory_types() {
    let types = [0b001, 0b110, 0b111];
    assert_eq!(find_memory_type(&types, 0b111, 0b110), Some(1));
    assert_eq!(find_memory_type(&types, 0b101, 0b110), Some(2));
    assert_eq!(find_memory_type(&types, 0b001, 0b110), None);
    assert_eq!(find_session_memory_type(&types, 0b001, 0b110), Some(0));
    assert_eq!(find_session_memory_type(&types, 0b1000, 0b110), None);
    assert_eq!(require_memory_type(&types, 0b111, 0b001, "none").ok(), Some(0));
    assert!(matches!(
        require_memory_type(&types, 0b001, 0b110, "none"),
        Err(PixelForgeError::MemoryAllocation(m)) if m == "none"
    ));
    assert_eq!(require_session_memory_type(&types, 0b110, 0b001).ok(), Some(2));
    assert!(matches!(
        require_session_memory_type(&types, 0xab8, 0b001),
        Err(PixelForgeError::MemoryAllocation(m))
            if m == "No suitable memory type for video session (type_bits: 0xab8)"
    ));
}

#[test]
fn families_share_input_images() {
    assert_eq!(unique_families(Some(3), 1, 0), vec![3, 1, 0]);
    assert_eq!(unique_families(Some(1), 1, 0), vec![1, 0]);
    assert_eq!(unique_families(None, 2, 2), vec![2]);
    assert_eq!(image_sharing(false, Some(3), 1, 1), vec![3, 1]);
    assert!(image_sharing(false, Some(1), 1, 1).is_empty());
    assert!(image_sharing(false, None, 1, 0).is_empty());
    assert!(image_sharing(true, Some(3), 1, 0).is_empty());
    let dpb = create_image(true, Some(3), 1, 0);
    assert_eq!(dpb.usage, EncodeImageUsage::Dpb);
    assert!(dpb.sharing_families.is_empty());
    let input = create_image(false, Some(3), 1, 0);
    assert_eq!(input.usage, EncodeImageUsage::SrcAndTransferDst);
    assert_eq!(input.sharing_families, vec![3, 1, 0]);
    assert_eq!(input.array_layers, 1);
}

#[test]
fn dpb_images() {
    let layered = create_dpb_images(3, true);
    assert_eq!((layered.image_count, layered.array_layers), (1, 3));
    assert_eq!(layered.views[2], DpbPlace { image: 0, layer: 2 });
    let separate = create_dpb_images(3, false);
    assert_eq!((separate.image_count, separate.array_layers), (3, 1));
    assert_eq!(separate.views[2], DpbPlace { image: 2, layer: 0 });
    assert_eq!(dpb_place(false, 2), separate.views[2]);
}

#[test]
fn dpb_barriers() {
    let barriers = record_dpb_barriers(true, 1, &[0, 2], false);
    assert_eq!(barriers.len(), 3);
    assert_eq!(barriers[0].place, DpbPlace { image: 0, layer: 1 });
    assert_eq!(barriers[0].old_layout, ImageLayout::Undefined);
    assert_eq!(barriers[0].src_access, AccessMask::Empty);
    assert_eq!(barriers[2].place, DpbPlace { image: 0, layer: 2 });
    assert_eq!(barriers[2].old_layout, ImageLayout::VideoEncodeDpb);
    assert_eq!(barriers[2].src_access, AccessMask::MemoryWrite);
    assert_eq!(barriers[2].dst_access, AccessMask::MemoryRead);
    let active = record_dpb_barriers(false, 1, &[], true);
    assert_eq!(active[0].old_layout, ImageLayout::VideoEncodeDpb);
    assert_eq!(active[0].place, DpbPlace { image: 1, layer: 0 });
    assert_eq!(record_post_encode_dpb_barrier(true, 2), barriers[2]);
}

#[test]
fn bitstreams() {
    let buffer = [1, 2, 3, 4, 5];
    assert_eq!(read_bitstream(&buffer, 1, 3).unwrap(), vec![2, 3, 4]);
    assert!(matches!(
        read_bitstream(&buffer, 1, 0),
        Err(PixelForgeError::QueryPool(m)) if m == "Encoder produced 0 bytes"
    ));
}

fn clear_copies(format: PixelFormat, depth: EncodeBitDepth) -> (u64, Vec<PlaneCopy>) {
    let plan = clear_input_image(6, 3, format, depth);
    assert_eq!(plan.steps.len(), 3);
    match &plan.steps[1] {
        Step::CopyBuffer(copies) => (plan.total_size, copies.clone()),
        other => panic!("unexpected step: {:?}", other),
    }
}

#[test]
fn cleared_input_images() {
    let (size, copies) = clear_copies(PixelFormat::Yuv420, EncodeBitDepth::Eight);
    assert_eq!(size, 18 + 6);
    assert_eq!(
        copies[1],
        PlaneCopy { buffer_offset: 18, plane: ImagePlane::Plane1, width: 3, height: 1 }
    );
    let (size, copies) = clear_copies(PixelFormat::Yuv444, EncodeBitDepth::Eight);
    assert_eq!(size, 20 + 36);
    assert_eq!(
        copies[1],
        PlaneCopy { buffer_offset: 20, plane: ImagePlane::Plane1, width: 6, height: 3 }
    );
    let (size, copies) = clear_copies(PixelFormat::Yuv422, EncodeBitDepth::Ten);
    assert_eq!(size, 36 + 36);
    assert_eq!(copies[1].buffer_offset, 36);
}

#[test]
fn clearable_input_images() {
    let can = can_clear_input_image;
    assert!(can(3840, 2160, PixelFormat::Yuv444, EncodeBitDepth::Ten));
    // 65536 * 32768 samples take 2^31 bytes.
    assert!(can(65536, 32768, PixelFormat::Yuv420, EncodeBitDepth::Eight));
    assert!(!can(65536, 32768, PixelFormat::Yuv422, EncodeBitDepth::Eight));
    assert!(!can(65536, 32768, PixelFormat::Yuv420, EncodeBitDepth::Ten));
    assert!(!can(65536, 65536, PixelFormat::Yuv420, EncodeBitDepth::Eight));
}

#[test]
fn uploads_copy_both_planes() {
    let steps = upload_image_to_input(640, 480, PixelFormat::Yuv420, ImageLayout::VideoEncodeSrc);
    assert_eq!(steps.len(), 5);
    match (&steps[1], &steps[2], &steps[3]) {
        (Step::ImageBarrier(before), Step::CopyImage(planes), Step::ImageBarrier(after)) => {
            assert_eq!(before.image, ImageRole::Target);
            assert_eq!(before.old_layout, ImageLayout::VideoEncodeSrc);
            assert_eq!(after.new_layout, ImageLayout::VideoEncodeSrc);
            assert_eq!(
                *planes,
                vec![
                    PlaneExtent { plane: ImagePlane::Plane0, width: 640, height: 480 },
                    PlaneExtent { plane: ImagePlane::Plane1, width: 320, height: 240 },
                ]
            );
        }
        other => panic!("unexpected steps: {:?}", other),
    }
}

#[test]
fn numbers_in_messages() {
    let mut text = String::new();
    append_decimal(&mut text, 0);
    text.push(' ');
    append_decimal(&mut text, u64::MAX);
    text.push(' ');
    append_hexadecimal(&mut text, 0);
    text.push(' ');
    append_hexadecimal(&mut text, 0x1234567890abcdef);
    assert_eq!(text, "0 18446744073709551615 0 1234567890abcdef");
    assert_eq!(too_small_message("YUV", 12, 3), "YUV data too small: expected 12 bytes, got 3");
}
