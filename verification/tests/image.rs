//! Layout of pixel data.

use pixelforge::steps::{ImageBarrier, ImagePlane, ImageRole, PlaneCopy, Step};
use pixelforge::vk::{AccessMask, ImageLayout, PipelineStage, VkFormat};
use pixelforge::{align4, Codec, EncodeBitDepth, InputImage, PixelForgeError, PixelFormat};

fn image(width: u32, height: u32, depth: EncodeBitDepth, format: PixelFormat) -> InputImage {
    InputImage::new(Codec::H264, width, height, depth, format).unwrap()
}

fn staging(image: &InputImage) -> Vec<u8> {
    vec![0xcc; image.staging_size()]
}

fn invalid(result: Result<(), PixelForgeError>) -> String {
    match result {
        Err(PixelForgeError::InvalidInput(message)) => message,
        other => panic!("unexpected result: {:?}", other),
    }
}

#[test]
fn sizes_are_aligned_to_four() {
    assert_eq!(align4(0), 0);
    assert_eq!(align4(1), 4);
    assert_eq!(align4(4), 4);
    assert_eq!(align4(5), 8);
}

#[test]
fn staging_sizes_and_formats() {
    let eight = image(4, 2, EncodeBitDepth::Eight, PixelFormat::Yuv420);
    assert_eq!(eight.staging_size(), 12);
    assert_eq!(eight.format(), VkFormat::SemiPlanar420);
    assert_eq!(eight.dimensions(), (4, 2));
    let ten = image(4, 2, EncodeBitDepth::Ten, PixelFormat::Yuv420);
    assert_eq!(ten.staging_size(), 24);
    assert_eq!(ten.format(), VkFormat::SemiPlanar420Ten);
    let full = image(3, 3, EncodeBitDepth::Eight, PixelFormat::Yuv444);
    assert_eq!(full.staging_size(), 30);
    assert_eq!(full.format(), VkFormat::SemiPlanar444);
    let full_ten = image(3, 3, EncodeBitDepth::Ten, PixelFormat::Yuv444);
    assert_eq!(full_ten.staging_size(), 56);
    assert_eq!(full_ten.format(), VkFormat::SemiPlanar444Ten);
}

#[test]
fn half_chroma_images_are_not_supported() {
    let created =
        InputImage::new(Codec::H264, 4, 2, EncodeBitDepth::Ten, PixelFormat::Yuv422);
    assert!(matches!(
        created,
        Err(PixelForgeError::InvalidInput(m))
            if m == "Unsupported pixel format / bit depth combination: Yuv422 / Ten"
    ));
}

#[test]
fn planes_are_interleaved() {
    let image = image(4, 2, EncodeBitDepth::Eight, PixelFormat::Yuv420);
    let mut staging = staging(&image);
    let data = [1, 2, 3, 4, 5, 6, 7, 8, 21, 22, 31, 32];
    image.upload_yuv420(&mut staging, &data).unwrap();
    assert_eq!(staging, vec![1, 2, 3, 4, 5, 6, 7, 8, 21, 31, 22, 32]);
    let mut staging = vec![0; 12];
    image.upload_yuv420_to(&mut staging, &data).unwrap();
    assert_eq!(staging, vec![1, 2, 3, 4, 5, 6, 7, 8, 21, 31, 22, 32]);
}

#[test]
fn eight_bits_are_expanded() {
    let image = image(2, 2, EncodeBitDepth::Ten, PixelFormat::Yuv420);
    let mut staging = staging(&image);
    image.upload_yuv420(&mut staging, &[1, 2, 3, 4, 255, 6]).unwrap();
    let words = vec![0x40, 0, 0x80, 0, 0xc0, 0, 0x01, 0x01, 0xff, 0x3f, 0x81, 0x01];
    assert_eq!(staging, words);
    let mut staging = self::staging(&image);
    image.upload_yuv420_to(&mut staging, &[1, 2, 3, 4, 255, 6]).unwrap();
    assert_eq!(staging, words);
}

#[test]
fn ten_bits_move_up() {
    let image = image(2, 2, EncodeBitDepth::Ten, PixelFormat::Yuv420);
    let mut staging = staging(&image);
    // 1023, 1, 512, 0, then U = 3 and V = 2.
    let data = [0xff, 0x03, 1, 0, 0, 2, 0, 0, 3, 0, 2, 0];
    image.upload_yuv420_10bit(&mut staging, &data).unwrap();
    assert_eq!(staging, vec![0xc0, 0xff, 0x40, 0, 0, 0x80, 0, 0, 0xc0, 0, 0x80, 0]);
}

#[test]
fn full_chroma_is_padded() {
    let image = image(3, 1, EncodeBitDepth::Eight, PixelFormat::Yuv444);
    let mut staging = staging(&image);
    image.upload_yuv444_to(&mut staging, &[1, 2, 3, 11, 12, 13, 21, 22, 23]).unwrap();
    assert_eq!(staging, vec![1, 2, 3, 0xcc, 11, 21, 12, 22, 13, 23]);
    let image = self::image(1, 1, EncodeBitDepth::Ten, PixelFormat::Yuv444);
    let mut staging = self::staging(&image);
    image.upload_yuv444_to(&mut staging, &[1, 2, 3]).unwrap();
    assert_eq!(staging, vec![0, 1, 0xcc, 0xcc, 0, 2, 0, 3]);
}

#[test]
fn semi_planar_data_is_kept() {
    let image = image(2, 2, EncodeBitDepth::Eight, PixelFormat::Yuv420);
    let mut staging = staging(&image);
    image.upload_nv12(&mut staging, &[1, 2, 3, 4, 5, 6, 7]).unwrap();
    assert_eq!(staging, vec![1, 2, 3, 4, 5, 6]);
}

#[test]
fn short_data_is_refused() {
    let eight = image(4, 2, EncodeBitDepth::Eight, PixelFormat::Yuv420);
    let mut buffer = staging(&eight);
    assert_eq!(
        invalid(eight.upload_yuv420(&mut buffer, &[0; 11])),
        "YUV data too small: expected 12 bytes, got 11"
    );
    assert_eq!(
        invalid(eight.upload_nv12(&mut buffer, &[0; 3])),
        "NV12 data too small: expected 12 bytes, got 3"
    );
    assert_eq!(
        invalid(eight.upload_yuv420_to(&mut buffer, &[])),
        "YUV data too small: expected 12 bytes, got 0"
    );
    assert_eq!(buffer, vec![0xcc; 12]);
    let ten = image(4, 2, EncodeBitDepth::Ten, PixelFormat::Yuv420);
    let mut buffer = staging(&ten);
    assert_eq!(
        invalid(ten.upload_yuv420_10bit(&mut buffer, &[0; 23])),
        "YUV420 10-bit data too small: expected 24 bytes, got 23"
    );
    let full = image(4, 2, EncodeBitDepth::Eight, PixelFormat::Yuv444);
    let mut buffer = staging(&full);
    assert_eq!(
        invalid(full.upload_yuv444_to(&mut buffer, &[0; 23])),
        "YUV444 data too small: expected 24 bytes, got 23"
    );
}

#[test]
fn uploads_need_their_kind_of_image() {
    let eight = image(4, 2, EncodeBitDepth::Eight, PixelFormat::Yuv420);
    let mut buffer = staging(&eight);
    assert_eq!(
        invalid(eight.upload_yuv420_10bit(&mut buffer, &[0; 24])),
        "upload_yuv420_10bit can only be used with 10-bit InputImage"
    );
    assert_eq!(
        invalid(eight.upload_yuv444_to(&mut buffer, &[0; 24])),
        "upload_yuv444_to can only be used with YUV444 InputImage"
    );
    let full = image(4, 2, EncodeBitDepth::Eight, PixelFormat::Yuv444);
    let mut buffer = staging(&full);
    assert_eq!(
        invalid(full.upload_yuv420_to(&mut buffer, &[0; 24])),
        "upload_yuv420_to can only be used with YUV420 InputImage"
    );
}

fn barriers(steps: &[Step]) -> Vec<ImageBarrier> {
    steps
        .iter()
        .filter_map(|s| match s {
            Step::ImageBarrier(barrier) => Some(*barrier),
            _ => None,
        })
        .collect()
}

fn copies(steps: &[Step]) -> Vec<PlaneCopy> {
    steps
        .iter()
        .flat_map(|s| match s {
            Step::CopyBuffer(copies) => copies.clone(),
            _ => vec![],
        })
        .collect()
}

#[test]
fn staging_copies_start_where_planes_were_laid_out() {
    let image = image(3, 3, EncodeBitDepth::Eight, PixelFormat::Yuv444);
    assert_eq!(
        copies(&image.copy_staging_to_target()),
        vec![
            PlaneCopy { buffer_offset: 0, plane: ImagePlane::Plane0, width: 3, height: 3 },
            PlaneCopy { buffer_offset: 12, plane: ImagePlane::Plane1, width: 3, height: 3 },
        ]
    );
    let image = self::image(4, 2, EncodeBitDepth::Ten, PixelFormat::Yuv420);
    assert_eq!(
        copies(&image.copy_staging_to_image()),
        vec![
            PlaneCopy { buffer_offset: 0, plane: ImagePlane::Plane0, width: 4, height: 2 },
            PlaneCopy { buffer_offset: 16, plane: ImagePlane::Plane1, width: 2, height: 1 },
        ]
    );
}

#[test]
fn image_layout_is_followed() {
    let mut image = image(4, 2, EncodeBitDepth::Eight, PixelFormat::Yuv420);
    let first = barriers(&image.copy_staging_to_image());
    assert_eq!(first.len(), 2);
    assert_eq!(first[0].old_layout, ImageLayout::Undefined);
    assert_eq!(
        first[1],
        ImageBarrier {
            image: ImageRole::Target,
            old_layout: ImageLayout::TransferDstOptimal,
            new_layout: ImageLayout::General,
            src_access: AccessMask::TransferWrite,
            dst_access: AccessMask::MemoryRead,
            src_stage: PipelineStage::Transfer,
            dst_stage: PipelineStage::BottomOfPipe,
        }
    );
    image.staging_copied();
    let second = barriers(&image.copy_staging_to_image());
    assert_eq!(second[0].old_layout, ImageLayout::General);
    let target = barriers(&image.copy_staging_to_target());
    assert_eq!(target[0].old_layout, ImageLayout::Undefined);
    assert_eq!(target[1].new_layout, ImageLayout::VideoEncodeSrc);
}
