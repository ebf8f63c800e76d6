//! What holds of the transfers to an encoder's input image.

use super::resources::{clear_chroma_size, clear_luma_size, clearing, uploading};
use super::{BitDepth, PixelFormat};
use crate::image::{
    aligned4, lemma_aligned_offset, sample_bytes, staged_yuv420, staged_yuv420_10bit,
    staged_yuv444,
    staging_copies, staging_transfer, two_plane_format, ImageModel,
};
use crate::steps::{comes_from, goes_to, in_order, progress, synchronized, ImagePlane, Resource};
use crate::vk::{AccessMask, ImageLayout, PipelineStage};
use vstd::prelude::*;

verus! {

/// An image for encoding has two planes. The second holds both chroma samples, for four
/// pixels with 4:2:0 and for each pixel with 4:4:4. Samples take two bytes with 10 bits.
pub proof fn law_two_plane_formats(format: PixelFormat, depth: BitDepth)
    ensures
        two_plane_format(format, depth) is None <==> format == PixelFormat::Yuv422,
        format != PixelFormat::Yuv422 ==> {
            let image = two_plane_format(format, depth)->Some_0;
            &&& image.plane_count() == 2
            &&& image.halves_chroma() <==> format == PixelFormat::Yuv420
            &&& image.sample_bytes() == if depth == BitDepth::Ten {
                2nat
            } else {
                1nat
            }
        },
{
}

/// An upload copies all of both planes of the image: luma in full size, and chroma in full
/// size for 4:4:4 and in half the width and height for 4:2:0. The samples that are copied
/// are all samples of a frame; for 4:2:0 that takes even dimensions.
pub proof fn law_upload_copies_every_sample(
    width: u32,
    height: u32,
    format: PixelFormat,
    depth: BitDepth,
    layout: ImageLayout,
)
    requires
        format != PixelFormat::Yuv422,
    ensures
        ({
            let steps = uploading(width, height, format, layout);
            let planes = steps[2]->CopyImage_0;
            let image = two_plane_format(format, depth)->Some_0;
            &&& steps[2] is CopyImage
            &&& planes.len() == image.plane_count()
            &&& planes[0].plane == ImagePlane::Plane0
            &&& planes[1].plane == ImagePlane::Plane1
            &&& planes[0].width == width && planes[0].height == height
            &&& planes[1].width == image.plane_side(1, width)
            &&& planes[1].height == image.plane_side(1, height)
            &&& format == PixelFormat::Yuv444 ==> planes[1].width == width && planes[1].height
                == height
            &&& format == PixelFormat::Yuv420 ==> width - 1 <= 2 * planes[1].width <= width
                && height - 1 <= 2 * planes[1].height <= height
            &&& format == PixelFormat::Yuv444 || (width % 2 == 0 && height % 2 == 0)
                ==> planes[0].width * planes[0].height + 2 * (planes[1].width * planes[1].height)
                == format.size_of(width * height)
        }),
{
    if width % 2 == 0 && height % 2 == 0 {
        lemma_quarter(width, height);
    }
}

proof fn lemma_quarter(width: u32, height: u32)
    requires
        width % 2 == 0,
        height % 2 == 0,
    ensures
        width * height == 4 * ((width / 2) * (height / 2)),
        0 <= (width / 2) * (height / 2),
{
    let a = (width / 2) as int;
    let b = (height / 2) as int;
    assert(width * height == 4 * (a * b) && 0 <= a * b) by (nonlinear_arith)
        requires
            width == 2 * a,
            height == 2 * b,
            a >= 0,
            b >= 0,
    ;
}

/// Every use of the images in an upload follows a barrier that allows it and is followed by
/// one that waits for it. What the input image held is not waited for, as it is
/// overwritten, and the source image is handed back to commands of any kind.
pub proof fn law_upload_is_synchronized(
    width: u32,
    height: u32,
    format: PixelFormat,
    layout: ImageLayout,
)
    ensures
        ({
            let steps = uploading(width, height, format, layout);
            let read_write = AccessMask::MemoryReadWrite;
            let none = AccessMask::Empty;
            &&& steps.len() == 5
            &&& synchronized(steps, Resource::Source)
            &&& synchronized(steps, Resource::Target)
            &&& comes_from(steps, Resource::Source, 0, read_write, PipelineStage::TopOfPipe)
            &&& goes_to(steps, Resource::Source, 4, read_write, PipelineStage::BottomOfPipe)
            &&& comes_from(steps, Resource::Target, 1, none, PipelineStage::TopOfPipe)
            &&& goes_to(steps, Resource::Target, 3, none, PipelineStage::BottomOfPipe)
        }),
{
    let steps = uploading(width, height, format, layout);
    reveal_with_fuel(progress, 6);
    assert(in_order(steps, Resource::Source, 0));
    assert(in_order(steps, Resource::Source, 1));
    assert(in_order(steps, Resource::Source, 2));
    assert(in_order(steps, Resource::Source, 3));
    assert(in_order(steps, Resource::Source, 4));
    assert(in_order(steps, Resource::Target, 0));
    assert(in_order(steps, Resource::Target, 1));
    assert(in_order(steps, Resource::Target, 2));
    assert(in_order(steps, Resource::Target, 3));
    assert(in_order(steps, Resource::Target, 4));
}

/// Clearing writes zeros to all of both planes. The planes lie in the buffer one after the
/// other, with padding to a multiple of 4 bytes between them for 4:4:4, and take all of it.
pub proof fn law_clear_covers_every_plane(
    width: u32,
    height: u32,
    format: PixelFormat,
    depth: BitDepth,
)
    requires
        format != PixelFormat::Yuv422,
        clear_luma_size(format, depth, width * height) <= u32::MAX,
    ensures
        ({
            let steps = clearing(width, height, format, depth);
            let copies = steps[1]->CopyBuffer_0;
            let image = two_plane_format(format, depth)->Some_0;
            let luma = width * height * image.texel_bytes(0);
            let chroma = copies[1].width * copies[1].height * image.texel_bytes(1);
            &&& steps.len() == 3
            &&& steps[1] is CopyBuffer
            &&& copies.len() == 2
            &&& copies[0].plane == ImagePlane::Plane0
            &&& copies[1].plane == ImagePlane::Plane1
            &&& copies[0].width == width && copies[0].height == height
            &&& copies[1].width == image.plane_side(1, width)
            &&& copies[1].height == image.plane_side(1, height)
            &&& copies[0].buffer_offset == 0
            &&& luma <= copies[1].buffer_offset < luma + 4
            &&& format == PixelFormat::Yuv444 ==> copies[1].buffer_offset % 4 == 0
            &&& format == PixelFormat::Yuv420 ==> copies[1].buffer_offset == luma
            &&& copies[1].buffer_offset + chroma == clear_luma_size(format, depth, width * height)
                + clear_chroma_size(format, depth, width, height)
        }),
{
    assert(0 <= width * height) by (nonlinear_arith)
        requires
            0 <= width,
            0 <= height,
    ;
    let image = two_plane_format(format, depth)->Some_0;
    let copies = clearing(width, height, format, depth)[1]->CopyBuffer_0;
    if width * height <= u32::MAX {
        lemma_aligned_offset(width * height, depth);
    }
    lemma_times(width * height, image.texel_bytes(0));
    lemma_times(copies[1].width * copies[1].height, image.texel_bytes(1));
}

proof fn lemma_times(area: int, bytes: nat)
    requires
        bytes == 1 || bytes == 2 || bytes == 4,
    ensures
        area * bytes == if bytes == 1 {
            area
        } else if bytes == 2 {
            2 * area
        } else {
            4 * area
        },
{
}

/// A transfer from a buffer to an image is guarded by barriers on both sides. What the
/// image held is not waited for, as it is overwritten; after an upload the image can be
/// read by commands of any kind.
pub proof fn law_buffer_transfers_are_synchronized(
    width: u32,
    height: u32,
    format: PixelFormat,
    depth: BitDepth,
    m: ImageModel,
    old_layout: ImageLayout,
    final_layout: ImageLayout,
)
    ensures
        ({
            let steps = clearing(width, height, format, depth);
            &&& synchronized(steps, Resource::Target)
            &&& comes_from(steps, Resource::Target, 0, AccessMask::Empty, PipelineStage::TopOfPipe)
            &&& goes_to(steps, Resource::Target, 2, AccessMask::Empty, PipelineStage::BottomOfPipe)
        }),
        ({
            let steps = staging_transfer(m, old_layout, final_layout);
            &&& synchronized(steps, Resource::Target)
            &&& comes_from(steps, Resource::Target, 0, AccessMask::Empty, PipelineStage::TopOfPipe)
            &&& goes_to(
                steps,
                Resource::Target,
                2,
                AccessMask::MemoryRead,
                PipelineStage::BottomOfPipe,
            )
        }),
{
    let clear = clearing(width, height, format, depth);
    let staging = staging_transfer(m, old_layout, final_layout);
    reveal_with_fuel(progress, 4);
    assert(in_order(clear, Resource::Target, 0));
    assert(in_order(clear, Resource::Target, 1));
    assert(in_order(clear, Resource::Target, 2));
    assert(in_order(staging, Resource::Target, 0));
    assert(in_order(staging, Resource::Target, 1));
    assert(in_order(staging, Resource::Target, 2));
}

/// The copies from the staging buffer fill all of both planes, and the buffer ends where
/// the chroma plane does. Dimensions are even for 4:2:0.
pub proof fn law_staging_fills_every_plane(m: ImageModel)
    requires
        m.well_formed(),
        m.pixel_format == PixelFormat::Yuv420 ==> m.width % 2 == 0 && m.height % 2 == 0,
    ensures
        ({
            let copies = staging_copies(m);
            let image = two_plane_format(m.pixel_format, m.bit_depth)->Some_0;
            &&& copies.len() == 2
            &&& copies[0].plane == ImagePlane::Plane0
            &&& copies[1].plane == ImagePlane::Plane1
            &&& copies[0].width == m.width && copies[0].height == m.height
            &&& copies[1].width == image.plane_side(1, m.width)
            &&& copies[1].height == image.plane_side(1, m.height)
            &&& copies[0].buffer_offset == 0
            &&& m.width * m.height * image.texel_bytes(0) <= copies[1].buffer_offset
            &&& copies[1].buffer_offset + copies[1].width * copies[1].height * image.texel_bytes(1)
                == m.staging_size
        }),
{
    let copies = staging_copies(m);
    let image = two_plane_format(m.pixel_format, m.bit_depth)->Some_0;
    assert(0 <= m.width * m.height) by (nonlinear_arith)
        requires
            0 <= m.width,
            0 <= m.height,
    ;
    let luma = m.width * m.height;
    let chroma = copies[1].width * copies[1].height;
    lemma_times(luma, image.texel_bytes(0));
    lemma_times(chroma, image.texel_bytes(1));
    lemma_aligned_offset(luma, m.bit_depth);
    if m.pixel_format == PixelFormat::Yuv420 {
        lemma_quarter(m.width, m.height);
        assert(luma * 3 / 2 == luma + 2 * chroma);
        assert(m.staging_size == sample_bytes(m.bit_depth, luma + 2 * chroma));
    } else {
        assert(chroma == luma);
        assert(m.staging_size == aligned4(sample_bytes(m.bit_depth, luma)) + sample_bytes(
            m.bit_depth,
            luma * 2,
        ));
    }
}

/// The 16-bit little-endian number at a byte of data.
pub open spec fn number_at(data: Seq<u8>, byte: int) -> int {
    data[byte] + 256 * data[byte + 1]
}

/// The pixel at `x` and `y` is inside the image, and its number in row order.
proof fn lemma_inside(x: int, y: int, width: int, height: int)
    requires
        0 <= x < width,
        0 <= y < height,
    ensures
        0 <= y * width + x < width * height,
{
    assert(0 <= y * width && y * width + width <= height * width) by (nonlinear_arith)
        requires
            0 <= y,
            y + 1 <= height,
            0 <= width,
    ;
    assert(width * height == height * width) by (nonlinear_arith);
}

/// After 8-bit planar 4:2:0 data was uploaded, each texel of the image gets its own
/// samples: those of a pixel in luma, and both chroma samples of four pixels. For a 10-bit
/// image they are shifted left by 6 bits, with their high bits in the 6 lower bits.
pub proof fn law_yuv420_texels(m: ImageModel, old: Seq<u8>, data: Seq<u8>, x: int, y: int)
    requires
        m.well_formed(),
        m.pixel_format == PixelFormat::Yuv420,
        m.width % 2 == 0,
        m.height % 2 == 0,
        old.len() == m.staging_size,
        0 <= x < m.width,
        0 <= y < m.height,
    ensures
        ({
            let staged = staged_yuv420(m, old, data);
            let copies = staging_copies(m);
            let pixels = m.width * m.height;
            let luma = data[y * m.width + x];
            let u = data[pixels + y / 2 * (m.width as int / 2) + x / 2];
            let v = data[pixels + pixels / 4 + y / 2 * (m.width as int / 2) + x / 2];
            match m.bit_depth {
                BitDepth::Eight => {
                    &&& staged[copies[0].source_byte(1, 1, x, y, 0)] == luma
                    &&& staged[copies[1].source_byte(2, 1, x / 2, y / 2, 0)] == u
                    &&& staged[copies[1].source_byte(2, 1, x / 2, y / 2, 1)] == v
                },
                BitDepth::Ten => {
                    &&& number_at(staged, copies[0].source_byte(1, 2, x, y, 0)) == 64 * luma + luma
                        / 4
                    &&& number_at(staged, copies[1].source_byte(2, 2, x / 2, y / 2, 0)) == 64 * u
                        + u / 4
                    &&& number_at(staged, copies[1].source_byte(2, 2, x / 2, y / 2, 1)) == 64 * v
                        + v / 4
                },
            }
        }),
{
    let w = m.width as int;
    let h = m.height as int;
    lemma_quarter(m.width, m.height);
    lemma_inside(x, y, w, h);
    lemma_inside(x / 2, y / 2, w / 2, h / 2);
    let pixel = y * w + x;
    let quad = y / 2 * (w / 2) + x / 2;
    let luma = w * h;
    assert(0 <= quad < luma / 4);
    assert((2 * pixel) / 2 == pixel && (2 * pixel + 1) / 2 == pixel);
    let at = luma + 2 * quad;
    assert((2 * at) / 2 == at && (2 * at + 1) / 2 == at);
    assert((2 * at + 2) / 2 == at + 1 && (2 * at + 3) / 2 == at + 1);
}

/// After 8-bit planar 4:4:4 data was uploaded, each texel of the image gets the samples of
/// its pixel; for a 10-bit image they are shifted left by 8 bits.
pub proof fn law_yuv444_texels(m: ImageModel, old: Seq<u8>, data: Seq<u8>, x: int, y: int)
    requires
        m.well_formed(),
        m.pixel_format == PixelFormat::Yuv444,
        old.len() == m.staging_size,
        0 <= x < m.width,
        0 <= y < m.height,
    ensures
        ({
            let staged = staged_yuv444(m, old, data);
            let copies = staging_copies(m);
            let pixels = m.width * m.height;
            let luma = data[y * m.width + x];
            let u = data[pixels + y * m.width + x];
            let v = data[2 * pixels + y * m.width + x];
            match m.bit_depth {
                BitDepth::Eight => {
                    &&& staged[copies[0].source_byte(1, 1, x, y, 0)] == luma
                    &&& staged[copies[1].source_byte(2, 1, x, y, 0)] == u
                    &&& staged[copies[1].source_byte(2, 1, x, y, 1)] == v
                },
                BitDepth::Ten => {
                    &&& number_at(staged, copies[0].source_byte(1, 2, x, y, 0)) == 256 * luma
                    &&& number_at(staged, copies[1].source_byte(2, 2, x, y, 0)) == 256 * u
                    &&& number_at(staged, copies[1].source_byte(2, 2, x, y, 1)) == 256 * v
                },
            }
        }),
{
    let w = m.width as int;
    let h = m.height as int;
    lemma_inside(x, y, w, h);
    crate::image::law_chroma_is_copied_from_where_it_was_staged(m);
    let pixel = y * w + x;
    let start = crate::image::chroma_start_444(m);
    assert((2 * pixel) / 2 == pixel && (2 * pixel + 1) / 2 == pixel);
    let at = start + 2 * pixel;
    assert((2 * at) / 2 == at && (2 * at + 1) / 2 == at);
    assert((2 * at + 2) / 2 == at + 1 && (2 * at + 3) / 2 == at + 1);
}

/// After 10-bit planar 4:2:0 data was uploaded, each texel of the image gets its own
/// samples in the high bits of its words.
pub proof fn law_yuv420_10bit_texels(m: ImageModel, old: Seq<u8>, data: Seq<u8>, x: int, y: int)
    requires
        m.well_formed(),
        m.pixel_format == PixelFormat::Yuv420,
        m.bit_depth == BitDepth::Ten,
        m.width % 2 == 0,
        m.height % 2 == 0,
        old.len() == m.staging_size,
        0 <= x < m.width,
        0 <= y < m.height,
        forall|j: int| 0 <= 2 * j + 1 < data.len() ==> #[trigger] number_at(data, 2 * j) < 1024,
        data.len() == m.width * m.height * 3,
    ensures
        ({
            let pixels = m.width * m.height;
            let staged = staged_yuv420_10bit(m, old, data);
            let copies = staging_copies(m);
            let quad = y / 2 * (m.width as int / 2) + x / 2;
            &&& number_at(staged, copies[0].source_byte(1, 2, x, y, 0)) == 64 * number_at(
                data,
                2 * (y * m.width + x),
            )
            &&& number_at(staged, copies[1].source_byte(2, 2, x / 2, y / 2, 0)) == 64 * number_at(
                data,
                2 * (pixels + quad),
            )
            &&& number_at(staged, copies[1].source_byte(2, 2, x / 2, y / 2, 1)) == 64 * number_at(
                data,
                2 * (pixels + pixels / 4 + quad),
            )
        }),
{
    let w = m.width as int;
    let h = m.height as int;
    lemma_quarter(m.width, m.height);
    lemma_inside(x, y, w, h);
    lemma_inside(x / 2, y / 2, w / 2, h / 2);
    let pixel = y * w + x;
    let quad = y / 2 * (w / 2) + x / 2;
    let luma = w * h;
    assert(0 <= quad < luma / 4);
    assert((2 * pixel) / 2 == pixel && (2 * pixel + 1) / 2 == pixel);
    let at = luma + 2 * quad;
    assert((2 * at) / 2 == at && (2 * at + 1) / 2 == at);
    assert((2 * at + 2) / 2 == at + 1 && (2 * at + 3) / 2 == at + 1);
    assert(number_at(data, 2 * pixel) < 1024);
    assert(number_at(data, 2 * (luma + quad)) < 1024);
    assert(number_at(data, 2 * (luma + luma / 4 + quad)) < 1024);
}

} // verus!
