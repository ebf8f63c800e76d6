//! Image utilities for creating and uploading video frames.
//!
//! [`InputImage`] lays out YUV data from the CPU for upload to the GPU. Its
//! image is a transfer-only staging image and must be copied into an encoder's
//! input image before encoding; uploading directly into the encoder's input
//! image is possible too.

use crate::align4;
use crate::encoder::{BitDepth, Codec, PixelFormat};
use crate::error::PixelForgeError;
use crate::steps::{
    layouts_after, modelled, moves_layouts, ImageBarrier, ImagePlane, ImageRole, Layouts,
    PlaneCopy, Step, StepModel,
};
use crate::text::{too_small, too_small_message};
use crate::vk::{AccessMask, ImageLayout, PipelineStage, VkFormat};
use vstd::prelude::*;

verus! {

/// `n` rounded up to a multiple of 4.
pub open spec fn aligned4(n: int) -> int {
    (n + 3) / 4 * 4
}

/// Bytes that `n` samples take.
pub open spec fn sample_bytes(depth: BitDepth, n: int) -> int {
    match depth {
        BitDepth::Eight => n,
        BitDepth::Ten => 2 * n,
    }
}

/// The two-plane format of an image; 4:2:2 has none.
pub open spec fn two_plane_format(format: PixelFormat, depth: BitDepth) -> Option<VkFormat> {
    match (format, depth) {
        (PixelFormat::Yuv420, BitDepth::Eight) => Some(VkFormat::SemiPlanar420),
        (PixelFormat::Yuv420, BitDepth::Ten) => Some(VkFormat::SemiPlanar420Ten),
        (PixelFormat::Yuv444, BitDepth::Eight) => Some(VkFormat::SemiPlanar444),
        (PixelFormat::Yuv444, BitDepth::Ten) => Some(VkFormat::SemiPlanar444Ten),
        (PixelFormat::Yuv422, _) => None,
    }
}

/// Bytes of the staging buffer: for 4:4:4 the luma plane is padded to a
/// multiple of 4.
pub open spec fn staging_bytes(format: PixelFormat, depth: BitDepth, luma: int) -> int {
    match format {
        PixelFormat::Yuv444 => aligned4(sample_bytes(depth, luma)) + sample_bytes(
            depth,
            luma * 2,
        ),
        _ => sample_bytes(depth, format.size_of(luma)),
    }
}

/// The sample of planar data that stands at sample `s` of semi-planar data:
/// luma is kept, and from `uv_offset` on the two chroma planes alternate.
pub open spec fn planar_index(s: int, luma: int, chroma: int, uv_offset: int) -> Option<int> {
    if 0 <= s < luma {
        Some(s)
    } else if uv_offset <= s < uv_offset + 2 * chroma {
        let i = (s - uv_offset) / 2;
        if (s - uv_offset) % 2 == 0 {
            Some(luma + i)
        } else {
            Some(luma + chroma + i)
        }
    } else {
        None
    }
}

/// The place of a sample of planar data in semi-planar data.
pub open spec fn semi_planar_index(j: int, luma: int, chroma: int, uv_offset: int) -> int {
    if j < luma {
        j
    } else if j < luma + chroma {
        uv_offset + 2 * (j - luma)
    } else {
        uv_offset + 2 * (j - luma - chroma) + 1
    }
}

/// Every sample of planar data has its place in semi-planar data, and no two
/// share one.
pub proof fn law_semi_planar_keeps_every_sample(j: int, luma: int, chroma: int, uv_offset: int)
    requires
        0 <= luma <= uv_offset,
        0 <= chroma,
        0 <= j < luma + 2 * chroma,
    ensures
        planar_index(semi_planar_index(j, luma, chroma, uv_offset), luma, chroma, uv_offset)
            == Some(j),
{
}

/// Staging data after 8-bit planar samples were laid out with 8 bits.
pub open spec fn staged_8bit(
    old: Seq<u8>,
    data: Seq<u8>,
    luma: int,
    chroma: int,
    uv_offset: int,
) -> Seq<u8> {
    Seq::new(
        old.len(),
        |k: int|
            match planar_index(k, luma, chroma, uv_offset) {
                Some(j) => data[j],
                None => old[k],
            },
    )
}

/// The 16-bit word that an 8-bit sample is expanded to: either shifted left by 6
/// bits with its high bits in the 6 lower bits, or shifted left by 8 bits.
pub open spec fn expanded(sample: u8, filled: bool) -> int {
    if filled {
        64 * sample + sample / 4
    } else {
        256 * sample
    }
}

/// Staging data after 8-bit planar samples were expanded to 16-bit little-endian
/// words.
pub open spec fn staged_expanded(
    old: Seq<u8>,
    data: Seq<u8>,
    luma: int,
    chroma: int,
    uv_offset: int,
    filled: bool,
) -> Seq<u8> {
    Seq::new(
        old.len(),
        |k: int|
            match planar_index(k / 2, luma, chroma, uv_offset) {
                Some(j) => if k % 2 == 0 {
                    (expanded(data[j], filled) % 256) as u8
                } else {
                    (expanded(data[j], filled) / 256) as u8
                },
                None => old[k],
            },
    )
}

/// Each sample of planar data is staged as the word that it is expanded to.
pub proof fn law_samples_are_staged_expanded(
    old: Seq<u8>,
    data: Seq<u8>,
    luma: int,
    chroma: int,
    uv_offset: int,
    filled: bool,
    j: int,
)
    requires
        0 <= luma <= uv_offset,
        0 <= chroma,
        2 * (uv_offset + 2 * chroma) <= old.len(),
        0 <= j < luma + 2 * chroma,
    ensures
        word_at(
            staged_expanded(old, data, luma, chroma, uv_offset, filled),
            semi_planar_index(j, luma, chroma, uv_offset),
        ) == expanded(data[j], filled),
{
    law_semi_planar_keeps_every_sample(j, luma, chroma, uv_offset);
    let at = semi_planar_index(j, luma, chroma, uv_offset);
    let staged = staged_expanded(old, data, luma, chroma, uv_offset, filled);
    assert((2 * at) / 2 == at && (2 * at + 1) / 2 == at);
    assert(staged[2 * at] == (expanded(data[j], filled) % 256) as u8);
    assert(staged[2 * at + 1] == (expanded(data[j], filled) / 256) as u8);
}

/// Word `j` of little-endian 16-bit data.
pub open spec fn word_at(data: Seq<u8>, j: int) -> int {
    data[2 * j] + 256 * data[2 * j + 1]
}

/// The word that holds the low ten bits of `w` in its high bits.
pub open spec fn in_high_bits(w: int) -> int {
    (w * 64) % 65536
}

/// A ten-bit value can be read back from the high bits of its word.
pub proof fn law_high_bits_keep_ten_bits(w: int)
    requires
        0 <= w < 1024,
    ensures
        in_high_bits(w) / 64 == w,
        in_high_bits(w) % 64 == 0,
{
}

/// Staging data after 10-bit planar samples were laid out in the high bits of
/// 16-bit little-endian words.
pub open spec fn staged_10bit(
    old: Seq<u8>,
    data: Seq<u8>,
    luma: int,
    chroma: int,
    uv_offset: int,
) -> Seq<u8> {
    Seq::new(
        old.len(),
        |k: int|
            match planar_index(k / 2, luma, chroma, uv_offset) {
                Some(j) => if k % 2 == 0 {
                    (in_high_bits(word_at(data, j)) % 256) as u8
                } else {
                    (in_high_bits(word_at(data, j)) / 256) as u8
                },
                None => old[k],
            },
    )
}

/// Lay out 8-bit planar samples as 8-bit semi-planar samples.
fn stage_8bit(staging: &mut [u8], data: &[u8], luma: usize, chroma: usize, uv_offset: usize)
    requires
        luma <= uv_offset,
        uv_offset + 2 * chroma <= old(staging)@.len(),
        luma + 2 * chroma <= data@.len(),
    ensures
        final(staging)@ == staged_8bit(
            old(staging)@,
            data@,
            luma as int,
            chroma as int,
            uv_offset as int,
        ),
{
    let staging_len: usize = staging.len();
    let ghost before = staging@;
    let ghost target = staged_8bit(before, data@, luma as int, chroma as int, uv_offset as int);
    // Copy Y plane directly.
    let mut i: usize = 0;
    while i < luma
        invariant
            i <= luma <= uv_offset,
            uv_offset + 2 * chroma <= before.len(),
            luma + 2 * chroma <= data@.len(),
            staging@.len() == before.len(),
            target == staged_8bit(before, data@, luma as int, chroma as int, uv_offset as int),
            forall|k: int|
                0 <= k < before.len() ==> #[trigger] staging@[k] == if k < i {
                    target[k]
                } else {
                    before[k]
                },
        decreases luma - i,
    {
        staging[i] = data[i];
        i = i + 1;
    }
    // Interleave U and V planes.
    let mut i: usize = 0;
    while i < chroma
        invariant
            i <= chroma,
            luma <= uv_offset,
            uv_offset + 2 * chroma <= before.len(),
            luma + 2 * chroma <= data@.len(),
            staging@.len() == before.len(),
            before.len() == staging_len,
            target == staged_8bit(before, data@, luma as int, chroma as int, uv_offset as int),
            forall|k: int|
                0 <= k < before.len() ==> #[trigger] staging@[k] == if k < luma || (uv_offset <= k
                    < uv_offset + 2 * i) {
                    target[k]
                } else {
                    before[k]
                },
        decreases chroma - i,
    {
        staging[uv_offset + i * 2] = data[luma + i];
        staging[uv_offset + i * 2 + 1] = data[luma + chroma + i];
        i = i + 1;
    }
    assert(staging@ =~= target);
}

/// The two bytes of the word that an 8-bit sample is expanded to.
fn expanded_bytes(sample: u8, filled: bool) -> (bytes: (u8, u8))
    ensures
        bytes.0 == expanded(sample, filled) % 256,
        bytes.1 == expanded(sample, filled) / 256,
{
    if filled {
        let wide: u16 = sample as u16;
        let word: u16 = (wide << 6) | (wide >> 2);
        assert(word == 64 * wide + wide / 4) by (bit_vector)
            requires
                word == (wide << 6) | (wide >> 2),
                wide < 256,
        ;
        ((word % 256) as u8, (word / 256) as u8)
    } else {
        (0, sample)
    }
}

/// Lay out 8-bit planar samples as 16-bit semi-planar samples.
fn stage_expanded(
    staging: &mut [u8],
    data: &[u8],
    luma: usize,
    chroma: usize,
    uv_offset: usize,
    filled: bool,
)
    requires
        luma <= uv_offset,
        2 * (uv_offset + 2 * chroma) <= old(staging)@.len(),
        luma + 2 * chroma <= data@.len(),
    ensures
        final(staging)@ == staged_expanded(
            old(staging)@,
            data@,
            luma as int,
            chroma as int,
            uv_offset as int,
            filled,
        ),
{
    let staging_len: usize = staging.len();
    let ghost before = staging@;
    let ghost target = staged_expanded(
        before,
        data@,
        luma as int,
        chroma as int,
        uv_offset as int,
        filled,
    );
    let mut i: usize = 0;
    while i < luma
        invariant
            i <= luma <= uv_offset,
            2 * (uv_offset + 2 * chroma) <= before.len(),
            luma + 2 * chroma <= data@.len(),
            staging@.len() == before.len(),
            before.len() == staging_len,
            target == staged_expanded(
                before,
                data@,
                luma as int,
                chroma as int,
                uv_offset as int,
                filled,
            ),
            forall|k: int|
                0 <= k < before.len() ==> #[trigger] staging@[k] == if k < 2 * i {
                    target[k]
                } else {
                    before[k]
                },
        decreases luma - i,
    {
        let bytes = expanded_bytes(data[i], filled);
        staging[2 * i] = bytes.0;
        staging[2 * i + 1] = bytes.1;
        i = i + 1;
    }
    let mut i: usize = 0;
    while i < chroma
        invariant
            i <= chroma,
            luma <= uv_offset,
            2 * (uv_offset + 2 * chroma) <= before.len(),
            luma + 2 * chroma <= data@.len(),
            staging@.len() == before.len(),
            before.len() == staging_len,
            target == staged_expanded(
                before,
                data@,
                luma as int,
                chroma as int,
                uv_offset as int,
                filled,
            ),
            forall|k: int|
                0 <= k < before.len() ==> #[trigger] staging@[k] == if k < 2 * luma || (2
                    * uv_offset <= k < 2 * uv_offset + 4 * i) {
                    target[k]
                } else {
                    before[k]
                },
        decreases chroma - i,
    {
        let at: usize = 2 * (uv_offset + 2 * i);
        let u_bytes = expanded_bytes(data[luma + i], filled);
        let v_bytes = expanded_bytes(data[luma + chroma + i], filled);
        staging[at] = u_bytes.0;
        staging[at + 1] = u_bytes.1;
        staging[at + 2] = v_bytes.0;
        staging[at + 3] = v_bytes.1;
        i = i + 1;
    }
    assert(staging@ =~= target);
}

/// The two bytes of the word that holds ten bits in its high bits.
fn high_bits_bytes(low: u8, high: u8) -> (bytes: (u8, u8))
    ensures
        bytes.0 == in_high_bits(low + 256 * high) % 256,
        bytes.1 == in_high_bits(low + 256 * high) / 256,
{
    let word: u16 = low as u16 + 256u16 * high as u16;
    let shifted: u16 = word << 6;
    assert(shifted == (word * 64) % 65536) by (bit_vector)
        requires
            shifted == word << 6,
    ;
    ((shifted % 256) as u8, (shifted / 256) as u8)
}

/// Lay out 10-bit planar samples as 16-bit semi-planar samples.
fn stage_10bit(staging: &mut [u8], data: &[u8], luma: usize, chroma: usize, uv_offset: usize)
    requires
        luma <= uv_offset,
        2 * (uv_offset + 2 * chroma) <= old(staging)@.len(),
        2 * (luma + 2 * chroma) <= data@.len(),
    ensures
        final(staging)@ == staged_10bit(
            old(staging)@,
            data@,
            luma as int,
            chroma as int,
            uv_offset as int,
        ),
{
    let staging_len: usize = staging.len();
    let data_len: usize = data.len();
    let ghost before = staging@;
    let ghost target = staged_10bit(before, data@, luma as int, chroma as int, uv_offset as int);
    let mut i: usize = 0;
    while i < luma
        invariant
            i <= luma <= uv_offset,
            2 * (uv_offset + 2 * chroma) <= before.len(),
            2 * (luma + 2 * chroma) <= data@.len(),
            staging@.len() == before.len(),
            before.len() == staging_len,
            data@.len() == data_len,
            target == staged_10bit(before, data@, luma as int, chroma as int, uv_offset as int),
            forall|k: int|
                0 <= k < before.len() ==> #[trigger] staging@[k] == if k < 2 * i {
                    target[k]
                } else {
                    before[k]
                },
        decreases luma - i,
    {
        let bytes = high_bits_bytes(data[2 * i], data[2 * i + 1]);
        staging[2 * i] = bytes.0;
        staging[2 * i + 1] = bytes.1;
        i = i + 1;
    }
    let mut i: usize = 0;
    while i < chroma
        invariant
            i <= chroma,
            luma <= uv_offset,
            2 * (uv_offset + 2 * chroma) <= before.len(),
            2 * (luma + 2 * chroma) <= data@.len(),
            staging@.len() == before.len(),
            before.len() == staging_len,
            data@.len() == data_len,
            target == staged_10bit(before, data@, luma as int, chroma as int, uv_offset as int),
            forall|k: int|
                0 <= k < before.len() ==> #[trigger] staging@[k] == if k < 2 * luma || (2
                    * uv_offset <= k < 2 * uv_offset + 4 * i) {
                    target[k]
                } else {
                    before[k]
                },
        decreases chroma - i,
    {
        let at: usize = 2 * (uv_offset + 2 * i);
        let u: usize = 2 * (luma + i);
        let v: usize = 2 * (luma + chroma + i);
        let u_bytes = high_bits_bytes(data[u], data[u + 1]);
        let v_bytes = high_bits_bytes(data[v], data[v + 1]);
        staging[at] = u_bytes.0;
        staging[at + 1] = u_bytes.1;
        staging[at + 2] = v_bytes.0;
        staging[at + 3] = v_bytes.1;
        i = i + 1;
    }
    assert(staging@ =~= target);
}

/// What an input image is.
pub struct ImageModel {
    pub width: u32,
    pub height: u32,
    pub bit_depth: BitDepth,
    pub pixel_format: PixelFormat,
    /// Layout that the image is in.
    pub layout: ImageLayout,
    /// Size in bytes of the staging buffer.
    pub staging_size: int,
}

impl ImageModel {
    /// Number of luma samples.
    pub open spec fn luma(self) -> int {
        self.width * self.height
    }

    /// The format is one with two planes, and the staging buffer has its size.
    pub open spec fn well_formed(self) -> bool {
        &&& self.pixel_format != PixelFormat::Yuv422
        &&& self.luma() <= u32::MAX
        &&& self.staging_size == staging_bytes(self.pixel_format, self.bit_depth, self.luma())
        &&& self.staging_size <= usize::MAX
        &&& self.luma() * 3 + 3 <= usize::MAX
    }
}

/// The staging buffer after 10-bit planar 4:2:0 data was uploaded to an image.
pub open spec fn staged_yuv420_10bit(m: ImageModel, old: Seq<u8>, data: Seq<u8>) -> Seq<u8> {
    staged_10bit(old, data, m.luma(), m.luma() / 4, m.luma())
}

/// Staging data after 4:2:0 data was uploaded.
pub open spec fn staged_yuv420(m: ImageModel, old: Seq<u8>, data: Seq<u8>) -> Seq<u8> {
    let luma = m.luma();
    match m.bit_depth {
        BitDepth::Eight => staged_8bit(old, data, luma, luma / 4, luma),
        BitDepth::Ten => staged_expanded(old, data, luma, luma / 4, luma, true),
    }
}

/// Sample at which interleaved chroma starts in 4:4:4 staging data.
pub open spec fn chroma_start_444(m: ImageModel) -> int {
    match m.bit_depth {
        BitDepth::Eight => aligned4(m.luma()),
        BitDepth::Ten => aligned4(m.luma() * 2) / 2,
    }
}

/// Staging data after 4:4:4 data was uploaded.
pub open spec fn staged_yuv444(m: ImageModel, old: Seq<u8>, data: Seq<u8>) -> Seq<u8> {
    let luma = m.luma();
    match m.bit_depth {
        BitDepth::Eight => staged_8bit(old, data, luma, luma, chroma_start_444(m)),
        BitDepth::Ten => staged_expanded(old, data, luma, luma, chroma_start_444(m), false),
    }
}

/// The copies from the staging buffer to the planes of an image.
pub open spec fn staging_copies(m: ImageModel) -> Seq<PlaneCopy> {
    let luma_bytes = sample_bytes(m.bit_depth, m.luma());
    match m.pixel_format {
        PixelFormat::Yuv444 => seq![
            PlaneCopy {
                buffer_offset: 0,
                plane: ImagePlane::Plane0,
                width: m.width,
                height: m.height,
            },
            PlaneCopy {
                buffer_offset: aligned4(luma_bytes) as u64,
                plane: ImagePlane::Plane1,
                width: m.width,
                height: m.height,
            },
        ],
        _ => seq![
            PlaneCopy {
                buffer_offset: 0,
                plane: ImagePlane::Plane0,
                width: m.width,
                height: m.height,
            },
            PlaneCopy {
                buffer_offset: luma_bytes as u64,
                plane: ImagePlane::Plane1,
                width: m.width / 2,
                height: m.height / 2,
            },
        ],
    }
}

/// The steps that copy the staging buffer to an image.
pub open spec fn staging_transfer(
    m: ImageModel,
    old_layout: ImageLayout,
    final_layout: ImageLayout,
) -> Seq<StepModel> {
    seq![
        StepModel::ImageBarrier(
            ImageBarrier {
                image: ImageRole::Target,
                old_layout,
                new_layout: ImageLayout::TransferDstOptimal,
                src_access: AccessMask::Empty,
                dst_access: AccessMask::TransferWrite,
                src_stage: PipelineStage::TopOfPipe,
                dst_stage: PipelineStage::Transfer,
            },
        ),
        StepModel::CopyBuffer(staging_copies(m)),
        StepModel::ImageBarrier(
            ImageBarrier {
                image: ImageRole::Target,
                old_layout: ImageLayout::TransferDstOptimal,
                new_layout: final_layout,
                src_access: AccessMask::TransferWrite,
                dst_access: AccessMask::MemoryRead,
                src_stage: PipelineStage::Transfer,
                dst_stage: PipelineStage::BottomOfPipe,
            },
        ),
    ]
}

/// An upload leaves the image in its final layout, from whatever layout it was
/// said to be in.
pub proof fn law_upload_leaves_final_layout(
    m: ImageModel,
    old_layout: ImageLayout,
    final_layout: ImageLayout,
    source_layout: ImageLayout,
)
    ensures
        moves_layouts(
            staging_transfer(m, old_layout, final_layout),
            Layouts { source: source_layout, target: old_layout },
            Layouts { source: source_layout, target: final_layout },
        ),
{
    reveal_with_fuel(layouts_after, 4);
}

/// Chroma is copied to the image from where an upload put it in the staging
/// buffer, at an offset that is a multiple of 4 for 4:4:4.
pub proof fn law_chroma_is_copied_from_where_it_was_staged(m: ImageModel)
    requires
        m.well_formed(),
    ensures
        m.pixel_format == PixelFormat::Yuv444 ==> {
            &&& staging_copies(m)[1].buffer_offset == sample_bytes(
                m.bit_depth,
                chroma_start_444(m),
            )
            &&& staging_copies(m)[1].buffer_offset % 4 == 0
        },
        m.pixel_format == PixelFormat::Yuv420 ==> staging_copies(m)[1].buffer_offset
            == sample_bytes(m.bit_depth, m.luma()),
{
    let luma = m.luma();
    assert(luma >= 0) by (nonlinear_arith)
        requires
            luma == m.width * m.height,
    ;
    lemma_aligned_offset(luma, m.bit_depth);
}

pub(crate) proof fn lemma_aligned_offset(luma: int, depth: BitDepth)
    requires
        0 <= luma <= u32::MAX,
    ensures
        sample_bytes(depth, luma) <= aligned4(sample_bytes(depth, luma)) < sample_bytes(depth, luma)
            + 4,
        aligned4(sample_bytes(depth, luma)) as u64 == aligned4(sample_bytes(depth, luma)),
        aligned4(sample_bytes(depth, luma)) % 4 == 0,
        aligned4(luma * 2) / 2 * 2 == aligned4(luma * 2),
        sample_bytes(depth, luma) as u64 == sample_bytes(depth, luma),
{
    lemma_aligned4(luma);
    lemma_aligned4(2 * luma);
    match depth {
        BitDepth::Eight => {},
        BitDepth::Ten => {},
    }
}

proof fn lemma_aligned4(n: int)
    ensures
        n <= aligned4(n) <= n + 3,
        aligned4(n) % 4 == 0,
        aligned4(n) / 2 * 2 == aligned4(n),
{
    let k = (n + 3) / 4;
    assert(n + 3 == 4 * k + (n + 3) % 4);
    lemma_fours(k);
    assert(aligned4(n) == 4 * k);
}

proof fn lemma_fours(k: int)
    ensures
        k * 4 == 4 * k,
        (4 * k) % 4 == 0,
        (4 * k) / 2 == 2 * k,
{
}

/// Semi-planar 4:2:0 data fits the staging buffer of any format, and the planar
/// data that it is made from.
proof fn lemma_420_fits(format: PixelFormat, depth: BitDepth, luma: int)
    requires
        luma >= 0,
        format != PixelFormat::Yuv422,
    ensures
        luma + 2 * (luma / 4) <= luma * 3 / 2,
        2 * (luma + 2 * (luma / 4)) <= luma * 3,
        sample_bytes(depth, luma + 2 * (luma / 4)) <= staging_bytes(format, depth, luma),
{
    assert(aligned4(luma) >= luma);
    assert(aligned4(2 * luma) >= 2 * luma);
}

/// A GPU image for staging YUV frame data before encoding.
///
/// The image has NV12/P010 format (YUV420) or 2-plane semi-planar YUV444
/// format. Uploads lay out YUV data in a staging buffer and copy it to the
/// image, or directly to an encoder's input image.
#[derive(Debug)]
pub struct InputImage {
    image_layout: ImageLayout,
    staging_size: usize,
    width: u32,
    height: u32,
    bit_depth: BitDepth,
    pixel_format: PixelFormat,
}

impl View for InputImage {
    type V = ImageModel;

    closed spec fn view(&self) -> ImageModel {
        ImageModel {
            width: self.width,
            height: self.height,
            bit_depth: self.bit_depth,
            pixel_format: self.pixel_format,
            layout: self.image_layout,
            staging_size: self.staging_size as int,
        }
    }
}

/// Message of a pixel format and bit depth that have no image format.
pub open spec fn unsupported_image(format: PixelFormat, depth: BitDepth) -> Seq<char> {
    "Unsupported pixel format / bit depth combination: "@ + format.spelled() + " / "@
        + depth.spelled()
}

impl InputImage {
    /// Create a new staging image for uploading YUV frame data.
    ///
    /// The codec is unused. YUV 4:2:2 is not supported.
    pub fn new(
        _codec: Codec,
        width: u32,
        height: u32,
        bit_depth: BitDepth,
        pixel_format: PixelFormat,
    ) -> (image: Result<Self, PixelForgeError>)
        requires
            pixel_format != PixelFormat::Yuv422 ==> {
                &&& width * height <= u32::MAX
                &&& sample_bytes(bit_depth, width * height * 3) + 3 <= usize::MAX
            },
        ensures
            match image {
                Ok(image) => {
                    &&& pixel_format != PixelFormat::Yuv422
                    &&& image@.well_formed()
                    &&& image@ == (ImageModel {
                        width,
                        height,
                        bit_depth,
                        pixel_format,
                        layout: ImageLayout::Undefined,
                        staging_size: staging_bytes(pixel_format, bit_depth, width * height),
                    })
                },
                Err(e) => pixel_format == PixelFormat::Yuv422 && e.is_invalid_input(
                    unsupported_image(pixel_format, bit_depth),
                ),
            },
    {
        if pixel_format == PixelFormat::Yuv422 {
            let mut message = "Unsupported pixel format / bit depth combination: ".to_string();
            message.append(pixel_format.name());
            message.append(" / ");
            message.append(bit_depth.name());
            return Err(PixelForgeError::InvalidInput(message));
        }
        // Size depends on pixel format, bit depth, and alignment padding between planes.

        let bytes_per_sample: usize = match bit_depth {
            BitDepth::Eight => 1,
            BitDepth::Ten => 2,
        };
        let luma_pixels: usize = (width * height) as usize;
        let staging_size: usize = match pixel_format {
            PixelFormat::Yuv444 => {
                // Y plane (aligned to 4 bytes) + UV interleaved plane.
                let y_bytes: usize = luma_pixels * bytes_per_sample;
                align4(y_bytes) + luma_pixels * 2 * bytes_per_sample
            },
            _ => pixel_format.frame_size(width, height) * bytes_per_sample,
        };
        Ok(
            InputImage {
                image_layout: ImageLayout::Undefined,
                staging_size,
                width,
                height,
                bit_depth,
                pixel_format,
            },
        )
    }

    /// Format of the image.
    pub fn format(&self) -> (format: VkFormat)
        requires
            self@.well_formed(),
        ensures
            Some(format) == two_plane_format(self@.pixel_format, self@.bit_depth),
    {
        match (self.pixel_format, self.bit_depth) {
            (PixelFormat::Yuv444, BitDepth::Eight) => VkFormat::SemiPlanar444,
            (PixelFormat::Yuv444, BitDepth::Ten) => VkFormat::SemiPlanar444Ten,
            (_, BitDepth::Eight) => VkFormat::SemiPlanar420,
            (_, BitDepth::Ten) => VkFormat::SemiPlanar420Ten,
        }
    }

    /// Size in bytes of the staging buffer.
    pub fn staging_size(&self) -> (size: usize)
        ensures
            size == self@.staging_size,
    {
        self.staging_size
    }

    /// Get the image dimensions.
    pub fn dimensions(&self) -> (dimensions: (u32, u32))
        ensures
            dimensions == (self@.width, self@.height),
    {
        (self.width, self.height)
    }

    /// Number of luma samples.
    fn luma(&self) -> (luma: u32)
        requires
            self@.luma() <= u32::MAX,
        ensures
            luma == self@.luma(),
    {
        self.width * self.height
    }

    /// Lay out 4:2:0 planes in the staging buffer.
    fn stage_yuv420(&self, staging: &mut [u8], yuv_data: &[u8])
        requires
            self@.well_formed(),
            old(staging)@.len() == self@.staging_size,
            self@.luma() * 3 / 2 <= yuv_data@.len(),
        ensures
            final(staging)@ == staged_yuv420(self@, old(staging)@, yuv_data@),
    {
        let luma: usize = self.luma() as usize;
        proof {
            lemma_420_fits(self@.pixel_format, self@.bit_depth, luma as int);
        }
        match self.bit_depth {
            BitDepth::Eight => stage_8bit(staging, yuv_data, luma, luma / 4, luma),
            BitDepth::Ten => stage_expanded(staging, yuv_data, luma, luma / 4, luma, true),
        }
    }

    /// Upload YUV420 (I420) data to this image.
    ///
    /// The data is expected in I420 format (Y plane, then U plane, then V plane).
    /// It is laid out in the staging buffer in NV12 (8-bit) or P010 (10-bit)
    /// format.
    ///
    /// For 10-bit images, 8-bit input data is expanded to 10-bit by left-shifting
    /// each sample by 6 bits (filling in the 6 lower bits with the high bits).
    pub fn upload_yuv420(&self, staging: &mut [u8], yuv_data: &[u8]) -> (result: Result<
        (),
        PixelForgeError,
    >)
        requires
            self@.well_formed(),
            self@.luma() * 3 <= u32::MAX,
            old(staging)@.len() == self@.staging_size,
        ensures
            match result {
                Ok(_) => yuv_data@.len() >= self@.luma() * 3 / 2 && final(staging)@
                    == staged_yuv420(self@, old(staging)@, yuv_data@),
                Err(e) => {
                    &&& yuv_data@.len() < self@.luma() * 3 / 2
                    &&& final(staging)@ == old(staging)@
                    &&& e.is_invalid_input(
                        too_small("YUV"@, self@.luma() * 3 / 2, yuv_data@.len() as int),
                    )
                },
            },
    {
        let expected_size: usize = (self.luma() * 3 / 2) as usize;
        if yuv_data.len() < expected_size {
            return Err(
                PixelForgeError::InvalidInput(
                    too_small_message("YUV", expected_size, yuv_data.len()),
                ),
            );
        }
        self.stage_yuv420(staging, yuv_data);
        Ok(())
    }

    /// Upload NV12 data directly to this image.
    ///
    /// The data is expected in NV12 format (Y plane, then interleaved UV plane),
    /// and fills the staging buffer.
    pub fn upload_nv12(&self, staging: &mut [u8], nv12_data: &[u8]) -> (result: Result<
        (),
        PixelForgeError,
    >)
        requires
            self@.well_formed(),
            self@.luma() * 3 <= u32::MAX,
            old(staging)@.len() == self@.staging_size,
            nv12_data@.len() >= self@.luma() * 3 / 2 ==> nv12_data@.len() >= self@.staging_size,
        ensures
            match result {
                Ok(_) => nv12_data@.len() >= self@.luma() * 3 / 2 && final(staging)@
                    == nv12_data@.take(self@.staging_size),
                Err(e) => {
                    &&& nv12_data@.len() < self@.luma() * 3 / 2
                    &&& final(staging)@ == old(staging)@
                    &&& e.is_invalid_input(
                        too_small("NV12"@, self@.luma() * 3 / 2, nv12_data@.len() as int),
                    )
                },
            },
    {
        let expected_size: usize = (self.luma() * 3 / 2) as usize;
        if nv12_data.len() < expected_size {
            return Err(
                PixelForgeError::InvalidInput(
                    too_small_message("NV12", expected_size, nv12_data.len()),
                ),
            );
        }
        let mut i: usize = 0;
        while i < self.staging_size
            invariant
                i <= self@.staging_size,
                staging@.len() == self@.staging_size,
                self@.staging_size <= nv12_data@.len(),
                forall|k: int| 0 <= k < i ==> staging@[k] == nv12_data@[k],
            decreases self@.staging_size - i,
        {
            staging[i] = nv12_data[i];
            i = i + 1;
        }
        assert(staging@ =~= nv12_data@.take(self@.staging_size));
        Ok(())
    }

    /// Upload native 10-bit YUV420 (I420 10-bit) data to this image.
    ///
    /// The data is expected in yuv420p10le format: planes of 16-bit little-endian
    /// samples with the value in the lower 10 bits. In the staging buffer the
    /// value is in the upper 10 bits (P010).
    ///
    /// This is only valid for 10-bit images.
    pub fn upload_yuv420_10bit(&self, staging: &mut [u8], yuv_data: &[u8]) -> (result: Result<
        (),
        PixelForgeError,
    >)
        requires
            self@.well_formed(),
            self@.bit_depth == BitDepth::Ten ==> self@.luma() * 3 <= u32::MAX,
            old(staging)@.len() == self@.staging_size,
        ensures
            match result {
                Ok(_) => {
                    &&& self@.bit_depth == BitDepth::Ten
                    &&& yuv_data@.len() >= self@.luma() * 3
                    &&& final(staging)@ == staged_10bit(
                        old(staging)@,
                        yuv_data@,
                        self@.luma(),
                        self@.luma() / 4,
                        self@.luma(),
                    )
                    &&& final(staging)@ == staged_yuv420_10bit(self@, old(staging)@, yuv_data@)
                },
                Err(e) => {
                    &&& final(staging)@ == old(staging)@
                    &&& if self@.bit_depth != BitDepth::Ten {
                        e.is_invalid_input(
                            "upload_yuv420_10bit can only be used with 10-bit InputImage"@,
                        )
                    } else {
                        yuv_data@.len() < self@.luma() * 3 && e.is_invalid_input(
                            too_small("YUV420 10-bit"@, self@.luma() * 3, yuv_data@.len() as int),
                        )
                    }
                },
            },
    {
        if self.bit_depth != BitDepth::Ten {
            return Err(
                PixelForgeError::InvalidInput(
                    "upload_yuv420_10bit can only be used with 10-bit InputImage".to_string(),
                ),
            );
        }
        // Y (w*h*2) + U (w*h/4*2) + V (w*h/4*2) = w*h*3 bytes.

        let expected_size: usize = (self.luma() * 3) as usize;
        if yuv_data.len() < expected_size {
            return Err(
                PixelForgeError::InvalidInput(
                    too_small_message("YUV420 10-bit", expected_size, yuv_data.len()),
                ),
            );
        }
        let luma: usize = self.luma() as usize;
        proof {
            lemma_420_fits(self@.pixel_format, self@.bit_depth, luma as int);
        }
        stage_10bit(staging, yuv_data, luma, luma / 4, luma);
        Ok(())
    }

    /// Upload YUV420 (I420) data to an external image.
    ///
    /// Same as `upload_yuv420()`, for an encoder's input image; it is only valid
    /// for YUV420 images.
    pub fn upload_yuv420_to(&self, staging: &mut [u8], yuv_data: &[u8]) -> (result: Result<
        (),
        PixelForgeError,
    >)
        requires
            self@.well_formed(),
            self@.pixel_format == PixelFormat::Yuv420 ==> self@.luma() * 3 <= u32::MAX,
            old(staging)@.len() == self@.staging_size,
        ensures
            match result {
                Ok(_) => {
                    &&& self@.pixel_format == PixelFormat::Yuv420
                    &&& yuv_data@.len() >= self@.luma() * 3 / 2
                    &&& final(staging)@ == staged_yuv420(self@, old(staging)@, yuv_data@)
                },
                Err(e) => {
                    &&& final(staging)@ == old(staging)@
                    &&& if self@.pixel_format != PixelFormat::Yuv420 {
                        e.is_invalid_input(
                            "upload_yuv420_to can only be used with YUV420 InputImage"@,
                        )
                    } else {
                        yuv_data@.len() < self@.luma() * 3 / 2 && e.is_invalid_input(
                            too_small("YUV"@, self@.luma() * 3 / 2, yuv_data@.len() as int),
                        )
                    }
                },
            },
    {
        if self.pixel_format != PixelFormat::Yuv420 {
            return Err(
                PixelForgeError::InvalidInput(
                    "upload_yuv420_to can only be used with YUV420 InputImage".to_string(),
                ),
            );
        }
        let expected_size: usize = (self.luma() * 3 / 2) as usize;
        if yuv_data.len() < expected_size {
            return Err(
                PixelForgeError::InvalidInput(
                    too_small_message("YUV", expected_size, yuv_data.len()),
                ),
            );
        }
        self.stage_yuv420(staging, yuv_data);
        Ok(())
    }

    /// Upload YUV444 (planar) data to an external image.
    ///
    /// It is only valid for YUV444 images.
    pub fn upload_yuv444_to(&self, staging: &mut [u8], yuv_data: &[u8]) -> (result: Result<
        (),
        PixelForgeError,
    >)
        requires
            self@.well_formed(),
            old(staging)@.len() == self@.staging_size,
        ensures
            match result {
                Ok(_) => {
                    &&& self@.pixel_format == PixelFormat::Yuv444
                    &&& yuv_data@.len() >= self@.luma() * 3
                    &&& final(staging)@ == staged_yuv444(self@, old(staging)@, yuv_data@)
                },
                Err(e) => {
                    &&& final(staging)@ == old(staging)@
                    &&& if self@.pixel_format != PixelFormat::Yuv444 {
                        e.is_invalid_input(
                            "upload_yuv444_to can only be used with YUV444 InputImage"@,
                        )
                    } else {
                        yuv_data@.len() < self@.luma() * 3 && e.is_invalid_input(
                            too_small("YUV444"@, self@.luma() * 3, yuv_data@.len() as int),
                        )
                    }
                },
            },
    {
        if self.pixel_format != PixelFormat::Yuv444 {
            return Err(
                PixelForgeError::InvalidInput(
                    "upload_yuv444_to can only be used with YUV444 InputImage".to_string(),
                ),
            );
        }
        // Y + U + V at full resolution.

        let plane_size: usize = self.luma() as usize;
        let expected_size: usize = plane_size * 3;
        if yuv_data.len() < expected_size {
            return Err(
                PixelForgeError::InvalidInput(
                    too_small_message("YUV444", expected_size, yuv_data.len()),
                ),
            );
        }
        // The UV plane starts at a multiple of 4 bytes.

        match self.bit_depth {
            BitDepth::Eight => {
                let uv_offset: usize = align4(plane_size);
                stage_8bit(staging, yuv_data, plane_size, plane_size, uv_offset);
            },
            BitDepth::Ten => {
                let uv_offset: usize = align4(plane_size * 2) / 2;
                stage_expanded(staging, yuv_data, plane_size, plane_size, uv_offset, false);
            },
        }
        Ok(())
    }

    /// Plan the copy of the staging buffer to this image.
    pub fn copy_staging_to_image(&self) -> (steps: Vec<Step>)
        requires
            self@.well_formed(),
        ensures
            modelled(steps@) == staging_transfer(self@, self@.layout, ImageLayout::General),
    {
        self.copy_staging_to_image_internal(self.image_layout, ImageLayout::General)
    }

    /// Note that the staging buffer was copied to this image.
    pub fn staging_copied(&mut self)
        ensures
            final(self)@ == (ImageModel { layout: ImageLayout::General, ..old(self)@ }),
    {
        self.image_layout = ImageLayout::General;
    }

    /// Plan the copy of the staging buffer to an encoder's input image.
    pub fn copy_staging_to_target(&self) -> (steps: Vec<Step>)
        requires
            self@.well_formed(),
        ensures
            modelled(steps@) == staging_transfer(
                self@,
                ImageLayout::Undefined,
                ImageLayout::VideoEncodeSrc,
            ),
    {
        self.copy_staging_to_image_internal(ImageLayout::Undefined, ImageLayout::VideoEncodeSrc)
    }

    fn copy_staging_to_image_internal(
        &self,
        old_layout: ImageLayout,
        final_layout: ImageLayout,
    ) -> (steps: Vec<Step>)
        requires
            self@.well_formed(),
        ensures
            modelled(steps@) == staging_transfer(self@, old_layout, final_layout),
    {
        let width: u32 = self.width;
        let height: u32 = self.height;
        let bytes_per_sample: usize = match self.bit_depth {
            BitDepth::Eight => 1,
            BitDepth::Ten => 2,
        };
        let luma: usize = self.luma() as usize;
        let y_plane_bytes: usize = luma * bytes_per_sample;
        let y_plane = PlaneCopy { buffer_offset: 0, plane: ImagePlane::Plane0, width, height };
        let copies: Vec<PlaneCopy> = match self.pixel_format {
            PixelFormat::Yuv444 => {
                // UV plane (interleaved, full resolution), at a multiple of 4 bytes.
                vec![
                    y_plane,
                    PlaneCopy {
                        buffer_offset: align4(y_plane_bytes) as u64,
                        plane: ImagePlane::Plane1,
                        width,
                        height,
                    },
                ]
            },
            _ => {
                // UV plane (interleaved, half resolution).
                vec![
                    y_plane,
                    PlaneCopy {
                        buffer_offset: y_plane_bytes as u64,
                        plane: ImagePlane::Plane1,
                        width: width / 2,
                        height: height / 2,
                    },
                ]
            },
        };
        assert(copies@ =~= staging_copies(self@));
        let mut steps: Vec<Step> = Vec::new();
        steps.push(
            Step::ImageBarrier(
                ImageBarrier {
                    image: ImageRole::Target,
                    old_layout,
                    new_layout: ImageLayout::TransferDstOptimal,
                    src_access: AccessMask::Empty,
                    dst_access: AccessMask::TransferWrite,
                    src_stage: PipelineStage::TopOfPipe,
                    dst_stage: PipelineStage::Transfer,
                },
            ),
        );
        steps.push(Step::CopyBuffer(copies));
        steps.push(
            Step::ImageBarrier(
                ImageBarrier {
                    image: ImageRole::Target,
                    old_layout: ImageLayout::TransferDstOptimal,
                    new_layout: final_layout,
                    src_access: AccessMask::TransferWrite,
                    dst_access: AccessMask::MemoryRead,
                    src_stage: PipelineStage::Transfer,
                    dst_stage: PipelineStage::BottomOfPipe,
                },
            ),
        );
        assert(modelled(steps@) =~= staging_transfer(self@, old_layout, final_layout));
        steps
    }
}

/// Staging samples leaves the bytes that are not those of a sample as they were: those
/// between luma and chroma, and those after chroma.
pub proof fn law_staging_leaves_the_rest(
    old: Seq<u8>,
    data: Seq<u8>,
    luma: int,
    chroma: int,
    uv_offset: int,
    filled: bool,
    k: int,
)
    requires
        0 <= luma <= uv_offset,
        0 <= chroma,
        0 <= k < old.len(),
    ensures
        luma <= k < uv_offset || uv_offset + chroma + chroma <= k ==> staged_8bit(
            old,
            data,
            luma,
            chroma,
            uv_offset,
        )[k] == old[k],
        2 * luma <= k < 2 * uv_offset || 2 * (uv_offset + chroma + chroma) <= k ==> staged_10bit(
            old,
            data,
            luma,
            chroma,
            uv_offset,
        )[k] == old[k],
        2 * luma <= k < 2 * uv_offset || 2 * (uv_offset + chroma + chroma) <= k
            ==> staged_expanded(old, data, luma, chroma, uv_offset, filled)[k] == old[k],
        staged_8bit(old, data, luma, chroma, uv_offset).len() == old.len(),
        staged_10bit(old, data, luma, chroma, uv_offset).len() == old.len(),
        staged_expanded(old, data, luma, chroma, uv_offset, filled).len() == old.len(),
{
}

} // verus!
