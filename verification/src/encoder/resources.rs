//! Choices about formats, memory, sharing and transfers of encoder resources.

use crate::align4;
use crate::encoder::dpb::select::{first_true, first_true_from, lemma_first_true};
use crate::encoder::{BitDepth, PixelFormat};
use crate::error::PixelForgeError;
use crate::image::{aligned4, sample_bytes, two_plane_format};
use crate::steps::{
    layouts_after, modelled, moves_layouts, ImageBarrier, ImagePlane, ImageRole, Layouts,
    PlaneCopy, PlaneExtent, Step, StepModel,
};
use crate::text::{append_hexadecimal, hexadecimal};
use crate::vk::{AccessMask, ImageLayout, PipelineStage, VkFormat};
use vstd::prelude::*;

pub use crate::encoder::arithmetic::{align_up, gcd, lcm};

verus! {

/// Minimum bitstream buffer size.
pub const MIN_BITSTREAM_BUFFER_SIZE: usize = 2_097_152;

/// Get the Vulkan format for a given pixel format and bit depth.
///
/// Supports YUV420 and YUV444 in 8-bit and 10-bit.
/// For YUV444, uses 2-plane (semi-planar) formats.
pub fn get_video_format(pixel_format: PixelFormat, bit_depth: BitDepth) -> (format: VkFormat)
    requires
        pixel_format != PixelFormat::Yuv422,
    ensures
        Some(format) == two_plane_format(pixel_format, bit_depth),
{
    match (pixel_format, bit_depth) {
        (PixelFormat::Yuv444, BitDepth::Eight) => VkFormat::SemiPlanar444,
        (PixelFormat::Yuv444, BitDepth::Ten) => VkFormat::SemiPlanar444Ten,
        (_, BitDepth::Eight) => VkFormat::SemiPlanar420,
        (_, BitDepth::Ten) => VkFormat::SemiPlanar420Ten,
    }
}

/// The character with the bits of `b`.
pub open spec fn as_char(b: u8) -> i8 {
    if b < 128 {
        b as i8
    } else {
        (b - 256) as i8
    }
}

/// Create a codec name array for Vulkan from a string.
///
/// This creates a null-terminated array of 256 characters for use with Vulkan
/// video extensions; longer names are cut off.
pub fn make_codec_name(codec_name: &[u8]) -> (name: [i8; 256])
    ensures
        name@ == Seq::new(
            256,
            |i: int|
                if i < codec_name@.len() && i < 255 {
                    as_char(codec_name@[i])
                } else {
                    0i8
                },
        ),
{
    let mut name: [i8; 256] = [0i8;256];
    let mut i: usize = 0;
    while i < codec_name.len() && i < 255
        invariant
            i <= codec_name@.len(),
            i <= 255,
            forall|k: int|
                0 <= k < 256 ==> #[trigger] name@[k] == if k < i {
                    as_char(codec_name@[k])
                } else {
                    0i8
                },
        decreases 255 - i,
    {
        let b: u8 = codec_name[i];
        assert(b as i8 == (if b < 128 {
            b as i16
        } else {
            (b as i16 - 256i16) as i16
        })) by (bit_vector);
        name[i] = b as i8;
        i = i + 1;
    }
    name
}

/// Which memory types pass the filter and have all the properties.
pub open spec fn suitable_types(types: Seq<u32>, type_filter: u32, properties: u32) -> Seq<bool> {
    Seq::new(
        types.len(),
        |i: int| type_filter & (1u32 << (i as u32)) != 0 && types[i] & properties == properties,
    )
}

/// Find a memory type that satisfies the requirements: the first that the
/// filter admits and that has all the properties.
///
/// `types` holds the property flags of each memory type.
pub fn find_memory_type(types: &[u32], type_filter: u32, properties: u32) -> (index: Option<u32>)
    requires
        types@.len() <= 32,
    ensures
        match index {
            Some(i) => first_true(suitable_types(types@, type_filter, properties)) == Some(
                i as int,
            ),
            None => first_true(suitable_types(types@, type_filter, properties)) is None,
        },
{
    let ghost flags = suitable_types(types@, type_filter, properties);
    let mut i: usize = 0;
    while i < types.len()
        invariant
            i <= types@.len() <= 32,
            flags == suitable_types(types@, type_filter, properties),
            first_true(flags) == first_true_from(flags, i as int),
        decreases types@.len() - i,
    {
        if type_filter & (1u32 << i) != 0 && types[i] & properties == properties {
            return Some(i as u32);
        }
        i = i + 1;
    }
    None
}

/// The memory type that a video session gets: one with the preferred properties, or else any
/// that passes the filter.
pub open spec fn session_memory_choice(types: Seq<u32>, type_filter: u32, preferred: u32) -> Option<
    int,
> {
    let first = first_true(suitable_types(types, type_filter, preferred));
    if first is Some {
        first
    } else {
        first_true(suitable_types(types, type_filter, 0))
    }
}

/// Find a memory type for a video session: one with the preferred properties,
/// or else any that the filter admits.
pub fn find_session_memory_type(types: &[u32], type_filter: u32, preferred: u32) -> (index: Option<
    u32,
>)
    requires
        types@.len() <= 32,
    ensures
        ({
            let first = first_true(suitable_types(types@, type_filter, preferred));
            let choice = if first is Some {
                first
            } else {
                first_true(suitable_types(types@, type_filter, 0))
            };
            match index {
                Some(i) => choice == Some(i as int),
                None => choice is None,
            }
        }),
        match index {
            Some(i) => session_memory_choice(types@, type_filter, preferred) == Some(i as int),
            None => session_memory_choice(types@, type_filter, preferred) is None,
        },
{
    match find_memory_type(types, type_filter, preferred) {
        Some(i) => Some(i),
        None => find_memory_type(types, type_filter, 0),
    }
}

/// Find a memory type that satisfies the requirements, or fail with a message.
pub fn require_memory_type(
    types: &[u32],
    type_filter: u32,
    properties: u32,
    message: &str,
) -> (index: Result<u32, PixelForgeError>)
    requires
        types@.len() <= 32,
    ensures
        match index {
            Ok(i) => first_true(suitable_types(types@, type_filter, properties)) == Some(i as int),
            Err(e) => first_true(suitable_types(types@, type_filter, properties)) is None
                && e.is_memory_allocation(message@),
        },
{
    match find_memory_type(types, type_filter, properties) {
        Some(i) => Ok(i),
        None => Err(PixelForgeError::MemoryAllocation(message.to_string())),
    }
}

/// The message that a video session has no memory type.
pub open spec fn no_session_memory(type_filter: u32) -> Seq<char> {
    "No suitable memory type for video session (type_bits: 0x"@ + hexadecimal(type_filter as nat)
        + ")"@
}

/// Find a memory type for a video session, or fail.
pub fn require_session_memory_type(types: &[u32], type_filter: u32, preferred: u32) -> (index:
    Result<u32, PixelForgeError>)
    requires
        types@.len() <= 32,
    ensures
        ({
            let first = first_true(suitable_types(types@, type_filter, preferred));
            let choice = if first is Some {
                first
            } else {
                first_true(suitable_types(types@, type_filter, 0))
            };
            match index {
                Ok(i) => choice == Some(i as int),
                Err(e) => choice is None && e.is_memory_allocation(no_session_memory(type_filter)),
            }
        }),
        match index {
            Ok(i) => session_memory_choice(types@, type_filter, preferred) == Some(i as int),
            Err(_) => session_memory_choice(types@, type_filter, preferred) is None,
        },
{
    match find_session_memory_type(types, type_filter, preferred) {
        Some(i) => Ok(i),
        None => {
            let mut message =
                "No suitable memory type for video session (type_bits: 0x".to_string();
            append_hexadecimal(&mut message, type_filter as u64);
            message.append(")");
            Err(PixelForgeError::MemoryAllocation(message))
        },
    }
}

/// A memory type that is found passes the filter and has the properties.
pub proof fn law_memory_type_is_suitable(types: Seq<u32>, type_filter: u32, properties: u32)
    ensures
        match first_true(suitable_types(types, type_filter, properties)) {
            Some(i) => 0 <= i < types.len() && type_filter & (1u32 << (i as u32)) != 0 && types[i]
                & properties == properties,
            None => forall|i: int|
                0 <= i < types.len() ==> type_filter & (1u32 << (i as u32)) == 0 || (
                #[trigger] types[i]) & properties != properties,
        },
{
    let flags = suitable_types(types, type_filter, properties);
    lemma_first_true(flags);
    if first_true(flags) is None {
        assert forall|i: int| 0 <= i < types.len() implies type_filter & (1u32 << (i as u32)) == 0
            || (#[trigger] types[i]) & properties != properties by {
            assert(!flags[i]);
        }
    }
}

/// The queue families that are there, without repetition.
pub open spec fn distinct_families(encode: Option<u32>, transfer: u32, compute: u32) -> Seq<u32> {
    let first = match encode {
        Some(e) => seq![e],
        None => seq![],
    };
    let second = if first.contains(transfer) {
        first
    } else {
        first.push(transfer)
    };
    if second.contains(compute) {
        second
    } else {
        second.push(compute)
    }
}

/// No queue family is listed twice, and all of them are listed.
pub proof fn law_families_are_distinct(encode: Option<u32>, transfer: u32, compute: u32)
    ensures
        distinct_families(encode, transfer, compute).no_duplicates(),
        distinct_families(encode, transfer, compute).contains(transfer),
        distinct_families(encode, transfer, compute).contains(compute),
        encode is Some ==> distinct_families(encode, transfer, compute).contains(encode->0),
{
    let all = distinct_families(encode, transfer, compute);
    let first = match encode {
        Some(e) => seq![e],
        None => seq![],
    };
    let second = if first.contains(transfer) {
        first
    } else {
        first.push(transfer)
    };
    assert(encode is Some ==> first[0] == encode->0);
    if !first.contains(transfer) {
        assert(second[second.len() - 1] == transfer);
        assert(encode is Some ==> second[0] == encode->0);
    }
    assert(second.contains(transfer));
    let t = choose|t: int| 0 <= t < second.len() && second[t] == transfer;
    assert(all[t] == transfer);
    if !second.contains(compute) {
        assert(all[all.len() - 1] == compute);
        assert(forall|i: int| 0 <= i < second.len() ==> second[i] != compute);
    }
    assert(forall|i: int| 0 <= i < first.len() && !first.contains(transfer) ==> first[i] != transfer);
    assert(encode is Some ==> all[0] == encode->0);
}

fn has_family(families: &Vec<u32>, family: u32) -> (found: bool)
    ensures
        found == families@.contains(family),
{
    let mut i: usize = 0;
    while i < families.len()
        invariant
            i <= families@.len(),
            forall|k: int| 0 <= k < i ==> families@[k] != family,
        decreases families@.len() - i,
    {
        if families[i] == family {
            return true;
        }
        i = i + 1;
    }
    false
}

/// Collect unique queue families.
pub fn unique_families(encode: Option<u32>, transfer: u32, compute: u32) -> (families: Vec<u32>)
    ensures
        families@ == distinct_families(encode, transfer, compute),
{
    let mut families: Vec<u32> = Vec::new();
    if let Some(encode_family) = encode {
        families.push(encode_family);
    }
    assert(families@ =~= match encode {
        Some(e) => seq![e],
        None => seq![],
    });
    if !has_family(&families, transfer) {
        families.push(transfer);
    }
    if !has_family(&families, compute) {
        families.push(compute);
    }
    families
}

/// Queue families that share an image: none if one family has it for itself.
///
/// Input images are shared when several queue families need access: the video
/// encode queue (for encoding), the transfer queue (for uploads) and the compute
/// queue (for color conversion). DPB images are never shared.
pub open spec fn sharing_families(
    is_dpb: bool,
    encode: Option<u32>,
    transfer: u32,
    compute: u32,
) -> Seq<u32> {
    if is_dpb || encode is None || distinct_families(encode, transfer, compute).len() <= 1 {
        Seq::empty()
    } else {
        distinct_families(encode, transfer, compute)
    }
}

/// Choose the queue families that share an image.
pub fn image_sharing(is_dpb: bool, encode: Option<u32>, transfer: u32, compute: u32) -> (families:
    Vec<u32>)
    ensures
        families@ == sharing_families(is_dpb, encode, transfer, compute),
{
    if is_dpb || encode.is_none() {
        return Vec::new();
    }
    let families: Vec<u32> = unique_families(encode, transfer, compute);
    if families.len() > 1 {
        families
    } else {
        Vec::new()
    }
}

/// Dimensions of the chroma plane in a transfer.
pub open spec fn chroma_extent(format: PixelFormat, width: u32, height: u32) -> (u32, u32) {
    match format {
        PixelFormat::Yuv444 => (width, height),
        _ => (width / 2, height / 2),
    }
}

fn chroma_dimensions(format: PixelFormat, width: u32, height: u32) -> (extent: (u32, u32))
    ensures
        extent == chroma_extent(format, width, height),
{
    match format {
        PixelFormat::Yuv444 => (width, height),
        _ => (width / 2, height / 2),
    }
}

/// Size in bytes of the luma plane when an image is cleared; for 4:4:4 it is
/// padded to a multiple of 4.
pub open spec fn clear_luma_size(format: PixelFormat, depth: BitDepth, luma: int) -> int {
    match format {
        PixelFormat::Yuv444 => aligned4(sample_bytes(depth, luma)),
        _ => sample_bytes(depth, luma),
    }
}

/// Size in bytes of the chroma plane when an image is cleared.
pub open spec fn clear_chroma_size(
    format: PixelFormat,
    depth: BitDepth,
    width: u32,
    height: u32,
) -> int {
    let samples = match format {
        PixelFormat::Yuv420 => (width / 2) * (height / 2),
        PixelFormat::Yuv422 => (width / 2) * height,
        PixelFormat::Yuv444 => width * height,
    };
    sample_bytes(depth, samples * 2)
}

/// How an input image is cleared: the size of a buffer of zeros, and the steps
/// that copy it.
#[derive(Debug)]
pub struct ClearPlan {
    /// Size in bytes of the buffer of zeros.
    pub total_size: u64,
    /// The steps.
    pub steps: Vec<Step>,
}

/// The steps that clear an input image.
pub open spec fn clearing(
    width: u32,
    height: u32,
    format: PixelFormat,
    depth: BitDepth,
) -> Seq<StepModel> {
    let chroma = chroma_extent(format, width, height);
    seq![
        StepModel::ImageBarrier(
            ImageBarrier {
                image: ImageRole::Target,
                old_layout: ImageLayout::Undefined,
                new_layout: ImageLayout::TransferDstOptimal,
                src_access: AccessMask::Empty,
                dst_access: AccessMask::TransferWrite,
                src_stage: PipelineStage::TopOfPipe,
                dst_stage: PipelineStage::Transfer,
            },
        ),
        StepModel::CopyBuffer(
            seq![
                PlaneCopy { buffer_offset: 0, plane: ImagePlane::Plane0, width, height },
                PlaneCopy {
                    buffer_offset: clear_luma_size(format, depth, width * height) as u64,
                    plane: ImagePlane::Plane1,
                    width: chroma.0,
                    height: chroma.1,
                },
            ],
        ),
        StepModel::ImageBarrier(
            ImageBarrier {
                image: ImageRole::Target,
                old_layout: ImageLayout::TransferDstOptimal,
                new_layout: ImageLayout::VideoEncodeSrc,
                src_access: AccessMask::TransferWrite,
                dst_access: AccessMask::Empty,
                src_stage: PipelineStage::Transfer,
                dst_stage: PipelineStage::BottomOfPipe,
            },
        ),
    ]
}

/// The sizes that clearing an input image takes have 32 bits.
pub open spec fn clear_sizes_fit(
    width: u32,
    height: u32,
    format: PixelFormat,
    depth: BitDepth,
) -> bool {
    &&& sample_bytes(depth, width * height) <= u32::MAX
    &&& clear_luma_size(format, depth, width * height) + clear_chroma_size(
        format,
        depth,
        width,
        height,
    ) <= u32::MAX
    &&& format == PixelFormat::Yuv444 ==> sample_bytes(depth, width * height) + 3 <= usize::MAX
}

/// Whether the sizes that clearing an input image takes have 32 bits.
pub fn can_clear_input_image(
    width: u32,
    height: u32,
    pixel_format: PixelFormat,
    bit_depth: BitDepth,
) -> (can: bool)
    ensures
        can == clear_sizes_fit(width, height, pixel_format, bit_depth),
{
    let bytes_per_component: u128 = match bit_depth {
        BitDepth::Eight => 1,
        BitDepth::Ten => 2,
    };
    let w: u128 = width as u128;
    let h: u128 = height as u128;
    proof {
        lemma_product_bounds(width, height);
        assert(width * height <= u32::MAX * u32::MAX) by (nonlinear_arith)
            requires
                0 <= width <= u32::MAX,
                0 <= height <= u32::MAX,
        ;
    }
    let luma: u128 = w * h * bytes_per_component;
    let padded: u128 = match pixel_format {
        PixelFormat::Yuv444 => (luma + 3) / 4 * 4,
        _ => luma,
    };
    let chroma: u128 = match pixel_format {
        PixelFormat::Yuv420 => (w / 2) * (h / 2) * 2 * bytes_per_component,
        PixelFormat::Yuv422 => (w / 2) * h * 2 * bytes_per_component,
        PixelFormat::Yuv444 => w * h * 2 * bytes_per_component,
    };
    let room: bool = match pixel_format {
        PixelFormat::Yuv444 => luma + 3 <= usize::MAX as u128,
        _ => true,
    };
    luma <= u32::MAX as u128 && padded + chroma <= u32::MAX as u128 && room
}

/// Clear the input image by filling it with zeros via a staging buffer.
///
/// This must be done once after creating the input image to ensure the padding
/// region (between the user dimensions and the aligned coded extent) contains
/// defined values.
pub fn clear_input_image(
    width: u32,
    height: u32,
    pixel_format: PixelFormat,
    bit_depth: BitDepth,
) -> (plan: ClearPlan)
    requires
        clear_sizes_fit(width, height, pixel_format, bit_depth),
    ensures
        plan.total_size == clear_luma_size(pixel_format, bit_depth, width * height)
            + clear_chroma_size(pixel_format, bit_depth, width, height),
        modelled(plan.steps@) == clearing(width, height, pixel_format, bit_depth),
{
    let bytes_per_component: u32 = match bit_depth {
        BitDepth::Eight => 1,
        BitDepth::Ten => 2,
    };
    let ghost luma = width * height;
    proof {
        lemma_product_bounds(width, height);
    }
    let plane0_raw: usize = (width * height * bytes_per_component) as usize;
    let plane0_size: u32 = match pixel_format {
        PixelFormat::Yuv444 => align4(plane0_raw) as u32,
        _ => plane0_raw as u32,
    };
    let plane1_size: u32 = match pixel_format {
        // UV plane is half width, half height, 2 components per pixel.
        PixelFormat::Yuv420 => (width / 2) * (height / 2) * 2 * bytes_per_component,
        // UV plane is half width, full height, 2 components per pixel.
        PixelFormat::Yuv422 => (width / 2) * height * 2 * bytes_per_component,
        // UV plane is full width, full height, 2 components per pixel.
        PixelFormat::Yuv444 => width * height * 2 * bytes_per_component,
    };
    let total_size: u64 = (plane0_size + plane1_size) as u64;
    let chroma = chroma_dimensions(pixel_format, width, height);
    let copies: Vec<PlaneCopy> = vec![
        PlaneCopy { buffer_offset: 0, plane: ImagePlane::Plane0, width, height },
        PlaneCopy {
            buffer_offset: plane0_size as u64,
            plane: ImagePlane::Plane1,
            width: chroma.0,
            height: chroma.1,
        },
    ];
    let mut steps: Vec<Step> = Vec::new();
    steps.push(
        Step::ImageBarrier(
            ImageBarrier {
                image: ImageRole::Target,
                old_layout: ImageLayout::Undefined,
                new_layout: ImageLayout::TransferDstOptimal,
                src_access: AccessMask::Empty,
                dst_access: AccessMask::TransferWrite,
                src_stage: PipelineStage::TopOfPipe,
                dst_stage: PipelineStage::Transfer,
            },
        ),
    );
    steps.push(Step::CopyBuffer(copies));
    steps.push(
        Step::ImageBarrier(
            ImageBarrier {
                image: ImageRole::Target,
                old_layout: ImageLayout::TransferDstOptimal,
                new_layout: ImageLayout::VideoEncodeSrc,
                src_access: AccessMask::TransferWrite,
                dst_access: AccessMask::Empty,
                src_stage: PipelineStage::Transfer,
                dst_stage: PipelineStage::BottomOfPipe,
            },
        ),
    );
    proof {
        let model = modelled(steps@);
        let expected = clearing(width, height, pixel_format, bit_depth);
        assert(model[1]->CopyBuffer_0 =~= expected[1]->CopyBuffer_0);
        assert(model =~= expected);
    }
    ClearPlan { total_size, steps }
}

proof fn lemma_product_bounds(width: u32, height: u32)
    ensures
        0 <= width * height,
        0 <= (width / 2) * height <= width * height,
        0 <= (width / 2) * (height / 2) <= width * height,
{
    assert(0 <= width * height && 0 <= (width / 2) * height <= width * height && 0 <= (width / 2)
        * (height / 2) <= width * height) by (nonlinear_arith)
        requires
            0 <= width / 2 <= width,
            0 <= height / 2 <= height,
    ;
}

/// The steps that copy an image to an encoder's input image.
pub open spec fn uploading(
    width: u32,
    height: u32,
    format: PixelFormat,
    input_layout: ImageLayout,
) -> Seq<StepModel> {
    let chroma = chroma_extent(format, width, height);
    seq![
        StepModel::ImageBarrier(
            ImageBarrier {
                image: ImageRole::Source,
                old_layout: ImageLayout::General,
                new_layout: ImageLayout::TransferSrcOptimal,
                src_access: AccessMask::MemoryReadWrite,
                dst_access: AccessMask::TransferRead,
                src_stage: PipelineStage::TopOfPipe,
                dst_stage: PipelineStage::Transfer,
            },
        ),
        StepModel::ImageBarrier(
            ImageBarrier {
                image: ImageRole::Target,
                old_layout: input_layout,
                new_layout: ImageLayout::TransferDstOptimal,
                src_access: AccessMask::Empty,
                dst_access: AccessMask::TransferWrite,
                src_stage: PipelineStage::TopOfPipe,
                dst_stage: PipelineStage::Transfer,
            },
        ),
        StepModel::CopyImage(
            seq![
                PlaneExtent { plane: ImagePlane::Plane0, width, height },
                PlaneExtent { plane: ImagePlane::Plane1, width: chroma.0, height: chroma.1 },
            ],
        ),
        StepModel::ImageBarrier(
            ImageBarrier {
                image: ImageRole::Target,
                old_layout: ImageLayout::TransferDstOptimal,
                new_layout: ImageLayout::VideoEncodeSrc,
                src_access: AccessMask::TransferWrite,
                dst_access: AccessMask::Empty,
                src_stage: PipelineStage::Transfer,
                dst_stage: PipelineStage::BottomOfPipe,
            },
        ),
        StepModel::ImageBarrier(
            ImageBarrier {
                image: ImageRole::Source,
                old_layout: ImageLayout::TransferSrcOptimal,
                new_layout: ImageLayout::General,
                src_access: AccessMask::TransferRead,
                dst_access: AccessMask::MemoryReadWrite,
                src_stage: PipelineStage::Transfer,
                dst_stage: PipelineStage::BottomOfPipe,
            },
        ),
    ]
}

/// Upload an image to the encoder's input image via GPU-to-GPU copy.
///
/// The source image goes from the general layout to the transfer source layout
/// and back; the input image goes from `input_image_layout` to the layout of an
/// encoder's input.
pub fn upload_image_to_input(
    width: u32,
    height: u32,
    pixel_format: PixelFormat,
    input_image_layout: ImageLayout,
) -> (steps: Vec<Step>)
    ensures
        modelled(steps@) == uploading(width, height, pixel_format, input_image_layout),
{
    let chroma = chroma_dimensions(pixel_format, width, height);
    let planes: Vec<PlaneExtent> = vec![
        PlaneExtent { plane: ImagePlane::Plane0, width, height },
        PlaneExtent { plane: ImagePlane::Plane1, width: chroma.0, height: chroma.1 },
    ];
    let mut steps: Vec<Step> = Vec::new();
    steps.push(
        Step::ImageBarrier(
            ImageBarrier {
                image: ImageRole::Source,
                old_layout: ImageLayout::General,
                new_layout: ImageLayout::TransferSrcOptimal,
                src_access: AccessMask::MemoryReadWrite,
                dst_access: AccessMask::TransferRead,
                src_stage: PipelineStage::TopOfPipe,
                dst_stage: PipelineStage::Transfer,
            },
        ),
    );
    steps.push(
        Step::ImageBarrier(
            ImageBarrier {
                image: ImageRole::Target,
                old_layout: input_image_layout,
                new_layout: ImageLayout::TransferDstOptimal,
                src_access: AccessMask::Empty,
                dst_access: AccessMask::TransferWrite,
                src_stage: PipelineStage::TopOfPipe,
                dst_stage: PipelineStage::Transfer,
            },
        ),
    );
    steps.push(Step::CopyImage(planes));
    steps.push(
        Step::ImageBarrier(
            ImageBarrier {
                image: ImageRole::Target,
                old_layout: ImageLayout::TransferDstOptimal,
                new_layout: ImageLayout::VideoEncodeSrc,
                src_access: AccessMask::TransferWrite,
                dst_access: AccessMask::Empty,
                src_stage: PipelineStage::Transfer,
                dst_stage: PipelineStage::BottomOfPipe,
            },
        ),
    );
    steps.push(
        Step::ImageBarrier(
            ImageBarrier {
                image: ImageRole::Source,
                old_layout: ImageLayout::TransferSrcOptimal,
                new_layout: ImageLayout::General,
                src_access: AccessMask::TransferRead,
                dst_access: AccessMask::MemoryReadWrite,
                src_stage: PipelineStage::Transfer,
                dst_stage: PipelineStage::BottomOfPipe,
            },
        ),
    );
    proof {
        let model = modelled(steps@);
        let expected = uploading(width, height, pixel_format, input_image_layout);
        assert(model[2]->CopyImage_0 =~= expected[2]->CopyImage_0);
        assert(model =~= expected);
    }
    steps
}

/// Clearing takes the input image from any layout, and uploading from the layout
/// that it is said to be in, to the layout of an encoder's input; uploading
/// leaves the source image in the general layout in which it found it.
pub proof fn law_input_image_is_ready(
    width: u32,
    height: u32,
    format: PixelFormat,
    depth: BitDepth,
    layout: ImageLayout,
)
    ensures
        moves_layouts(
            clearing(width, height, format, depth),
            Layouts { source: layout, target: layout },
            Layouts { source: layout, target: ImageLayout::VideoEncodeSrc },
        ),
        moves_layouts(
            uploading(width, height, format, layout),
            Layouts { source: ImageLayout::General, target: layout },
            Layouts { source: ImageLayout::General, target: ImageLayout::VideoEncodeSrc },
        ),
{
    reveal_with_fuel(layouts_after, 6);
}

/// The image and array layer of a DPB slot.
///
/// A layered DPB is one image with a layer for each slot; otherwise each slot
/// has an image of its own.
#[derive(Debug, Clone, Copy, PartialEq, Eq, Structural)]
pub struct DpbPlace {
    /// Index of the image.
    pub image: usize,
    /// Array layer.
    pub layer: u32,
}

/// Where a DPB slot is.
pub open spec fn dpb_place_of(layered: bool, slot: u8) -> DpbPlace {
    if layered {
        DpbPlace { image: 0, layer: slot as u32 }
    } else {
        DpbPlace { image: slot as usize, layer: 0 }
    }
}

/// Find the image and array layer of a DPB slot.
pub fn dpb_place(use_layered_dpb: bool, slot: u8) -> (place: DpbPlace)
    ensures
        place == dpb_place_of(use_layered_dpb, slot),
{
    if use_layered_dpb {
        DpbPlace { image: 0, layer: slot as u32 }
    } else {
        DpbPlace { image: slot as usize, layer: 0 }
    }
}

/// Two slots are in the same place only if they are the same slot.
pub proof fn law_dpb_places_differ(layered: bool, a: u8, b: u8)
    ensures
        dpb_place_of(layered, a) == dpb_place_of(layered, b) <==> a == b,
{
}

/// What an image of an encoder is used for.
#[derive(Debug, Clone, Copy, PartialEq, Eq, Structural)]
pub enum EncodeImageUsage {
    /// Reconstructed pictures.
    Dpb,
    /// Input pictures, which are also copied to.
    SrcAndTransferDst,
}

/// How to create an image of an encoder.
#[derive(Debug)]
pub struct EncodeImagePlan {
    /// What the image is used for.
    pub usage: EncodeImageUsage,
    /// Queue families that share the image; none if one has it for itself.
    pub sharing_families: Vec<u32>,
    /// Number of array layers.
    pub array_layers: u32,
}

/// Plan an image for video encoding (input or DPB).
pub fn create_image(is_dpb: bool, encode: Option<u32>, transfer: u32, compute: u32) -> (plan:
    EncodeImagePlan)
    ensures
        plan.usage == if is_dpb {
            EncodeImageUsage::Dpb
        } else {
            EncodeImageUsage::SrcAndTransferDst
        },
        plan.sharing_families@ == sharing_families(is_dpb, encode, transfer, compute),
        plan.array_layers == 1,
{
    EncodeImagePlan {
        usage: if is_dpb {
            EncodeImageUsage::Dpb
        } else {
            EncodeImageUsage::SrcAndTransferDst
        },
        sharing_families: image_sharing(is_dpb, encode, transfer, compute),
        array_layers: 1,
    }
}

/// How to create the images of a DPB.
#[derive(Debug)]
pub struct DpbImagesPlan {
    /// Number of images.
    pub image_count: usize,
    /// Number of array layers of each image.
    pub array_layers: u32,
    /// What the image view of each slot shows.
    pub views: Vec<DpbPlace>,
}

impl DpbImagesPlan {
    /// The plan is that of a DPB with this many slots.
    pub open spec fn plans(self, count: int, layered: bool) -> bool {
        &&& self.image_count == if layered {
            1
        } else {
            count
        }
        &&& self.array_layers == if layered {
            count
        } else {
            1
        }
        &&& self.views@ =~= Seq::new(count as nat, |i: int| dpb_place_of(layered, i as u8))
    }
}

/// Plan DPB images for video encoding.
///
/// When `use_layered` is true (required when the driver does not support separate
/// reference images), there is a single image with an array layer and a view for
/// each slot. Otherwise each slot has an image and a view of its own.
pub fn create_dpb_images(count: usize, use_layered: bool) -> (plan: DpbImagesPlan)
    requires
        count <= 256,
    ensures
        plan.plans(count as int, use_layered),
{
    let mut views: Vec<DpbPlace> = Vec::new();
    let mut i: usize = 0;
    while i < count
        invariant
            i <= count <= 256,
            views@ =~= Seq::new(i as nat, |j: int| dpb_place_of(use_layered, j as u8)),
        decreases count - i,
    {
        views.push(dpb_place(use_layered, i as u8));
        i = i + 1;
    }
    DpbImagesPlan {
        image_count: if use_layered {
            1
        } else {
            count
        },
        array_layers: if use_layered {
            count as u32
        } else {
            1
        },
        views,
    }
}

/// The view of each slot shows a layer of an image that is there, and barriers on
/// the slot are on that layer.
pub proof fn law_dpb_views_show_their_slots(
    plan: DpbImagesPlan,
    count: int,
    layered: bool,
    slot: u8,
    active: bool,
)
    requires
        plan.plans(count, layered),
        slot < count <= 256,
    ensures
        plan.views@[slot as int].image < plan.image_count,
        plan.views@[slot as int].layer < plan.array_layers,
        setup_barrier(layered, slot, active).place == plan.views@[slot as int],
        reference_barrier(layered, slot).place == plan.views@[slot as int],
{
}

/// A barrier on a DPB slot, which leaves it in the DPB layout.
#[derive(Debug, Clone, Copy, PartialEq, Eq, Structural)]
pub struct DpbBarrier {
    /// Where the slot is.
    pub place: DpbPlace,
    /// The layout that the slot is in.
    pub old_layout: ImageLayout,
    /// Accesses before the barrier.
    pub src_access: AccessMask,
    /// Accesses after the barrier.
    pub dst_access: AccessMask,
}

/// Barrier on the slot that is written. Only on its first use its contents are
/// given up; after that it is already in the DPB layout.
pub open spec fn setup_barrier(layered: bool, slot: u8, active: bool) -> DpbBarrier {
    DpbBarrier {
        place: dpb_place_of(layered, slot),
        old_layout: if active {
            ImageLayout::VideoEncodeDpb
        } else {
            ImageLayout::Undefined
        },
        src_access: AccessMask::Empty,
        dst_access: AccessMask::Empty,
    }
}

/// Barrier that makes what was written to a slot visible to reads.
pub open spec fn reference_barrier(layered: bool, slot: u8) -> DpbBarrier {
    DpbBarrier {
        place: dpb_place_of(layered, slot),
        old_layout: ImageLayout::VideoEncodeDpb,
        src_access: AccessMask::MemoryWrite,
        dst_access: AccessMask::MemoryRead,
    }
}

/// The barrier makes what was written to a DPB slot visible to reads. A layered DPB has the
/// slot in that layer of its one image, any other in an image of its own.
pub open spec fn shows_slot(barrier: DpbBarrier, layered: bool, slot: u8) -> bool {
    &&& barrier.place == if layered {
        DpbPlace { image: 0, layer: slot as u32 }
    } else {
        DpbPlace { image: slot as usize, layer: 0 }
    }
    &&& barrier.old_layout == ImageLayout::VideoEncodeDpb
    &&& barrier.src_access == AccessMask::MemoryWrite
    &&& barrier.dst_access == AccessMask::MemoryRead
}

/// Plan the DPB image barriers for an encode.
///
/// Transitions the setup DPB slot to the DPB layout and adds execution barriers
/// for the slots of references.
pub fn record_dpb_barriers(
    use_layered_dpb: bool,
    current_dpb_slot: u8,
    reference_dpb_slots: &[u8],
    setup_slot_active: bool,
) -> (barriers: Vec<DpbBarrier>)
    ensures
        barriers@ == seq![setup_barrier(use_layered_dpb, current_dpb_slot, setup_slot_active)]
            + reference_dpb_slots@.map_values(|slot: u8| reference_barrier(use_layered_dpb, slot)),
{
    let mut barriers: Vec<DpbBarrier> = Vec::new();
    barriers.push(
        DpbBarrier {
            place: dpb_place(use_layered_dpb, current_dpb_slot),
            old_layout: if setup_slot_active {
                ImageLayout::VideoEncodeDpb
            } else {
                ImageLayout::Undefined
            },
            src_access: AccessMask::Empty,
            dst_access: AccessMask::Empty,
        },
    );
    let mut i: usize = 0;
    while i < reference_dpb_slots.len()
        invariant
            i <= reference_dpb_slots@.len(),
            barriers@ =~= seq![setup_barrier(use_layered_dpb, current_dpb_slot, setup_slot_active)]
                + reference_dpb_slots@.take(i as int).map_values(
                |slot: u8| reference_barrier(use_layered_dpb, slot),
            ),
        decreases reference_dpb_slots@.len() - i,
    {
        barriers.push(record_post_encode_dpb_barrier(use_layered_dpb, reference_dpb_slots[i]));
        i = i + 1;
    }
    assert(reference_dpb_slots@.take(i as int) =~= reference_dpb_slots@);
    barriers
}

/// Plan a post-encode DPB synchronization barrier.
///
/// Ensures the DPB image write from the encode operation is visible to subsequent
/// reads (e.g. as a reference frame for the next encode).
pub fn record_post_encode_dpb_barrier(use_layered_dpb: bool, current_dpb_slot: u8) -> (barrier:
    DpbBarrier)
    ensures
        barrier == reference_barrier(use_layered_dpb, current_dpb_slot),
{
    DpbBarrier {
        place: dpb_place(use_layered_dpb, current_dpb_slot),
        old_layout: ImageLayout::VideoEncodeDpb,
        src_access: AccessMask::MemoryWrite,
        dst_access: AccessMask::MemoryRead,
    }
}

/// Read the bitstream of an encode from its buffer.
///
/// `offset` and `bytes_written` are what the encode reported.
pub fn read_bitstream(buffer: &[u8], offset: u32, bytes_written: u32) -> (data: Result<
    Vec<u8>,
    PixelForgeError,
>)
    requires
        offset + bytes_written <= buffer@.len(),
    ensures
        match data {
            Ok(bytes) => bytes_written > 0 && bytes@ == buffer@.subrange(
                offset as int,
                offset + bytes_written,
            ),
            Err(e) => bytes_written == 0 && (e matches PixelForgeError::QueryPool(m) && m@
                == "Encoder produced 0 bytes"@),
        },
{
    if bytes_written == 0 {
        return Err(PixelForgeError::QueryPool("Encoder produced 0 bytes".to_string()));
    }
    let start: usize = offset as usize;
    let size: usize = bytes_written as usize;
    let mut bytes: Vec<u8> = Vec::new();
    let len: usize = buffer.len();
    let mut i: usize = 0;
    while i < size
        invariant
            i <= size,
            start + size <= len,
            len == buffer@.len(),
            bytes@ =~= buffer@.subrange(start as int, start + i),
        decreases size - i,
    {
        bytes.push(buffer[start + i]);
        i = i + 1;
    }
    Ok(bytes)
}

/// Input images are shared by all queue families that work on them, if there are several.
/// Images of the DPB are not shared, nor are images of a device without an encode queue.
pub proof fn law_sharing(is_dpb: bool, encode: Option<u32>, transfer: u32, compute: u32)
    ensures
        ({
            let families = sharing_families(is_dpb, encode, transfer, compute);
            let several = encode is Some && !(encode->Some_0 == transfer && transfer == compute);
            &&& is_dpb || !several ==> families.len() == 0
            &&& !is_dpb && several ==> {
                &&& 2 <= families.len() <= 3
                &&& families.no_duplicates()
                &&& families.contains(encode->Some_0)
                &&& families.contains(transfer)
                &&& families.contains(compute)
            }
        }),
{
    law_families_are_distinct(encode, transfer, compute);
    let all = distinct_families(encode, transfer, compute);
    if encode is Some {
        let first = seq![encode->Some_0];
        assert(first.contains(transfer) <==> encode->Some_0 == transfer) by {
            assert(first[0] == encode->Some_0);
        }
        if encode->Some_0 == transfer {
            assert(first.contains(compute) <==> transfer == compute) by {
                assert(first[0] == transfer);
            }
        }
    }
}

/// A byte as a character of C is the number with the same eight bits.
pub proof fn law_characters_keep_their_bits(b: u8)
    ensures
        -128 <= as_char(b) < 128,
        as_char(b) as int % 256 == b,
{
}

/// The memory type of a video session passes the filter. It has the preferred properties if
/// any type that passes has them, and there is one if any type passes.
pub proof fn law_session_memory_is_suitable(
    types: Seq<u32>,
    type_filter: u32,
    preferred: u32,
    j: int,
)
    requires
        0 <= j < types.len(),
        type_filter & (1u32 << (j as u32)) != 0,
    ensures
        match session_memory_choice(types, type_filter, preferred) {
            Some(i) => {
                &&& 0 <= i < types.len()
                &&& type_filter & (1u32 << (i as u32)) != 0
                &&& types[j] & preferred == preferred ==> types[i] & preferred == preferred
            },
            None => false,
        },
{
    law_memory_type_is_suitable(types, type_filter, preferred);
    law_memory_type_is_suitable(types, type_filter, 0);
    let t = types[j];
    assert(t & 0u32 == 0u32) by (bit_vector);
}

} // verus!
