//! Negotiation of a video session with what the device reports.

use super::arithmetic::{
    align_up, aligned_up, divides, gcd, law_align_up_is_least, law_lcm_is_least, lcm, lcm_of,
};
use super::dpb::MAX_DPB_SLOTS;
use super::{Codec, Dimensions, EncodeConfig, PixelFormat};
use crate::encoder::resources::get_video_format;
use crate::error::PixelForgeError;
use crate::image::two_plane_format;
use crate::text::{append_decimal, decimal};
use crate::vk::{
    describe_format, describe_status, describe_usage, format_text, status_text, PictureUsage,
    SUCCESS,
};
use vstd::prelude::*;

verus! {

/// Video capabilities of a device for a profile.
#[derive(Debug, Clone, Copy, PartialEq, Eq, Structural)]
pub struct VideoCapabilities {
    /// Granularity at which pictures are accessed.
    pub picture_access_granularity: Dimensions,
    /// Smallest coded extent.
    pub min_coded_extent: Dimensions,
    /// Largest coded extent.
    pub max_coded_extent: Dimensions,
    /// Number of DPB slots.
    pub max_dpb_slots: u32,
    /// Number of reference pictures that a picture can use.
    pub max_active_reference_pictures: u32,
    /// Whether each DPB slot can have an image of its own.
    pub separate_reference_images: bool,
}

/// What the device reports for a profile.
#[derive(Debug)]
pub struct DeviceReport {
    /// The capabilities, or the status code of the query if it failed.
    pub capabilities: Result<VideoCapabilities, i32>,
    /// Numbers of the formats of input pictures.
    pub src_formats: Result<Vec<i32>, PixelForgeError>,
    /// Numbers of the formats of reconstructed pictures.
    pub dpb_formats: Result<Vec<i32>, PixelForgeError>,
    /// Queue family for encoding.
    pub encode_queue_family: Option<u32>,
}

/// A video session, as it is to be created.
#[derive(Debug, Clone, Copy, PartialEq, Eq, Structural)]
pub struct SessionPlan {
    /// Coded extent: the dimensions, aligned.
    pub coded_extent: Dimensions,
    /// Number of the format of input pictures.
    pub picture_format: i32,
    /// Number of the format of reconstructed pictures.
    pub reference_picture_format: i32,
    /// Number of DPB slots.
    pub dpb_slot_count: usize,
    /// Number of reference pictures that a picture uses at most.
    pub active_reference_count: u32,
    /// Whether the DPB uses a single layered image (true) or separate images (false).
    pub use_layered_dpb: bool,
    /// Queue family for encoding.
    pub encode_queue_family: u32,
}

/// Granularities are at least 1.
pub open spec fn granule(granularity: u32) -> u32 {
    if granularity < 1 {
        1
    } else {
        granularity
    }
}

/// Alignment of a coded dimension: to the codec's blocks and the granularity, as
/// far as that fits.
pub open spec fn alignment_of(block: u32, granularity: u32) -> int {
    let m = lcm_of(block as nat, granule(granularity) as nat);
    if m <= u32::MAX {
        m
    } else {
        u32::MAX as int
    }
}

/// The greater of two numbers.
pub open spec fn greater(a: int, b: int) -> int {
    if a >= b {
        a
    } else {
        b
    }
}

/// The lesser of two numbers.
pub open spec fn lesser(a: int, b: int) -> int {
    if a <= b {
        a
    } else {
        b
    }
}

/// A coded dimension: `size` aligned, and at least `least`. H.264 and H.265 align
/// the result once more.
pub open spec fn coded_size(codec: Codec, size: u32, least: u32, granularity: u32) -> int {
    let alignment = alignment_of(block_size(codec), granularity);
    let aligned = greater(aligned_up(size as int, alignment), least as int);
    if codec == Codec::AV1 {
        aligned
    } else {
        aligned_up(aligned, alignment)
    }
}

/// Size of the blocks that a codec divides a picture into.
pub open spec fn block_size(codec: Codec) -> u32 {
    match codec {
        Codec::H264 => 16,
        Codec::H265 => 32,
        Codec::AV1 => 128,
    }
}

/// The coded width of a picture.
pub open spec fn coded_width(codec: Codec, requested: Dimensions, caps: VideoCapabilities) -> int {
    coded_size(
        codec,
        requested.width,
        caps.min_coded_extent.width,
        caps.picture_access_granularity.width,
    )
}

/// The coded height of a picture.
pub open spec fn coded_height(codec: Codec, requested: Dimensions, caps: VideoCapabilities) -> int {
    coded_size(
        codec,
        requested.height,
        caps.min_coded_extent.height,
        caps.picture_access_granularity.height,
    )
}

/// Both coded dimensions are at most 32 bits wide; for AV1, so are their alignments.
pub open spec fn extent_fits(codec: Codec, requested: Dimensions, caps: VideoCapabilities) -> bool {
    &&& codec == Codec::AV1 ==> {
        &&& lcm_of(128, granule(caps.picture_access_granularity.width) as nat) <= u32::MAX
        &&& lcm_of(128, granule(caps.picture_access_granularity.height) as nat) <= u32::MAX
    }
    &&& coded_width(codec, requested, caps) <= u32::MAX
    &&& coded_height(codec, requested, caps) <= u32::MAX
}

/// `<width>x<height>`.
pub open spec fn extent_text(width: int, height: int) -> Seq<char> {
    decimal(width as nat) + "x"@ + decimal(height as nat)
}

/// The message that the coded extent exceeds what the device can do.
pub open spec fn too_large(
    codec: Codec,
    requested: Dimensions,
    caps: VideoCapabilities,
) -> Seq<char> {
    let start = "Requested coded extent "@ + extent_text(
        requested.width as int,
        requested.height as int,
    ) + " (aligned to "@ + extent_text(
        coded_width(codec, requested, caps),
        coded_height(codec, requested, caps),
    );
    let max = extent_text(
        caps.max_coded_extent.width as int,
        caps.max_coded_extent.height as int,
    );
    if codec == Codec::AV1 {
        start + ") exceeds device max "@ + max
    } else {
        start + " with granularity "@ + extent_text(
            granule(caps.picture_access_granularity.width) as int,
            granule(caps.picture_access_granularity.height) as int,
        ) + ") exceeds device max "@ + max + " for this profile"@
    }
}

fn block_size_of(codec: Codec) -> (block: u32)
    ensures
        block == block_size(codec),
{
    match codec {
        Codec::H264 => 16,
        Codec::H265 => 32,
        Codec::AV1 => 128,
    }
}

fn granule_of(granularity: u32) -> (g: u32)
    ensures
        g == granule(granularity),
{
    if granularity < 1 {
        1
    } else {
        granularity
    }
}

proof fn lemma_alignment(codec: Codec, granularity: u32)
    ensures
        1 <= alignment_of(block_size(codec), granularity) <= u32::MAX,
        alignment_of(block_size(codec), granularity) >= block_size(codec),
{
    let block = block_size(codec);
    let g = granule(granularity);
    law_lcm_is_least(block as nat, g as nat);
    let m = lcm_of(block as nat, g as nat);
    let k = choose|k: int| #[trigger] (block as int * k) == m;
    assert(m >= block) by (nonlinear_arith)
        requires
            block as int * k == m,
            m > 0,
            block > 0,
    ;
}

/// Compute a coded dimension.
fn compute_coded_size(codec: Codec, size: u32, least: u32, granularity: u32) -> (coded: u32)
    requires
        coded_size(codec, size, least, granularity) <= u32::MAX,
    ensures
        coded == coded_size(codec, size, least, granularity),
{
    let alignment: u32 = lcm(block_size_of(codec), granule_of(granularity));
    proof {
        lemma_alignment(codec, granularity);
        let a = alignment as int;
        law_align_up_is_least(size as int, a);
        law_align_up_is_least(greater(aligned_up(size as int, a), least as int), a);
    }
    let aligned: u32 = align_up(size, alignment);
    let at_least: u32 = if aligned >= least {
        aligned
    } else {
        least
    };
    match codec {
        Codec::AV1 => at_least,
        _ => align_up(at_least, alignment),
    }
}

fn alignment_fits(granularity: u32) -> (fits: bool)
    ensures
        fits == (lcm_of(128, granule(granularity) as nat) <= u32::MAX),
{
    let g: u32 = granule_of(granularity);
    let divisor: u32 = gcd(128, g);
    let q: u32 = 128 / divisor;
    proof {
        assert(q <= 128) by (nonlinear_arith)
            requires
                q == 128u32 / divisor,
                divisor >= 1,
        ;
        assert(0 <= q * g <= 128 * u32::MAX) by (nonlinear_arith)
            requires
                0 <= q <= 128,
                0 <= g <= u32::MAX,
        ;
    }
    q as u64 * g as u64 <= u32::MAX as u64
}

fn align_up_wide(value: u64, alignment: u64) -> (aligned: u64)
    requires
        value <= 0x1_0000_0000_0000,
        1 <= alignment <= u32::MAX,
    ensures
        aligned == aligned_up(value as int, alignment as int),
        aligned <= value + alignment,
{
    proof {
        law_align_up_is_least(value as int, alignment as int);
    }
    if alignment <= 1 {
        value
    } else {
        let blocks: u64 = (value + alignment - 1) / alignment;
        proof {
            assert(blocks * alignment == aligned_up(value as int, alignment as int));
        }
        blocks * alignment
    }
}

fn size_fits(codec: Codec, size: u32, least: u32, granularity: u32) -> (fits: bool)
    ensures
        fits == (coded_size(codec, size, least, granularity) <= u32::MAX),
{
    let alignment: u32 = lcm(block_size_of(codec), granule_of(granularity));
    proof {
        lemma_alignment(codec, granularity);
    }
    let mut coded: u64 = align_up_wide(size as u64, alignment as u64);
    if coded < least as u64 {
        coded = least as u64;
    }
    if codec != Codec::AV1 {
        coded = align_up_wide(coded, alignment as u64);
    }
    coded <= u32::MAX as u64
}

/// Whether the coded extent can be computed in 32 bits.
pub fn extent_is_computable(codec: Codec, requested: Dimensions, caps: &VideoCapabilities) -> (fits:
    bool)
    ensures
        fits == extent_fits(codec, requested, *caps),
{
    let granularity = caps.picture_access_granularity;
    if codec == Codec::AV1 && !(alignment_fits(granularity.width) && alignment_fits(
        granularity.height,
    )) {
        return false;
    }
    size_fits(codec, requested.width, caps.min_coded_extent.width, granularity.width) && size_fits(
        codec,
        requested.height,
        caps.min_coded_extent.height,
        granularity.height,
    )
}

fn append_extent(text: &mut String, extent: Dimensions)
    ensures
        final(text)@ == old(text)@ + extent_text(extent.width as int, extent.height as int),
{
    let ghost before = text@;
    append_decimal(text, extent.width as u64);
    text.append("x");
    append_decimal(text, extent.height as u64);
    assert(text@ =~= before + extent_text(extent.width as int, extent.height as int));
}

fn too_large_message(
    codec: Codec,
    requested: Dimensions,
    coded: Dimensions,
    caps: &VideoCapabilities,
) -> (message: String)
    requires
        coded.width == coded_width(codec, requested, *caps),
        coded.height == coded_height(codec, requested, *caps),
    ensures
        message@ == too_large(codec, requested, *caps),
{
    let mut message = "Requested coded extent ".to_string();
    append_extent(&mut message, requested);
    message.append(" (aligned to ");
    append_extent(&mut message, coded);
    match codec {
        Codec::AV1 => {
            message.append(") exceeds device max ");
            append_extent(&mut message, caps.max_coded_extent);
        },
        _ => {
            message.append(" with granularity ");
            append_extent(
                &mut message,
                Dimensions {
                    width: granule_of(caps.picture_access_granularity.width),
                    height: granule_of(caps.picture_access_granularity.height),
                },
            );
            message.append(") exceeds device max ");
            append_extent(&mut message, caps.max_coded_extent);
            message.append(" for this profile");
        },
    }
    message
}

/// The coded extent lies within what the device can do.
pub open spec fn within_device(codec: Codec, requested: Dimensions, caps: VideoCapabilities) -> bool {
    &&& coded_width(codec, requested, caps) <= caps.max_coded_extent.width
    &&& coded_height(codec, requested, caps) <= caps.max_coded_extent.height
}

/// Compute the aligned coded extent of pictures with the requested dimensions.
pub fn coded_extent(codec: Codec, requested: Dimensions, caps: &VideoCapabilities) -> (extent:
    Result<Dimensions, PixelForgeError>)
    requires
        extent_fits(codec, requested, *caps),
    ensures
        match extent {
            Ok(extent) => {
                &&& within_device(codec, requested, *caps)
                &&& extent.width == coded_width(codec, requested, *caps)
                &&& extent.height == coded_height(codec, requested, *caps)
            },
            Err(e) => !within_device(codec, requested, *caps) && e.is_invalid_input(
                too_large(codec, requested, *caps),
            ),
        },
{
    let coded = Dimensions {
        width: compute_coded_size(
            codec,
            requested.width,
            caps.min_coded_extent.width,
            caps.picture_access_granularity.width,
        ),
        height: compute_coded_size(
            codec,
            requested.height,
            caps.min_coded_extent.height,
            caps.picture_access_granularity.height,
        ),
    };
    if coded.width > caps.max_coded_extent.width || coded.height > caps.max_coded_extent.height {
        return Err(
            PixelForgeError::InvalidInput(too_large_message(codec, requested, coded, caps)),
        );
    }
    Ok(coded)
}

/// A coded dimension is at least the requested and the least one, and less than a
/// whole alignment above the greater of them. For H.264 and H.265 it is a block or
/// more, and made of whole blocks and of whole granules if their least common
/// multiple fits in 32 bits.
pub proof fn law_coded_size_is_aligned(codec: Codec, size: u32, least: u32, granularity: u32)
    ensures
        coded_size(codec, size, least, granularity) >= size,
        coded_size(codec, size, least, granularity) >= least,
        coded_size(codec, size, least, granularity) < greater(
            aligned_up(size as int, alignment_of(block_size(codec), granularity)),
            least as int,
        ) + alignment_of(block_size(codec), granularity),
        codec != Codec::AV1 && lcm_of(block_size(codec) as nat, granule(granularity) as nat)
            <= u32::MAX ==> {
            &&& divides(block_size(codec) as int, coded_size(codec, size, least, granularity))
            &&& divides(granule(granularity) as int, coded_size(codec, size, least, granularity))
        },
        codec != Codec::AV1 && (size > 0 || least > 0) ==> coded_size(
            codec,
            size,
            least,
            granularity,
        ) >= block_size(codec),
{
    lemma_alignment(codec, granularity);
    let block = block_size(codec) as int;
    let g = granule(granularity) as int;
    let a = alignment_of(block_size(codec), granularity);
    let first = greater(aligned_up(size as int, a), least as int);
    law_align_up_is_least(size as int, a);
    law_align_up_is_least(first, a);
    if codec != Codec::AV1 {
        let coded = aligned_up(first, a);
        vstd::arithmetic::div_mod::lemma_fundamental_div_mod(coded, a);
        let q = coded / a;
        if size > 0 || least > 0 {
            assert(coded >= a) by (nonlinear_arith)
                requires
                    coded == a * q + 0,
                    coded >= 1,
                    a >= 1,
            ;
        }
        if lcm_of(block as nat, g as nat) <= u32::MAX {
            law_lcm_is_least(block as nat, g as nat);
            let k = choose|k: int| #[trigger] (block * k) == a;
            let l = choose|l: int| #[trigger] (g * l) == a;
            assert(block * (k * q) == coded) by (nonlinear_arith)
                requires
                    block * k == a,
                    coded == a * q + 0,
            ;
            assert(g * (l * q) == coded) by (nonlinear_arith)
                requires
                    g * l == a,
                    coded == a * q + 0,
            ;
        }
    }
}

/// The message that a query for the formats of pictures failed.
pub open spec fn format_query_failed(listing: bool, usage: PictureUsage, code: i32) -> Seq<char> {
    let start = if listing {
        "Failed to enumerate video format properties for usage "@
    } else {
        "Failed to query video format properties for usage "@
    };
    start + usage.spelled() + ": "@ + status_text(code)
}

fn format_query_error(listing: bool, usage: PictureUsage, code: i32) -> (error: PixelForgeError)
    ensures
        error.is_no_suitable_device(format_query_failed(listing, usage, code)),
{
    let mut message = if listing {
        "Failed to enumerate video format properties for usage "
    } else {
        "Failed to query video format properties for usage "
    }.to_string();
    message.append(describe_usage(usage).as_str());
    message.append(": ");
    message.append(describe_status(code).as_str());
    PixelForgeError::NoSuitableDevice(message)
}

/// How many formats to list after they have been counted, if any.
pub fn formats_counted(usage: PictureUsage, code: i32, count: u32) -> (to_list: Result<
    Option<u32>,
    PixelForgeError,
>)
    ensures
        match to_list {
            Ok(to_list) => code == SUCCESS && to_list == if count == 0 {
                None::<u32>
            } else {
                Some(count)
            },
            Err(e) => code != SUCCESS && e.is_no_suitable_device(
                format_query_failed(false, usage, code),
            ),
        },
{
    if code != SUCCESS {
        return Err(format_query_error(false, usage, code));
    }
    if count == 0 {
        Ok(None)
    } else {
        Ok(Some(count))
    }
}

/// The formats that have been listed, of which there are `count`.
pub fn formats_listed(usage: PictureUsage, code: i32, count: u32, formats: Vec<i32>) -> (listed:
    Result<Vec<i32>, PixelForgeError>)
    ensures
        match listed {
            Ok(listed) => code == SUCCESS && listed@ == if count < formats@.len() {
                formats@.take(count as int)
            } else {
                formats@
            },
            Err(e) => code != SUCCESS && e.is_no_suitable_device(
                format_query_failed(true, usage, code),
            ),
        },
{
    if code != SUCCESS {
        return Err(format_query_error(true, usage, code));
    }
    let mut listed: Vec<i32> = formats;
    if (count as usize) < listed.len() {
        listed.truncate(count as usize);
    }
    Ok(listed)
}

/// The message that there is no format for input pictures.
pub open spec fn no_src_formats(codec: Codec) -> Seq<char> {
    match codec {
        Codec::H264 => "No supported Vulkan Video SRC formats returned for this profile"@,
        Codec::H265 => "No supported Vulkan Video SRC formats returned for this H.265 profile"@,
        Codec::AV1 => "No supported Vulkan Video SRC formats for AV1"@,
    }
}

/// The message that there is no format for reconstructed pictures.
pub open spec fn no_dpb_formats(codec: Codec) -> Seq<char> {
    match codec {
        Codec::H264 => "No supported Vulkan Video DPB formats returned for this profile"@,
        Codec::H265 => "No supported Vulkan Video DPB formats returned for this H.265 profile"@,
        Codec::AV1 => "No supported Vulkan Video DPB formats for AV1"@,
    }
}

fn no_formats_message(codec: Codec, usage: PictureUsage) -> (message: String)
    ensures
        usage == PictureUsage::Src ==> message@ == no_src_formats(codec),
        usage == PictureUsage::Dpb ==> message@ == no_dpb_formats(codec),
{
    match (codec, usage) {
        (
            Codec::H264,
            PictureUsage::Src,
        ) => "No supported Vulkan Video SRC formats returned for this profile",
        (
            Codec::H264,
            PictureUsage::Dpb,
        ) => "No supported Vulkan Video DPB formats returned for this profile",
        (
            Codec::H265,
            PictureUsage::Src,
        ) => "No supported Vulkan Video SRC formats returned for this H.265 profile",
        (
            Codec::H265,
            PictureUsage::Dpb,
        ) => "No supported Vulkan Video DPB formats returned for this H.265 profile",
        (Codec::AV1, PictureUsage::Src) => "No supported Vulkan Video SRC formats for AV1",
        (Codec::AV1, PictureUsage::Dpb) => "No supported Vulkan Video DPB formats for AV1",
    }.to_string()
}

/// The first `n` formats, with commas between them.
pub open spec fn listed_formats(formats: Seq<i32>, n: nat) -> Seq<char>
    decreases n,
{
    if n == 0 {
        Seq::empty()
    } else if n == 1 {
        format_text(formats[0])
    } else {
        listed_formats(formats, (n - 1) as nat) + ", "@ + format_text(formats[n - 1])
    }
}

/// The message that the preferred input format is not among those of the device.
pub open spec fn not_preferred(codec: Codec, preferred: i32, formats: Seq<i32>) -> Seq<char> {
    let start = "Preferred input format "@ + format_text(preferred);
    if codec == Codec::AV1 {
        start + " not supported for AV1"@
    } else {
        start + " is not supported for VIDEO_ENCODE_SRC_KHR. Supported: ["@ + listed_formats(
            formats,
            formats.len(),
        ) + "]"@
    }
}

fn not_preferred_message(codec: Codec, preferred: i32, formats: &Vec<i32>) -> (message: String)
    ensures
        message@ == not_preferred(codec, preferred, formats@),
{
    let mut message = "Preferred input format ".to_string();
    message.append(describe_format(preferred).as_str());
    match codec {
        Codec::AV1 => {
            message.append(" not supported for AV1");
        },
        _ => {
            message.append(" is not supported for VIDEO_ENCODE_SRC_KHR. Supported: [");
            let ghost start = message@;
            let n: usize = formats.len();
            let mut i: usize = 0;
            assert(start + Seq::<char>::empty() =~= start);
            while i < n
                invariant
                    i <= n,
                    n == formats@.len(),
                    message@ == start + listed_formats(formats@, i as nat),
                decreases n - i,
            {
                let ghost before = listed_formats(formats@, i as nat);
                if i > 0 {
                    message.append(", ");
                }
                message.append(describe_format(formats[i]).as_str());
                proof {
                    if i > 0 {
                        assert(message@ =~= start + (before + ", "@ + format_text(
                            formats@[i as int],
                        )));
                    } else {
                        assert(message@ =~= start + format_text(formats@[0]));
                    }
                }
                i = i + 1;
            }
            message.append("]");
        },
    }
    message
}

fn holds_format(formats: &Vec<i32>, format: i32) -> (held: bool)
    ensures
        held == formats@.contains(format),
{
    let n: usize = formats.len();
    let mut i: usize = 0;
    while i < n
        invariant
            i <= n,
            n == formats@.len(),
            forall|j: int| 0 <= j < i ==> formats@[j] != format,
        decreases n - i,
    {
        if formats[i] == format {
            assert(formats@[i as int] == format);
            return true;
        }
        i = i + 1;
    }
    false
}

/// The format of reconstructed pictures: that of the input pictures where the
/// device has it, otherwise the first.
pub open spec fn reference_format(picture_format: i32, dpb_formats: Seq<i32>) -> i32 {
    if dpb_formats.contains(picture_format) {
        picture_format
    } else {
        dpb_formats[0]
    }
}

/// Target number of active reference pictures: as configured, as far as device and
/// codec allow, but at least 1 where the device allows any.
pub open spec fn target_references(codec: Codec, wanted: u32, supported: u32) -> int {
    let limit = match codec {
        Codec::H264 => 32int,
        Codec::H265 => 15int,
        Codec::AV1 => 8int,
    };
    let target = lesser(lesser(wanted as int, supported as int), limit);
    if target < 1 && supported >= 1 {
        1
    } else {
        target
    }
}

/// Number of DPB slots: one for each active reference and one for the picture that
/// is encoded, as far as there are so many.
pub open spec fn slot_count(codec: Codec, wanted: u32, caps: VideoCapabilities) -> int {
    let needed = lesser(
        target_references(codec, wanted, caps.max_active_reference_pictures) + 1,
        caps.max_dpb_slots as int,
    );
    if codec == Codec::AV1 {
        needed
    } else {
        lesser(needed, MAX_DPB_SLOTS as int)
    }
}

/// Number of active reference pictures. H.264 and H.265 leave a DPB slot for the
/// picture that is encoded.
pub open spec fn active_references(codec: Codec, wanted: u32, caps: VideoCapabilities) -> int {
    let target = target_references(codec, wanted, caps.max_active_reference_pictures);
    if codec == Codec::AV1 {
        target
    } else {
        lesser(target, slot_count(codec, wanted, caps) - 1)
    }
}

fn target_references_of(codec: Codec, wanted: u32, supported: u32) -> (target: u32)
    ensures
        target == target_references(codec, wanted, supported),
        target <= 32,
{
    let limit: u32 = match codec {
        Codec::H264 => 32,
        Codec::H265 => 15,
        Codec::AV1 => 8,
    };
    let mut target: u32 = wanted;
    if supported < target {
        target = supported;
    }
    if limit < target {
        target = limit;
    }
    if target < 1 && supported >= 1 {
        target = 1;
    }
    target
}

/// Number of DPB slots and of active reference pictures.
pub fn dpb_counts(codec: Codec, max_reference_frames: u32, caps: &VideoCapabilities) -> (counts: (
    usize,
    u32,
))
    requires
        caps.max_dpb_slots >= 2,
    ensures
        counts.0 == slot_count(codec, max_reference_frames, *caps),
        counts.1 == active_references(codec, max_reference_frames, *caps),
{
    let target: u32 = target_references_of(
        codec,
        max_reference_frames,
        caps.max_active_reference_pictures,
    );
    let mut slots: u32 = target + 1;
    if caps.max_dpb_slots < slots {
        slots = caps.max_dpb_slots;
    }
    match codec {
        Codec::AV1 => (slots as usize, target),
        _ => {
            if slots > MAX_DPB_SLOTS as u32 {
                slots = MAX_DPB_SLOTS as u32;
            }
            let active: u32 = if target < slots - 1 {
                target
            } else {
                slots - 1
            };
            (slots as usize, active)
        },
    }
}

/// There is a DPB slot for the picture that is encoded besides those of its
/// references. For AV1, whose pictures refer to the last key frame alone, there is
/// one besides that of the key frame if the device allows any reference.
pub proof fn law_slots_hold_references(codec: Codec, wanted: u32, caps: VideoCapabilities)
    requires
        caps.max_dpb_slots >= 2,
    ensures
        1 <= slot_count(codec, wanted, caps) <= MAX_DPB_SLOTS,
        0 <= active_references(codec, wanted, caps),
        active_references(codec, wanted, caps) <= caps.max_active_reference_pictures,
        codec != Codec::AV1 ==> active_references(codec, wanted, caps) < slot_count(
            codec,
            wanted,
            caps,
        ),
        caps.max_active_reference_pictures >= 1 ==> slot_count(codec, wanted, caps) >= 2
            && active_references(codec, wanted, caps) >= 1,
{
}

/// The message that the device has too few DPB slots.
pub open spec fn too_few_slots(codec: Codec, slots: u32) -> Seq<char> {
    "Device reports max_dpb_slots="@ + decimal(slots as nat) + if codec == Codec::AV1 {
        ", need at least 2"@
    } else {
        " for this profile; need at least 2"@
    }
}

fn too_few_slots_message(codec: Codec, slots: u32) -> (message: String)
    ensures
        message@ == too_few_slots(codec, slots),
{
    let mut message = "Device reports max_dpb_slots=".to_string();
    append_decimal(&mut message, slots as u64);
    match codec {
        Codec::AV1 => message.append(", need at least 2"),
        _ => message.append(" for this profile; need at least 2"),
    }
    message
}

/// The message that the capabilities could not be queried.
pub open spec fn no_capabilities(codec: Codec, code: i32) -> Seq<char> {
    let start = match codec {
        Codec::H264 =>
        "Failed to query Vulkan Video encode capabilities for requested H.264 profile: "@,
        Codec::H265 => "Failed to query H.265 capabilities: "@,
        Codec::AV1 => "Failed to query Vulkan Video encode capabilities for AV1: "@,
    };
    start + status_text(code)
}

fn no_capabilities_message(codec: Codec, code: i32) -> (message: String)
    ensures
        message@ == no_capabilities(codec, code),
{
    let mut message = match codec {
        Codec::H264 =>
        "Failed to query Vulkan Video encode capabilities for requested H.264 profile: ",
        Codec::H265 => "Failed to query H.265 capabilities: ",
        Codec::AV1 => "Failed to query Vulkan Video encode capabilities for AV1: ",
    }.to_string();
    message.append(describe_status(code).as_str());
    message
}

/// The number of the preferred format of input pictures.
pub open spec fn preferred_format(config: EncodeConfig) -> i32 {
    two_plane_format(config.pixel_format, config.bit_depth)->Some_0.number() as i32
}

/// The result is the error of a missing device with this message.
pub open spec fn no_device(result: Result<SessionPlan, PixelForgeError>, message: Seq<char>) -> bool {
    result matches Err(e) && e.is_no_suitable_device(message)
}

/// What negotiation gives once formats are chosen.
pub open spec fn negotiates_slots(
    codec: Codec,
    config: EncodeConfig,
    caps: VideoCapabilities,
    dpb_formats: Seq<i32>,
    encode_queue_family: Option<u32>,
    result: Result<SessionPlan, PixelForgeError>,
) -> bool {
    let no_family = encode_queue_family is None;
    if caps.max_dpb_slots < 2 && !(codec == Codec::AV1 && no_family) {
        no_device(result, too_few_slots(codec, caps.max_dpb_slots))
    } else if no_family {
        no_device(result, "No video encode queue family available"@)
    } else {
        result == Ok::<SessionPlan, PixelForgeError>(
            SessionPlan {
                coded_extent: Dimensions {
                    width: coded_width(codec, config.dimensions, caps) as u32,
                    height: coded_height(codec, config.dimensions, caps) as u32,
                },
                picture_format: preferred_format(config),
                reference_picture_format: reference_format(preferred_format(config), dpb_formats),
                dpb_slot_count: slot_count(codec, config.max_reference_frames, caps) as usize,
                active_reference_count: active_references(
                    codec,
                    config.max_reference_frames,
                    caps,
                ) as u32,
                use_layered_dpb: codec != Codec::AV1 && !caps.separate_reference_images,
                encode_queue_family: encode_queue_family->Some_0,
            },
        )
    }
}

/// What negotiation gives: the first reason to refuse, or the session.
pub open spec fn negotiates(
    codec: Codec,
    config: EncodeConfig,
    report: DeviceReport,
    result: Result<SessionPlan, PixelForgeError>,
) -> bool {
    match report.capabilities {
        Err(code) => no_device(result, no_capabilities(codec, code)),
        Ok(caps) => if !within_device(codec, config.dimensions, caps) {
            result matches Err(e) && e.is_invalid_input(too_large(codec, config.dimensions, caps))
        } else {
            match (report.src_formats, report.dpb_formats) {
                (Err(e), _) => result == Err::<SessionPlan, PixelForgeError>(e),
                (Ok(_), Err(e)) => result == Err::<SessionPlan, PixelForgeError>(e),
                (Ok(src), Ok(dpb)) => if src@.len() == 0 {
                    no_device(result, no_src_formats(codec))
                } else if dpb@.len() == 0 {
                    no_device(result, no_dpb_formats(codec))
                } else if !src@.contains(preferred_format(config)) {
                    no_device(result, not_preferred(codec, preferred_format(config), src@))
                } else {
                    negotiates_slots(codec, config, caps, dpb@, report.encode_queue_family, result)
                },
            }
        },
    }
}

/// Negotiate the session of an encoder.
pub fn negotiate(codec: Codec, config: &EncodeConfig, report: DeviceReport) -> (plan: Result<
    SessionPlan,
    PixelForgeError,
>)
    requires
        config.pixel_format != PixelFormat::Yuv422,
        report.capabilities matches Ok(caps) ==> extent_fits(codec, config.dimensions, caps),
    ensures
        negotiates(codec, *config, report, plan),
{
    let caps = match report.capabilities {
        Err(code) => {
            return Err(PixelForgeError::NoSuitableDevice(no_capabilities_message(codec, code)));
        },
        Ok(caps) => caps,
    };
    let preferred: i32 = get_video_format(config.pixel_format, config.bit_depth).as_raw();
    let coded = match coded_extent(codec, config.dimensions, &caps) {
        Err(e) => {
            return Err(e);
        },
        Ok(coded) => coded,
    };
    let src = match report.src_formats {
        Err(e) => {
            return Err(e);
        },
        Ok(formats) => formats,
    };
    let dpb = match report.dpb_formats {
        Err(e) => {
            return Err(e);
        },
        Ok(formats) => formats,
    };
    if src.len() == 0 {
        return Err(PixelForgeError::NoSuitableDevice(no_formats_message(codec, PictureUsage::Src)));
    }
    if dpb.len() == 0 {
        return Err(PixelForgeError::NoSuitableDevice(no_formats_message(codec, PictureUsage::Dpb)));
    }
    if !holds_format(&src, preferred) {
        return Err(
            PixelForgeError::NoSuitableDevice(not_preferred_message(codec, preferred, &src)),
        );
    }
    let reference: i32 = if holds_format(&dpb, preferred) {
        preferred
    } else {
        dpb[0]
    };
    let no_family: bool = report.encode_queue_family.is_none();
    let is_av1: bool = codec == Codec::AV1;
    if caps.max_dpb_slots < 2 && !(is_av1 && no_family) {
        return Err(
            PixelForgeError::NoSuitableDevice(too_few_slots_message(codec, caps.max_dpb_slots)),
        );
    }
    let family: u32 = match report.encode_queue_family {
        None => {
            return Err(
                PixelForgeError::NoSuitableDevice(
                    "No video encode queue family available".to_string(),
                ),
            );
        },
        Some(family) => family,
    };
    let counts = dpb_counts(codec, config.max_reference_frames, &caps);
    Ok(
        SessionPlan {
            coded_extent: coded,
            picture_format: preferred,
            reference_picture_format: reference,
            dpb_slot_count: counts.0,
            active_reference_count: counts.1,
            use_layered_dpb: !is_av1 && !caps.separate_reference_images,
            encode_queue_family: family,
        },
    )
}

/// References are as many as the configuration asks for and device, codec and slots allow;
/// at least one is asked for. The codec's limit is the size of its reference lists, and for
/// AV1 its number of reference slots. H.264 and H.265 have one slot more than references;
/// so does AV1, as far as the device has so many.
pub proof fn law_references_are_as_many_as_possible(
    codec: Codec,
    wanted: u32,
    caps: VideoCapabilities,
)
    requires
        caps.max_dpb_slots >= 2,
    ensures
        ({
            let active = active_references(codec, wanted, caps);
            let slots = slot_count(codec, wanted, caps);
            let limit = match codec {
                Codec::H264 => super::h264::frame::LIST_SIZE as int,
                Codec::H265 => super::h265::frame::LIST_SIZE as int,
                Codec::AV1 => 8int,
            };
            &&& active <= limit
            &&& active <= caps.max_active_reference_pictures
            &&& wanted >= 1 ==> active <= wanted
            &&& wanted == 0 ==> active <= 1
            &&& slots <= caps.max_dpb_slots
            &&& codec != Codec::AV1 ==> slots == active + 1 && slots <= 16
            &&& codec == Codec::AV1 ==> slots == if active + 1 <= caps.max_dpb_slots {
                active + 1
            } else {
                caps.max_dpb_slots as int
            }
            &&& active < wanted ==> {
                ||| active == caps.max_active_reference_pictures
                ||| active == limit
                ||| codec != Codec::AV1 && (slots == caps.max_dpb_slots || slots == 16)
            }
        }),
{
}

/// Negotiation succeeds exactly if the device reports capabilities for the profile, takes
/// the coded extent, has the two-plane format of the configuration for input pictures, any
/// format for reconstructed pictures, two DPB slots, and a queue family that encodes.
pub proof fn law_negotiation_succeeds_where_the_device_suffices(
    codec: Codec,
    config: EncodeConfig,
    report: DeviceReport,
    result: Result<SessionPlan, PixelForgeError>,
)
    requires
        negotiates(codec, config, report, result),
    ensures
        result is Ok <==> {
            &&& report.capabilities is Ok
            &&& report.src_formats is Ok
            &&& report.dpb_formats is Ok
            &&& report.encode_queue_family is Some
            &&& report.capabilities->Ok_0.max_dpb_slots >= 2
            &&& report.dpb_formats->Ok_0@.len() > 0
            &&& report.src_formats->Ok_0@.contains(
                two_plane_format(config.pixel_format, config.bit_depth)->Some_0.number() as i32,
            )
            &&& coded_width(codec, config.dimensions, report.capabilities->Ok_0)
                <= report.capabilities->Ok_0.max_coded_extent.width
            &&& coded_height(codec, config.dimensions, report.capabilities->Ok_0)
                <= report.capabilities->Ok_0.max_coded_extent.height
        },
{
    if result is Ok {
        let src = report.src_formats->Ok_0@;
        assert(src.contains(preferred_format(config)));
    }
}

/// A session that was negotiated suits the device and the configuration. Its pictures hold
/// the dimensions, and are no smaller and no larger than the device takes. Input pictures
/// have a format that the device has for them, reconstructed pictures one that it has for
/// those, which is the same where possible. The DPB is one layered image exactly where the
/// device has no separate ones, but for AV1.
pub proof fn law_session_suits_the_device(
    codec: Codec,
    config: EncodeConfig,
    report: DeviceReport,
    plan: SessionPlan,
)
    requires
        negotiates(codec, config, report, Ok(plan)),
    ensures
        ({
            let caps = report.capabilities->Ok_0;
            let src = report.src_formats->Ok_0@;
            let dpb = report.dpb_formats->Ok_0@;
            &&& config.dimensions.width <= plan.coded_extent.width <= caps.max_coded_extent.width
            &&& config.dimensions.height <= plan.coded_extent.height
                <= caps.max_coded_extent.height
            &&& caps.min_coded_extent.width <= plan.coded_extent.width
            &&& caps.min_coded_extent.height <= plan.coded_extent.height
            &&& src.contains(plan.picture_format)
            &&& plan.picture_format == two_plane_format(
                config.pixel_format,
                config.bit_depth,
            )->Some_0.number() as i32
            &&& dpb.contains(plan.reference_picture_format)
            &&& dpb.contains(plan.picture_format) ==> plan.reference_picture_format
                == plan.picture_format
            &&& !dpb.contains(plan.picture_format) ==> plan.reference_picture_format == dpb[0]
            &&& plan.dpb_slot_count == slot_count(codec, config.max_reference_frames, caps)
            &&& plan.active_reference_count == active_references(
                codec,
                config.max_reference_frames,
                caps,
            )
            &&& codec == Codec::AV1 ==> !plan.use_layered_dpb
            &&& codec != Codec::AV1 ==> (plan.use_layered_dpb <==>
                !caps.separate_reference_images)
            &&& report.encode_queue_family == Some(plan.encode_queue_family)
        }),
{
    let caps = report.capabilities->Ok_0;
    law_slots_hold_references(codec, config.max_reference_frames, caps);
    law_coded_size_is_aligned(
        codec,
        config.dimensions.width,
        caps.min_coded_extent.width,
        caps.picture_access_granularity.width,
    );
    law_coded_size_is_aligned(
        codec,
        config.dimensions.height,
        caps.min_coded_extent.height,
        caps.picture_access_granularity.height,
    );
    let dpb = report.dpb_formats->Ok_0@;
    assert(dpb.contains(dpb[0]));
}

/// A coded dimension of H.264 and H.265 is the least multiple of the alignment that is not
/// below the requested and the least dimension. That of AV1 is the least multiple that is
/// not below the requested one, or the least dimension if that is greater.
pub proof fn law_coded_size_is_least(
    codec: Codec,
    size: u32,
    least: u32,
    granularity: u32,
    multiple: int,
)
    requires
        0 <= multiple,
        multiple % alignment_of(block_size(codec), granularity) == 0,
        multiple >= size,
    ensures
        codec != Codec::AV1 && multiple >= least ==> coded_size(codec, size, least, granularity)
            <= multiple,
        codec != Codec::AV1 ==> coded_size(codec, size, least, granularity) % alignment_of(
            block_size(codec),
            granularity,
        ) == 0,
        codec == Codec::AV1 ==> coded_size(codec, size, least, granularity) <= multiple
            || coded_size(codec, size, least, granularity) == least,
        codec == Codec::AV1 && coded_size(codec, size, least, granularity) != least ==> coded_size(
            codec,
            size,
            least,
            granularity,
        ) % alignment_of(block_size(codec), granularity) == 0,
{
    lemma_alignment(codec, granularity);
    let a = alignment_of(block_size(codec), granularity);
    let first = aligned_up(size as int, a);
    let second = greater(first, least as int);
    law_align_up_is_least(size as int, a);
    law_align_up_is_least(second, a);
    vstd::arithmetic::div_mod::lemma_fundamental_div_mod(multiple, a);
    vstd::arithmetic::div_mod::lemma_fundamental_div_mod(first, a);
    vstd::arithmetic::div_mod::lemma_fundamental_div_mod(aligned_up(second, a), a);
    lemma_no_multiple_between(size as int, first, multiple, a);
    if multiple >= least {
        lemma_no_multiple_between(second, aligned_up(second, a), multiple, a);
    }
}

/// A multiple of `a` that is less than `a` above `low` is the least one from `low` on.
proof fn lemma_no_multiple_between(low: int, next: int, multiple: int, a: int)
    requires
        a >= 1,
        low <= next < low + a,
        low <= multiple,
        next == a * (next / a),
        multiple == a * (multiple / a),
    ensures
        next <= multiple,
{
    let p = next / a;
    let q = multiple / a;
    assert(p <= q) by (nonlinear_arith)
        requires
            a >= 1,
            a * p < low + a,
            low <= a * q,
    ;
    assert(a * p <= a * q) by (nonlinear_arith)
        requires
            a >= 1,
            p <= q,
    ;
}

} // verus!
