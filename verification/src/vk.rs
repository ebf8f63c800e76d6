//! Numbers of the Vulkan API.
//!
//! The library works with plain values. This module names the Vulkan constants
//! that its decisions lead to, and takes their numbers from `ash`.

use vstd::prelude::*;

verus! {

/// Vulkan formats that the library uses.
#[derive(Debug, Clone, Copy, PartialEq, Eq, Structural)]
pub enum VkFormat {
    /// `VK_FORMAT_R8G8B8A8_UNORM`.
    R8G8B8A8Unorm,
    /// `VK_FORMAT_B8G8R8A8_UNORM`.
    B8G8R8A8Unorm,
    /// `VK_FORMAT_A2B10G10R10_UNORM_PACK32`.
    A2B10G10R10UnormPack32,
    /// `VK_FORMAT_R16G16B16A16_SFLOAT`.
    R16G16B16A16Sfloat,
    /// `VK_FORMAT_G8_B8_R8_3PLANE_420_UNORM`.
    Planar420,
    /// `VK_FORMAT_G8_B8R8_2PLANE_420_UNORM`.
    SemiPlanar420,
    /// `VK_FORMAT_G8_B8_R8_3PLANE_444_UNORM`.
    Planar444,
    /// `VK_FORMAT_G8_B8R8_2PLANE_444_UNORM`.
    SemiPlanar444,
    /// `VK_FORMAT_G10X6_B10X6R10X6_2PLANE_420_UNORM_3PACK16`.
    SemiPlanar420Ten,
    /// `VK_FORMAT_G10X6_B10X6R10X6_2PLANE_444_UNORM_3PACK16`.
    SemiPlanar444Ten,
}

impl VkFormat {
    /// The number of the format in the Vulkan API.
    pub open spec fn number(self) -> int {
        match self {
            VkFormat::R8G8B8A8Unorm => 37,
            VkFormat::B8G8R8A8Unorm => 44,
            VkFormat::A2B10G10R10UnormPack32 => 64,
            VkFormat::R16G16B16A16Sfloat => 97,
            VkFormat::Planar420 => 1000156002,
            VkFormat::SemiPlanar420 => 1000156003,
            VkFormat::Planar444 => 1000156006,
            VkFormat::SemiPlanar444 => 1000330000,
            VkFormat::SemiPlanar420Ten => 1000156013,
            VkFormat::SemiPlanar444Ten => 1000330001,
        }
    }

    /// Number of planes of an image in the format.
    pub open spec fn plane_count(self) -> nat {
        match self {
            VkFormat::Planar420 | VkFormat::Planar444 => 3,
            VkFormat::SemiPlanar420
            | VkFormat::SemiPlanar444
            | VkFormat::SemiPlanar420Ten
            | VkFormat::SemiPlanar444Ten => 2,
            _ => 1,
        }
    }

    /// Chroma planes have half the width and half the height of the image.
    pub open spec fn halves_chroma(self) -> bool {
        match self {
            VkFormat::Planar420 | VkFormat::SemiPlanar420 | VkFormat::SemiPlanar420Ten => true,
            _ => false,
        }
    }

    /// Bytes of a sample.
    pub open spec fn sample_bytes(self) -> nat {
        match self {
            VkFormat::SemiPlanar420Ten
            | VkFormat::SemiPlanar444Ten
            | VkFormat::R16G16B16A16Sfloat => 2,
            _ => 1,
        }
    }

    /// Bytes of a texel of plane `k`: with two planes, the second one holds both chroma
    /// samples, and with one plane it holds four channels.
    pub open spec fn texel_bytes(self, k: int) -> nat {
        if self.plane_count() == 1 {
            4 * self.sample_bytes()
        } else if self.plane_count() == 2 && k == 1 {
            2 * self.sample_bytes()
        } else {
            self.sample_bytes()
        }
    }

    /// Width or height of plane `k` of an image of this width or height.
    pub open spec fn plane_side(self, k: int, side: u32) -> int {
        if k > 0 && self.halves_chroma() {
            side as int / 2
        } else {
            side as int
        }
    }

    /// The number of the format in the Vulkan API.
    pub fn as_raw(self) -> (raw: i32)
        ensures
            raw == self.number(),
    {
        format_number(self)
    }
}

/// `ash::vk::Format::as_raw` on the constant of each format: its number in the
/// Vulkan API.
#[verifier::external_body]
fn format_number(format: VkFormat) -> (raw: i32)
    ensures
        raw == format.number(),
{
    match format {
        VkFormat::R8G8B8A8Unorm => ash::vk::Format::R8G8B8A8_UNORM,
        VkFormat::B8G8R8A8Unorm => ash::vk::Format::B8G8R8A8_UNORM,
        VkFormat::A2B10G10R10UnormPack32 => ash::vk::Format::A2B10G10R10_UNORM_PACK32,
        VkFormat::R16G16B16A16Sfloat => ash::vk::Format::R16G16B16A16_SFLOAT,
        VkFormat::Planar420 => ash::vk::Format::G8_B8_R8_3PLANE_420_UNORM,
        VkFormat::SemiPlanar420 => ash::vk::Format::G8_B8R8_2PLANE_420_UNORM,
        VkFormat::Planar444 => ash::vk::Format::G8_B8_R8_3PLANE_444_UNORM,
        VkFormat::SemiPlanar444 => ash::vk::Format::G8_B8R8_2PLANE_444_UNORM,
        VkFormat::SemiPlanar420Ten => ash::vk::Format::G10X6_B10X6R10X6_2PLANE_420_UNORM_3PACK16,
        VkFormat::SemiPlanar444Ten => ash::vk::Format::G10X6_B10X6R10X6_2PLANE_444_UNORM_3PACK16,
    }.as_raw()
}

/// Layouts of images.
#[derive(Debug, Clone, Copy, PartialEq, Eq, Structural)]
pub enum ImageLayout {
    /// `VK_IMAGE_LAYOUT_UNDEFINED`: what the image holds is lost.
    Undefined,
    /// `VK_IMAGE_LAYOUT_GENERAL`.
    General,
    /// `VK_IMAGE_LAYOUT_SHADER_READ_ONLY_OPTIMAL`.
    ShaderReadOnlyOptimal,
    /// `VK_IMAGE_LAYOUT_TRANSFER_SRC_OPTIMAL`.
    TransferSrcOptimal,
    /// `VK_IMAGE_LAYOUT_TRANSFER_DST_OPTIMAL`.
    TransferDstOptimal,
    /// `VK_IMAGE_LAYOUT_VIDEO_ENCODE_SRC_KHR`.
    VideoEncodeSrc,
    /// `VK_IMAGE_LAYOUT_VIDEO_ENCODE_DPB_KHR`.
    VideoEncodeDpb,
    /// Any other layout, by its number.
    Other(i32),
}

/// Kinds of memory access that a barrier orders.
#[derive(Debug, Clone, Copy, PartialEq, Eq, Structural)]
pub enum AccessMask {
    /// None.
    Empty,
    /// Any read or write.
    MemoryReadWrite,
    /// Reads by a shader.
    ShaderRead,
    /// Writes by a shader.
    ShaderWrite,
    /// Reads and writes by a shader.
    ShaderReadWrite,
    /// Reads by a transfer.
    TransferRead,
    /// Writes by a transfer.
    TransferWrite,
    /// Any read.
    MemoryRead,
    /// Any write.
    MemoryWrite,
}

/// Stages of the pipeline that a barrier orders.
#[derive(Debug, Clone, Copy, PartialEq, Eq, Structural)]
pub enum PipelineStage {
    /// Before any work.
    TopOfPipe,
    /// After all work.
    BottomOfPipe,
    /// Transfers.
    Transfer,
    /// Compute shaders.
    ComputeShader,
    /// Transfers and compute shaders.
    TransferAndComputeShader,
    /// All commands.
    AllCommands,
}

/// `ash::vk::make_api_version`: the parts of a version packed into one number,
/// the variant from bit 29 on, the major version from bit 22 on, the minor
/// version from bit 12 on, and the patch number.
#[verifier::external_body]
pub(crate) fn make_api_version(variant: u32, major: u32, minor: u32, patch: u32) -> (version: u32)
    ensures
        version == (variant << 29u32) | (major << 22u32) | (minor << 12u32) | patch,
{
    ash::vk::make_api_version(variant, major, minor, patch)
}

/// Status code of a Vulkan call that succeeded.
pub const SUCCESS: i32 = 0;

/// Status code of a Vulkan call whose return array was too small.
pub const INCOMPLETE: i32 = 5;

/// The text that `ash` gives to a status code.
pub uninterp spec fn status_text(code: i32) -> Seq<char>;

/// `ash::vk::Result::from_raw`, and the `Debug` text of the status code that it
/// makes. The text depends on the code alone.
#[verifier::external_body]
pub(crate) fn describe_status(code: i32) -> (text: String)
    ensures
        text@ == status_text(code),
{
    format!("{:?}", ash::vk::Result::from_raw(code))
}

/// The text that `ash` gives to the number of a format.
pub uninterp spec fn format_text(raw: i32) -> Seq<char>;

/// `ash::vk::Format::from_raw`, and the `Debug` text of the format that it makes.
/// The text depends on the number alone.
#[verifier::external_body]
pub(crate) fn describe_format(raw: i32) -> (text: String)
    ensures
        text@ == format_text(raw),
{
    format!("{:?}", ash::vk::Format::from_raw(raw))
}

/// What a picture of an encoder is used for.
#[derive(Debug, Clone, Copy, PartialEq, Eq, Structural)]
pub enum PictureUsage {
    /// `VK_IMAGE_USAGE_VIDEO_ENCODE_SRC_BIT_KHR`: input pictures.
    Src,
    /// `VK_IMAGE_USAGE_VIDEO_ENCODE_DPB_BIT_KHR`: reconstructed pictures.
    Dpb,
}

impl PictureUsage {
    /// The name of the usage flag.
    pub open spec fn spelled(self) -> Seq<char> {
        match self {
            PictureUsage::Src => "VIDEO_ENCODE_SRC_KHR"@,
            PictureUsage::Dpb => "VIDEO_ENCODE_DPB_KHR"@,
        }
    }
}

/// The `Debug` text of `ash::vk::ImageUsageFlags` with one flag set: the name of the
/// flag.
#[verifier::external_body]
pub(crate) fn describe_usage(usage: PictureUsage) -> (text: String)
    ensures
        text@ == usage.spelled(),
{
    let flags = match usage {
        PictureUsage::Src => ash::vk::ImageUsageFlags::VIDEO_ENCODE_SRC_KHR,
        PictureUsage::Dpb => ash::vk::ImageUsageFlags::VIDEO_ENCODE_DPB_KHR,
    };
    format!("{:?}", flags)
}

} // verus!
