//! GPU-accelerated color format conversion using Vulkan compute shaders.
//!
//! This module provides efficient color space conversion on the GPU,
//! converting from RGB/BGR formats to YUV for video encoding.
//!
//! The output remains on the GPU as an image to avoid unnecessary
//! CPU round-trips when used with a GPU-based video encoder.

use crate::steps::{
    layouts_after, modelled, moves_layouts, BufferBarrier, ImageBarrier, ImagePlane, ImageRole,
    Layouts, PlaneCopy, Step, StepModel,
};
use crate::vk::{AccessMask, ImageLayout, PipelineStage, VkFormat};
use vstd::prelude::*;

pub mod laws;
pub mod pipeline;
pub mod shader;

verus! {

/// Color space for RGB→YUV conversion matrix selection.
#[derive(Debug, Clone, Copy, PartialEq, Eq, Structural)]
pub enum ColorSpace {
    /// BT.709 (standard SDR). Used for all HD/UHD SDR content.
    Bt709,
    /// BT.2020 (HDR / wide color gamut).
    Bt2020,
    /// SDR in HDR (sRGB → linear → BT.2020 gamut → PQ).
    SrgbToBt2020Pq,
    /// scRGB HDR (linear BT.709 → BT.2020 gamut → PQ).
    Bt709LinearToBt2020Pq,
}

impl Default for ColorSpace {
    fn default() -> (space: Self)
        ensures
            space == ColorSpace::Bt709,
    {
        ColorSpace::Bt709
    }
}

impl ColorSpace {
    /// The number by which the shader knows the color space.
    pub open spec fn number(self) -> u32 {
        match self {
            ColorSpace::Bt709 => 0,
            ColorSpace::Bt2020 => 1,
            ColorSpace::SrgbToBt2020Pq => 2,
            ColorSpace::Bt709LinearToBt2020Pq => 3,
        }
    }

    /// The number by which the shader knows the color space.
    pub fn code(&self) -> (code: u32)
        ensures
            code == self.number(),
    {
        match self {
            ColorSpace::Bt709 => 0,
            ColorSpace::Bt2020 => 1,
            ColorSpace::SrgbToBt2020Pq => 2,
            ColorSpace::Bt709LinearToBt2020Pq => 3,
        }
    }
}

/// Supported input pixel formats for color conversion.
#[derive(Debug, Clone, Copy, PartialEq, Eq, Structural)]
#[allow(clippy::upper_case_acronyms)]
pub enum InputFormat {
    /// BGRx (32-bit, blue first, x = unused).
    BGRx,
    /// RGBx (32-bit, red first, x = unused).
    RGBx,
    /// BGRA (32-bit, blue first, alpha last).
    BGRA,
    /// RGBA (32-bit, red first, alpha last).
    RGBA,
    /// ABGR2101010 (packed 10-bit per channel, 2-bit alpha).
    /// Maps to DRM_FORMAT_ABGR2101010 / VK_FORMAT_A2B10G10R10_UNORM_PACK32.
    ABGR2101010,
    /// RGBA16F (64-bit, 16-bit float per channel).
    /// Maps to DRM_FORMAT_ABGR16161616F / VK_FORMAT_R16G16B16A16_SFLOAT.
    RGBA16F,
}

impl InputFormat {
    /// The number by which the shader knows the format.
    pub open spec fn number(self) -> u32 {
        match self {
            InputFormat::BGRx => 0,
            InputFormat::RGBx => 1,
            InputFormat::BGRA => 2,
            InputFormat::RGBA => 3,
            InputFormat::ABGR2101010 => 4,
            InputFormat::RGBA16F => 5,
        }
    }

    /// The number by which the shader knows the format.
    pub fn code(&self) -> (code: u32)
        ensures
            code == self.number(),
    {
        match self {
            InputFormat::BGRx => 0,
            InputFormat::RGBx => 1,
            InputFormat::BGRA => 2,
            InputFormat::RGBA => 3,
            InputFormat::ABGR2101010 => 4,
            InputFormat::RGBA16F => 5,
        }
    }

    /// Bytes per pixel for this format.
    pub fn bytes_per_pixel(&self) -> (bytes: usize)
        ensures
            bytes == if *self == InputFormat::RGBA16F {
                8int
            } else {
                4int
            },
            bytes == self.view_format().texel_bytes(0),
    {
        match self {
            InputFormat::BGRx
            | InputFormat::RGBx
            | InputFormat::BGRA
            | InputFormat::RGBA
            | InputFormat::ABGR2101010 => 4,
            InputFormat::RGBA16F => 8,
        }
    }

    /// Vulkan format for image views of this input format.
    pub open spec fn view_format(self) -> VkFormat {
        match self {
            InputFormat::BGRx | InputFormat::BGRA => VkFormat::B8G8R8A8Unorm,
            InputFormat::RGBx | InputFormat::RGBA => VkFormat::R8G8B8A8Unorm,
            InputFormat::ABGR2101010 => VkFormat::A2B10G10R10UnormPack32,
            InputFormat::RGBA16F => VkFormat::R16G16B16A16Sfloat,
        }
    }

    /// Vulkan format for creating image views of this input format.
    pub fn vk_format(&self) -> (format: VkFormat)
        ensures
            format == self.view_format(),
    {
        match self {
            InputFormat::BGRx | InputFormat::BGRA => VkFormat::B8G8R8A8Unorm,
            InputFormat::RGBx | InputFormat::RGBA => VkFormat::R8G8B8A8Unorm,
            InputFormat::ABGR2101010 => VkFormat::A2B10G10R10UnormPack32,
            InputFormat::RGBA16F => VkFormat::R16G16B16A16Sfloat,
        }
    }
}

/// Supported output YUV formats.
#[derive(Debug, Clone, Copy, PartialEq, Eq, Structural)]
pub enum OutputFormat {
    /// NV12: Y plane followed by interleaved UV (4:2:0), 8-bit.
    NV12,
    /// I420: Y plane, U plane, V plane (4:2:0), 8-bit.
    I420,
    /// YUV444: Full resolution Y, U, V planes, 8-bit.
    YUV444,
    /// P010: Y plane followed by interleaved UV (4:2:0), 10-bit in 16-bit words.
    P010,
    /// YUV444 10-bit: Full resolution Y, U, V in 16-bit words.
    YUV444P10,
}

impl OutputFormat {
    /// The number by which the shader knows the format.
    pub open spec fn number(self) -> u32 {
        match self {
            OutputFormat::NV12 => 0,
            OutputFormat::I420 => 1,
            OutputFormat::YUV444 => 2,
            OutputFormat::P010 => 3,
            OutputFormat::YUV444P10 => 4,
        }
    }

    /// The number by which the shader knows the format.
    pub fn code(&self) -> (code: u32)
        ensures
            code == self.number(),
    {
        match self {
            OutputFormat::NV12 => 0,
            OutputFormat::I420 => 1,
            OutputFormat::YUV444 => 2,
            OutputFormat::P010 => 3,
            OutputFormat::YUV444P10 => 4,
        }
    }

    /// Size in bytes of an image with this many pixels.
    pub open spec fn size_of(self, pixels: int) -> int {
        match self {
            OutputFormat::NV12 | OutputFormat::I420 => pixels * 3 / 2,
            OutputFormat::YUV444 => pixels * 3,
            OutputFormat::P010 => pixels * 3,
            OutputFormat::YUV444P10 => pixels * 6,
        }
    }

    /// The largest number that the size of an image goes through.
    pub open spec fn widest(self, pixels: int) -> int {
        match self {
            OutputFormat::YUV444P10 => pixels * 6,
            _ => pixels * 3,
        }
    }

    /// Calculate output size in bytes for given dimensions.
    pub fn output_size(&self, width: u32, height: u32) -> (size: usize)
        requires
            width * height <= u32::MAX,
            self.widest(width * height) <= usize::MAX,
        ensures
            size == self.size_of(width * height),
    {
        let pixel_count: usize = (width * height) as usize;
        match self {
            OutputFormat::NV12 | OutputFormat::I420 => pixel_count * 3 / 2,
            OutputFormat::YUV444 => pixel_count * 3,
            // 10-bit formats use 2 bytes per sample.
            OutputFormat::P010 => pixel_count * 3,  // Y (2 bytes) + UV (1 byte each, half res)
            OutputFormat::YUV444P10 => pixel_count * 6,  // Y + U + V, each 2 bytes.
        }
    }

    /// Vulkan format of images with this output format.
    pub open spec fn image_format(self) -> VkFormat {
        match self {
            OutputFormat::NV12 => VkFormat::SemiPlanar420,
            OutputFormat::I420 => VkFormat::Planar420,
            OutputFormat::YUV444 => VkFormat::Planar444,
            OutputFormat::P010 => VkFormat::SemiPlanar420Ten,
            OutputFormat::YUV444P10 => VkFormat::SemiPlanar444Ten,
        }
    }

    /// Get the Vulkan format for this output format.
    pub fn vulkan_format(&self) -> (format: VkFormat)
        ensures
            format == self.image_format(),
            format == match *self {
                OutputFormat::NV12 => VkFormat::SemiPlanar420,
                OutputFormat::I420 => VkFormat::Planar420,
                OutputFormat::YUV444 => VkFormat::Planar444,
                OutputFormat::P010 => VkFormat::SemiPlanar420Ten,
                OutputFormat::YUV444P10 => VkFormat::SemiPlanar444Ten,
            },
    {
        match self {
            OutputFormat::NV12 => VkFormat::SemiPlanar420,
            OutputFormat::I420 => VkFormat::Planar420,
            OutputFormat::YUV444 => VkFormat::Planar444,
            OutputFormat::P010 => VkFormat::SemiPlanar420Ten,
            OutputFormat::YUV444P10 => VkFormat::SemiPlanar444Ten,
        }
    }

    /// Samples have 10 bits.
    pub open spec fn ten_bit(self) -> bool {
        self == OutputFormat::P010 || self == OutputFormat::YUV444P10
    }

    /// Returns true if this is a 10-bit format.
    pub fn is_10bit(&self) -> (ten: bool)
        ensures
            ten == self.ten_bit(),
    {
        matches!(self, OutputFormat::P010 | OutputFormat::YUV444P10)
    }

    /// Bytes per sample for this format.
    pub fn bytes_per_sample(&self) -> (bytes: usize)
        ensures
            bytes == if self.ten_bit() {
                2int
            } else {
                1int
            },
            bytes == self.image_format().sample_bytes(),
    {
        if self.is_10bit() {
            2
        } else {
            1
        }
    }
}

/// Configuration for the color converter.
#[derive(Clone, Copy, Debug, PartialEq, Eq, Structural)]
pub struct ColorConverterConfig {
    /// Input frame width.
    pub width: u32,
    /// Input frame height.
    pub height: u32,
    /// Input pixel format.
    pub input_format: InputFormat,
    /// Output YUV format.
    pub output_format: OutputFormat,
    /// Color space for the RGB→YUV matrix.
    /// Use Bt709 for SDR, Bt2020 for HDR.
    pub color_space: ColorSpace,
}

impl ColorConverterConfig {
    /// Create a configuration with the default color space.
    pub fn new(
        width: u32,
        height: u32,
        input_format: InputFormat,
        output_format: OutputFormat,
    ) -> (config: Self)
        ensures
            config == (ColorConverterConfig {
                width,
                height,
                input_format,
                output_format,
                color_space: ColorSpace::Bt709,
            }),
    {
        ColorConverterConfig {
            width,
            height,
            input_format,
            output_format,
            color_space: ColorSpace::default(),
        }
    }
}

/// The copies that bring an image in `format` from a buffer to an image.
pub open spec fn plane_copies(format: OutputFormat, width: u32, height: u32) -> Seq<PlaneCopy> {
    let pixels = width * height;
    let half_w = width / 2;
    let half_h = height / 2;
    let plane = |offset: int, plane: ImagePlane, w: u32, h: u32|
        PlaneCopy { buffer_offset: offset as u64, plane, width: w, height: h };
    match format {
        OutputFormat::NV12 => seq![
            plane(0, ImagePlane::Plane0, width, height),
            plane(pixels, ImagePlane::Plane1, half_w, half_h),
        ],
        OutputFormat::I420 => seq![
            plane(0, ImagePlane::Plane0, width, height),
            plane(pixels, ImagePlane::Plane1, half_w, half_h),
            plane(pixels + pixels / 4, ImagePlane::Plane2, half_w, half_h),
        ],
        OutputFormat::YUV444 => seq![
            plane(0, ImagePlane::Plane0, width, height),
            plane(pixels, ImagePlane::Plane1, width, height),
            plane(pixels * 2, ImagePlane::Plane2, width, height),
        ],
        OutputFormat::P010 => seq![
            plane(0, ImagePlane::Plane0, width, height),
            plane(pixels * 2, ImagePlane::Plane1, half_w, half_h),
        ],
        OutputFormat::YUV444P10 => seq![
            plane(0, ImagePlane::Plane0, width, height),
            plane(pixels * 2, ImagePlane::Plane1, width, height),
        ],
    }
}

/// Bytes that a copy reads from the buffer.
pub open spec fn copy_bytes(format: OutputFormat, copy: PlaneCopy) -> int {
    let samples = if copy.plane == ImagePlane::Plane1 && (format == OutputFormat::NV12 || format
        == OutputFormat::P010 || format == OutputFormat::YUV444P10) {
        2int
    } else {
        1int
    };
    let bytes = if format.ten_bit() {
        2int
    } else {
        1int
    };
    copy.width * copy.height * samples * bytes
}

/// Where a copy starts: after the copies before it.
pub open spec fn bytes_before(format: OutputFormat, copies: Seq<PlaneCopy>, k: nat) -> int
    decreases k,
{
    if k == 0 {
        0
    } else {
        bytes_before(format, copies, (k - 1) as nat) + copy_bytes(format, copies[k - 1])
    }
}

/// The planes lie in the buffer one after the other without gap, and together
/// take exactly the output size. Chroma planes of odd dimensions are rounded
/// down, so for subsampled formats the dimensions are even.
pub proof fn law_copies_fill_the_output(format: OutputFormat, width: u32, height: u32)
    requires
        width * height <= u32::MAX,
        format == OutputFormat::NV12 || format == OutputFormat::I420 || format
            == OutputFormat::P010 ==> width % 2 == 0 && height % 2 == 0,
    ensures
        ({
            let copies = plane_copies(format, width, height);
            &&& forall|k: int|
                0 <= k < copies.len() ==> (#[trigger] copies[k]).buffer_offset == bytes_before(
                    format,
                    copies,
                    k as nat,
                )
            &&& bytes_before(format, copies, copies.len()) == format.size_of(width * height)
        }),
{
    let copies = plane_copies(format, width, height);
    let w = width as int;
    let h = height as int;
    let p = w * h;
    assert(p >= 0) by (nonlinear_arith)
        requires
            p == w * h,
            w >= 0,
            h >= 0,
    ;
    reveal_with_fuel(bytes_before, 4);
    if w % 2 == 0 && h % 2 == 0 {
        let a = w / 2;
        let b = h / 2;
        assert(p == 4 * (a * b)) by (nonlinear_arith)
            requires
                w == 2 * a,
                h == 2 * b,
                p == w * h,
        ;
    }
}

/// Number of 8-texel work groups that cover `n` texels.
pub open spec fn work_groups(n: u32) -> int {
    (n + 7) / 8
}

fn div_ceil_8(n: u32) -> (groups: u32)
    ensures
        groups == work_groups(n),
{
    if n % 8 == 0 {
        n / 8
    } else {
        n / 8 + 1
    }
}

/// The steps of a conversion.
///
/// The shader reads the source image and writes the output buffer, which was
/// filled with zeros; the buffer is then copied to the target image, plane by
/// plane.
pub open spec fn conversion(config: ColorConverterConfig, src_layout: ImageLayout) -> Seq<
    StepModel,
> {
    seq![
        StepModel::ImageBarrier(
            ImageBarrier {
                image: ImageRole::Source,
                old_layout: src_layout,
                new_layout: ImageLayout::ShaderReadOnlyOptimal,
                src_access: AccessMask::MemoryReadWrite,
                dst_access: AccessMask::ShaderRead,
                src_stage: PipelineStage::AllCommands,
                dst_stage: PipelineStage::ComputeShader,
            },
        ),
        StepModel::FillBuffer(config.output_format.size_of(config.width * config.height)),
        StepModel::BufferBarrier(
            BufferBarrier {
                src_access: AccessMask::TransferWrite,
                dst_access: AccessMask::ShaderReadWrite,
                src_stage: PipelineStage::Transfer,
                dst_stage: PipelineStage::ComputeShader,
            },
        ),
        StepModel::BindPipeline,
        StepModel::PushConstants(
            seq![
                config.width,
                config.height,
                config.input_format.number(),
                config.output_format.number(),
                config.color_space.number(),
            ],
        ),
        StepModel::Dispatch(work_groups(config.width), work_groups(config.height), 1),
        StepModel::BufferBarrier(
            BufferBarrier {
                src_access: AccessMask::ShaderWrite,
                dst_access: AccessMask::TransferRead,
                src_stage: PipelineStage::ComputeShader,
                dst_stage: PipelineStage::Transfer,
            },
        ),
        StepModel::ImageBarrier(
            ImageBarrier {
                image: ImageRole::Target,
                old_layout: ImageLayout::Undefined,
                new_layout: ImageLayout::TransferDstOptimal,
                src_access: AccessMask::Empty,
                dst_access: AccessMask::TransferWrite,
                src_stage: PipelineStage::TopOfPipe,
                dst_stage: PipelineStage::Transfer,
            },
        ),
        StepModel::CopyBuffer(plane_copies(config.output_format, config.width, config.height)),
        StepModel::ImageBarrier(
            ImageBarrier {
                image: ImageRole::Target,
                old_layout: ImageLayout::TransferDstOptimal,
                new_layout: ImageLayout::VideoEncodeSrc,
                src_access: AccessMask::TransferWrite,
                dst_access: AccessMask::Empty,
                src_stage: PipelineStage::TransferAndComputeShader,
                dst_stage: PipelineStage::BottomOfPipe,
            },
        ),
        StepModel::ImageBarrier(
            ImageBarrier {
                image: ImageRole::Source,
                old_layout: ImageLayout::ShaderReadOnlyOptimal,
                new_layout: ImageLayout::General,
                src_access: AccessMask::ShaderRead,
                dst_access: AccessMask::MemoryReadWrite,
                src_stage: PipelineStage::TransferAndComputeShader,
                dst_stage: PipelineStage::BottomOfPipe,
            },
        ),
    ]
}

/// A conversion leaves the target image ready for encoding and the source image
/// in the general layout, and finds each image in the layout that it expects,
/// whatever the layout of the target image was.
pub proof fn law_conversion_leaves_target_ready(
    config: ColorConverterConfig,
    src_layout: ImageLayout,
    target_layout: ImageLayout,
)
    ensures
        moves_layouts(
            conversion(config, src_layout),
            Layouts { source: src_layout, target: target_layout },
            Layouts { source: ImageLayout::General, target: ImageLayout::VideoEncodeSrc },
        ),
{
    reveal_with_fuel(layouts_after, 12);
}

/// What to do for the image view of a source image.
#[derive(Debug, Clone, Copy, PartialEq, Eq, Structural)]
pub enum SourceView {
    /// Use the view that is there.
    Reuse { view: u64 },
    /// Destroy the view of another image, if there is one, and create a view.
    Create { destroy: Option<u64>, format: VkFormat },
}

/// What to do for the view of an image, where a view is kept with the image that it shows.
pub open spec fn source_view_of(
    kept: Option<(u64, u64)>,
    format: VkFormat,
    image: u64,
) -> SourceView {
    match kept {
        Some((shown, view)) => if shown == image {
            SourceView::Reuse { view }
        } else {
            SourceView::Create { destroy: Some(view), format }
        },
        None => SourceView::Create { destroy: None, format },
    }
}

/// GPU-based color format converter.
///
/// Plans the conversion of RGB/BGR images to YUV by a compute shader; images
/// and views are known by their handles.
#[derive(Debug)]
pub struct ColorConverter {
    config: ColorConverterConfig,
    cached_src_view: Option<(u64, u64)>,
}

impl ColorConverter {
    /// The configuration.
    pub closed spec fn configured(&self) -> ColorConverterConfig {
        self.config
    }

    /// The source image whose view is kept, and the view.
    pub closed spec fn cached(&self) -> Option<(u64, u64)> {
        self.cached_src_view
    }

    /// Create a new color converter.
    pub fn new(config: ColorConverterConfig) -> (converter: Self)
        ensures
            converter.configured() == config,
            converter.cached() is None,
    {
        ColorConverter { config, cached_src_view: None }
    }

    /// Get the configuration.
    pub fn config(&self) -> (config: ColorConverterConfig)
        ensures
            config == self.configured(),
    {
        self.config
    }

    /// Build buffer-to-image copy regions for multi-planar YUV formats.
    ///
    /// For multi-planar formats like NV12, I420, and YUV444, we need separate
    /// copy regions for each plane with the appropriate aspect mask.
    pub fn build_buffer_to_image_copy_regions(&self) -> (copies: Vec<PlaneCopy>)
        requires
            self.configured().width * self.configured().height <= u32::MAX,
            self.configured().output_format.ten_bit() ==> self.configured().width
                * self.configured().height * 2 <= u32::MAX,
        ensures
            copies@ == plane_copies(
                self.configured().output_format,
                self.configured().width,
                self.configured().height,
            ),
    {
        let width: u32 = self.config.width;
        let height: u32 = self.config.height;
        let pixels: u64 = (width * height) as u64;
        let luma = PlaneCopy { buffer_offset: 0, plane: ImagePlane::Plane0, width, height };
        let copies: Vec<PlaneCopy> = match self.config.output_format {
            OutputFormat::NV12 => {
                // NV12: Y plane (PLANE_0) followed by interleaved UV plane (PLANE_1),
                // at half resolution.
                vec![
                    luma,
                    PlaneCopy {
                        buffer_offset: pixels,
                        plane: ImagePlane::Plane1,
                        width: width / 2,
                        height: height / 2,
                    },
                ]
            },
            OutputFormat::I420 => {
                // I420: Y plane, U plane, V plane (all separate).
                vec![
                    luma,
                    PlaneCopy {
                        buffer_offset: pixels,
                        plane: ImagePlane::Plane1,
                        width: width / 2,
                        height: height / 2,
                    },
                    PlaneCopy {
                        buffer_offset: pixels + pixels / 4,
                        plane: ImagePlane::Plane2,
                        width: width / 2,
                        height: height / 2,
                    },
                ]
            },
            OutputFormat::YUV444 => {
                // YUV444: three planes at full resolution.
                vec![
                    luma,
                    PlaneCopy { buffer_offset: pixels, plane: ImagePlane::Plane1, width, height },
                    PlaneCopy {
                        buffer_offset: pixels * 2,
                        plane: ImagePlane::Plane2,
                        width,
                        height,
                    },
                ]
            },
            OutputFormat::P010 => {
                // P010: 16-bit Y plane followed by interleaved 16-bit UV plane at
                // half resolution.
                vec![
                    luma,
                    PlaneCopy {
                        buffer_offset: pixels * 2,
                        plane: ImagePlane::Plane1,
                        width: width / 2,
                        height: height / 2,
                    },
                ]
            },
            OutputFormat::YUV444P10 => {
                // 10-bit YUV444: 16-bit Y plane followed by interleaved 16-bit UV
                // plane at full resolution.
                vec![
                    luma,
                    PlaneCopy {
                        buffer_offset: pixels * 2,
                        plane: ImagePlane::Plane1,
                        width,
                        height,
                    },
                ]
            },
        };
        assert(copies@ =~= plane_copies(self.config.output_format, width, height));
        copies
    }

    /// Plan the conversion of a source image into a target image.
    ///
    /// `src_layout` is the current layout of the source image. After the steps
    /// the target image is in the layout of an encoder's input.
    pub fn convert(&self, src_layout: ImageLayout) -> (steps: Vec<Step>)
        requires
            self.configured().width * self.configured().height <= u32::MAX,
            self.configured().output_format.ten_bit() ==> self.configured().width
                * self.configured().height * 2 <= u32::MAX,
            self.configured().output_format.widest(
                self.configured().width * self.configured().height,
            ) <= usize::MAX,
        ensures
            modelled(steps@) == conversion(self.configured(), src_layout),
    {
        let mut steps: Vec<Step> = Vec::new();
        let config = self.config;

        // Transition source image for shader read.
        steps.push(
            Step::ImageBarrier(
                ImageBarrier {
                    image: ImageRole::Source,
                    old_layout: src_layout,
                    new_layout: ImageLayout::ShaderReadOnlyOptimal,
                    src_access: AccessMask::MemoryReadWrite,
                    dst_access: AccessMask::ShaderRead,
                    src_stage: PipelineStage::AllCommands,
                    dst_stage: PipelineStage::ComputeShader,
                },
            ),
        );

        // Clear output buffer to zero before compute shader runs.
        let output_size: usize = config.output_format.output_size(config.width, config.height);
        steps.push(Step::FillBuffer(output_size as u64));
        steps.push(
            Step::BufferBarrier(
                BufferBarrier {
                    src_access: AccessMask::TransferWrite,
                    dst_access: AccessMask::ShaderReadWrite,
                    src_stage: PipelineStage::Transfer,
                    dst_stage: PipelineStage::ComputeShader,
                },
            ),
        );

        // Run compute shader (reads source image directly), in 8x8 work groups.
        steps.push(Step::BindPipeline);
        let values: [u32; 5] = [
            config.width,
            config.height,
            config.input_format.code(),
            config.output_format.code(),
            config.color_space.code(),
        ];
        steps.push(Step::PushConstants(values));
        steps.push(Step::Dispatch(div_ceil_8(config.width), div_ceil_8(config.height), 1));

        // Copy output buffer to target image (encoder's input).
        steps.push(
            Step::BufferBarrier(
                BufferBarrier {
                    src_access: AccessMask::ShaderWrite,
                    dst_access: AccessMask::TransferRead,
                    src_stage: PipelineStage::ComputeShader,
                    dst_stage: PipelineStage::Transfer,
                },
            ),
        );
        steps.push(
            Step::ImageBarrier(
                ImageBarrier {
                    image: ImageRole::Target,
                    old_layout: ImageLayout::Undefined,
                    new_layout: ImageLayout::TransferDstOptimal,
                    src_access: AccessMask::Empty,
                    dst_access: AccessMask::TransferWrite,
                    src_stage: PipelineStage::TopOfPipe,
                    dst_stage: PipelineStage::Transfer,
                },
            ),
        );
        steps.push(Step::CopyBuffer(self.build_buffer_to_image_copy_regions()));

        // Transition target image for encoding, and source image back for reuse.
        steps.push(
            Step::ImageBarrier(
                ImageBarrier {
                    image: ImageRole::Target,
                    old_layout: ImageLayout::TransferDstOptimal,
                    new_layout: ImageLayout::VideoEncodeSrc,
                    src_access: AccessMask::TransferWrite,
                    dst_access: AccessMask::Empty,
                    src_stage: PipelineStage::TransferAndComputeShader,
                    dst_stage: PipelineStage::BottomOfPipe,
                },
            ),
        );
        steps.push(
            Step::ImageBarrier(
                ImageBarrier {
                    image: ImageRole::Source,
                    old_layout: ImageLayout::ShaderReadOnlyOptimal,
                    new_layout: ImageLayout::General,
                    src_access: AccessMask::ShaderRead,
                    dst_access: AccessMask::MemoryReadWrite,
                    src_stage: PipelineStage::TransferAndComputeShader,
                    dst_stage: PipelineStage::BottomOfPipe,
                },
            ),
        );
        proof {
            let model = modelled(steps@);
            let expected = conversion(self.configured(), src_layout);
            assert(model[4]->PushConstants_0 =~= expected[4]->PushConstants_0);
            assert(model =~= expected);
        }
        steps
    }

    /// Decide on the image view of a source image.
    pub fn get_or_create_src_view(&self, src_image: u64) -> (action: SourceView)
        ensures
            action == match self.cached() {
                Some((image, view)) if image == src_image => SourceView::Reuse { view },
                Some((_, view)) => SourceView::Create {
                    destroy: Some(view),
                    format: self.configured().input_format.view_format(),
                },
                None => SourceView::Create {
                    destroy: None,
                    format: self.configured().input_format.view_format(),
                },
            },
            action == source_view_of(
                self.cached(),
                self.configured().input_format.view_format(),
                src_image,
            ),
    {
        let mut destroy: Option<u64> = None;
        if let Some((image, view)) = self.cached_src_view {
            // Return cached view if it matches the current source image.
            if image == src_image {
                return SourceView::Reuse { view };
            }
            // Different image: destroy the old view.

            destroy = Some(view);
        }
        SourceView::Create { destroy, format: self.config.input_format.vk_format() }
    }

    /// Keep the view that was created for a source image.
    pub fn store_src_view(&mut self, src_image: u64, view: u64)
        ensures
            final(self).configured() == old(self).configured(),
            final(self).cached() == Some((src_image, view)),
    {
        self.cached_src_view = Some((src_image, view));
    }

    /// Give up the view that is kept, for its destruction.
    pub fn take_src_view(&mut self) -> (view: Option<u64>)
        ensures
            final(self).configured() == old(self).configured(),
            final(self).cached() is None,
            view == match old(self).cached() {
                Some((_, view)) => Some(view),
                None => None,
            },
    {
        let view: Option<u64> = match self.cached_src_view {
            Some((_, view)) => Some(view),
            None => None,
        };
        self.cached_src_view = None;
        view
    }
}

} // verus!
