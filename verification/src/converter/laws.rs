//! What holds of a conversion as a whole.

use super::pipeline::PUSH_CONSTANT_SIZE;
use super::shader::{
    shader_places, shader_reads_linear_light, shader_uses_bt2020, SamplePlaces,
};
use super::{
    conversion, plane_copies, source_view_of, ColorConverterConfig, ColorSpace, InputFormat,
    OutputFormat, SourceView,
};
use crate::steps::{
    advanced, comes_from, goes_to, in_order, progress, synchronized, ImagePlane, PlaneCopy,
    Progress, Resource, StepModel,
};
use crate::vk::{AccessMask, ImageLayout, PipelineStage, VkFormat};
use vstd::prelude::*;

verus! {

/// The numbers that the shader knows formats and color spaces by are the places of the
/// variants in the order of their declaration.
pub proof fn law_numbers_are_those_of_the_shader(i: int)
    ensures
        0 <= i < 6 ==> seq![
            InputFormat::BGRx,
            InputFormat::RGBx,
            InputFormat::BGRA,
            InputFormat::RGBA,
            InputFormat::ABGR2101010,
            InputFormat::RGBA16F,
        ][i].number() == i,
        0 <= i < 5 ==> seq![
            OutputFormat::NV12,
            OutputFormat::I420,
            OutputFormat::YUV444,
            OutputFormat::P010,
            OutputFormat::YUV444P10,
        ][i].number() == i,
        0 <= i < 4 ==> seq![
            ColorSpace::Bt709,
            ColorSpace::Bt2020,
            ColorSpace::SrgbToBt2020Pq,
            ColorSpace::Bt709LinearToBt2020Pq,
        ][i].number() == i,
{
}

/// The copies read each sample of each pixel from where the shader, with the parameters
/// that it is handed, has written it. Dimensions are even where four pixels share their
/// chroma, and the number of pixels is even where two 16-bit samples share a word.
pub proof fn law_shader_writes_what_the_copies_read(
    config: ColorConverterConfig,
    src_layout: ImageLayout,
    x: int,
    y: int,
)
    requires
        config.width * config.height <= u32::MAX,
        0 <= x < config.width,
        0 <= y < config.height,
        config.output_format == OutputFormat::YUV444P10 ==> (config.width * config.height) % 2
            == 0,
        config.output_format == OutputFormat::NV12 || config.output_format == OutputFormat::I420
            || config.output_format == OutputFormat::P010 ==> config.width % 2 == 0
            && config.height % 2 == 0,
    ensures
        ({
            let steps = conversion(config, src_layout);
            let places = shader_places(steps[4]->PushConstants_0, x, y);
            let copies = steps[8]->CopyBuffer_0;
            &&& steps[4] is PushConstants
            &&& steps[8] is CopyBuffer
            &&& copies[0].plane == ImagePlane::Plane0
            &&& copies[1].plane == ImagePlane::Plane1
            &&& match config.output_format {
                OutputFormat::NV12 => {
                    &&& copies.len() == 2
                    &&& places.luma == copies[0].source_byte(1, 1, x, y, 0)
                    &&& places.u == copies[1].source_byte(2, 1, x / 2, y / 2, 0)
                    &&& places.v == copies[1].source_byte(2, 1, x / 2, y / 2, 1)
                },
                OutputFormat::I420 => {
                    &&& copies.len() == 3
                    &&& copies[2].plane == ImagePlane::Plane2
                    &&& places.luma == copies[0].source_byte(1, 1, x, y, 0)
                    &&& places.u == copies[1].source_byte(1, 1, x / 2, y / 2, 0)
                    &&& places.v == copies[2].source_byte(1, 1, x / 2, y / 2, 0)
                },
                OutputFormat::YUV444 => {
                    &&& copies.len() == 3
                    &&& copies[2].plane == ImagePlane::Plane2
                    &&& places.luma == copies[0].source_byte(1, 1, x, y, 0)
                    &&& places.u == copies[1].source_byte(1, 1, x, y, 0)
                    &&& places.v == copies[2].source_byte(1, 1, x, y, 0)
                },
                OutputFormat::P010 => {
                    &&& copies.len() == 2
                    &&& places.luma == copies[0].source_byte(1, 2, x, y, 0)
                    &&& places.u == copies[1].source_byte(2, 2, x / 2, y / 2, 0)
                    &&& places.v == copies[1].source_byte(2, 2, x / 2, y / 2, 1)
                },
                OutputFormat::YUV444P10 => {
                    &&& copies.len() == 2
                    &&& places.luma == copies[0].source_byte(1, 2, x, y, 0)
                    &&& places.u == copies[1].source_byte(2, 2, x, y, 0)
                    &&& places.v == copies[1].source_byte(2, 2, x, y, 1)
                },
            }
        }),
{
    lemma_parameters_and_copies(config, src_layout);
    let steps = conversion(config, src_layout);
    lemma_writes_what_is_read(
        config.output_format,
        config.width,
        config.height,
        steps[4]->PushConstants_0,
        x,
        y,
    );
}

proof fn lemma_parameters_and_copies(config: ColorConverterConfig, src_layout: ImageLayout)
    ensures
        ({
            let steps = conversion(config, src_layout);
            let params = steps[4]->PushConstants_0;
            &&& steps[4] is PushConstants
            &&& steps[8] is CopyBuffer
            &&& steps[8]->CopyBuffer_0 == plane_copies(
                config.output_format,
                config.width,
                config.height,
            )
            &&& steps[1] == StepModel::FillBuffer(
                config.output_format.size_of(config.width * config.height),
            )
            &&& params[0] == config.width
            &&& params[1] == config.height
            &&& params[3] == config.output_format.number()
        }),
{
}

/// The samples of a pixel are written where the copies of a format read them.
spec fn writes_what_is_read(
    format: OutputFormat,
    copies: Seq<PlaneCopy>,
    places: SamplePlaces,
    x: int,
    y: int,
) -> bool {
    &&& copies[0].plane == ImagePlane::Plane0
    &&& copies[1].plane == ImagePlane::Plane1
    &&& match format {
        OutputFormat::NV12 => {
            &&& copies.len() == 2
            &&& places.luma == copies[0].source_byte(1, 1, x, y, 0)
            &&& places.u == copies[1].source_byte(2, 1, x / 2, y / 2, 0)
            &&& places.v == copies[1].source_byte(2, 1, x / 2, y / 2, 1)
        },
        OutputFormat::I420 => {
            &&& copies.len() == 3
            &&& copies[2].plane == ImagePlane::Plane2
            &&& places.luma == copies[0].source_byte(1, 1, x, y, 0)
            &&& places.u == copies[1].source_byte(1, 1, x / 2, y / 2, 0)
            &&& places.v == copies[2].source_byte(1, 1, x / 2, y / 2, 0)
        },
        OutputFormat::YUV444 => {
            &&& copies.len() == 3
            &&& copies[2].plane == ImagePlane::Plane2
            &&& places.luma == copies[0].source_byte(1, 1, x, y, 0)
            &&& places.u == copies[1].source_byte(1, 1, x, y, 0)
            &&& places.v == copies[2].source_byte(1, 1, x, y, 0)
        },
        OutputFormat::P010 => {
            &&& copies.len() == 2
            &&& places.luma == copies[0].source_byte(1, 2, x, y, 0)
            &&& places.u == copies[1].source_byte(2, 2, x / 2, y / 2, 0)
            &&& places.v == copies[1].source_byte(2, 2, x / 2, y / 2, 1)
        },
        OutputFormat::YUV444P10 => {
            &&& copies.len() == 2
            &&& places.luma == copies[0].source_byte(1, 2, x, y, 0)
            &&& places.u == copies[1].source_byte(2, 2, x, y, 0)
            &&& places.v == copies[1].source_byte(2, 2, x, y, 1)
        },
    }
}

proof fn lemma_writes_what_is_read(
    format: OutputFormat,
    width: u32,
    height: u32,
    params: Seq<u32>,
    x: int,
    y: int,
)
    requires
        width * height <= u32::MAX,
        0 <= x < width,
        0 <= y < height,
        format == OutputFormat::YUV444P10 ==> (width * height) % 2 == 0,
        format == OutputFormat::NV12 || format == OutputFormat::I420 || format
            == OutputFormat::P010 ==> width % 2 == 0 && height % 2 == 0,
        params[0] == width,
        params[1] == height,
        params[3] == format.number(),
    ensures
        writes_what_is_read(
            format,
            plane_copies(format, width, height),
            shader_places(params, x, y),
            x,
            y,
        ),
{
    let p = width * height;
    let copies = plane_copies(format, width, height);
    let pixel = y * width + x;
    let quad = y / 2 * (width as int / 2) + x / 2;
    lemma_quarter(width, height);
    assert(copies[0].width == width && copies[0].buffer_offset == 0);
    match format {
        OutputFormat::NV12 => {
            assert(copies[1].buffer_offset == p);
        },
        OutputFormat::I420 => {
            assert(copies[1].buffer_offset == p);
            assert(copies[2].buffer_offset == p + p / 4);
        },
        OutputFormat::YUV444 => {
            assert(copies[1].buffer_offset == p);
            assert(copies[2].buffer_offset == 2 * p);
        },
        OutputFormat::P010 => {
            assert(copies[1].buffer_offset == 2 * p);
            assert(4 * (p / 2) == 2 * p);
        },
        OutputFormat::YUV444P10 => {
            assert(copies[1].buffer_offset == 2 * p);
            assert(4 * (p / 2) == 2 * p);
        },
    }
}

proof fn lemma_quarter(width: u32, height: u32)
    ensures
        0 <= width * height,
        width % 2 == 0 && height % 2 == 0 ==> width * height == 4 * ((width / 2) * (height / 2))
            && 0 <= (width / 2) * (height / 2),
{
    assert(0 <= width * height) by (nonlinear_arith)
        requires
            0 <= width,
            0 <= height,
    ;
    if width % 2 == 0 && height % 2 == 0 {
        let a = (width / 2) as int;
        let b = (height / 2) as int;
        assert(width * height == 4 * (a * b) && 0 <= a * b) by (nonlinear_arith)
            requires
                width == 2 * a,
                height == 2 * b,
                a >= 0,
                b >= 0,
        ;
    }
}

/// The plane with a number.
pub open spec fn numbered_plane(k: int) -> ImagePlane {
    if k == 0 {
        ImagePlane::Plane0
    } else if k == 1 {
        ImagePlane::Plane1
    } else {
        ImagePlane::Plane2
    }
}

/// The copies fill every plane of an image in the Vulkan format of the output, each from
/// where the plane before it ends in the buffer, and together they read all of the buffer
/// that was filled with zeros before. Dimensions are even where chroma planes have half
/// the size.
pub proof fn law_copies_fill_every_plane(
    config: ColorConverterConfig,
    src_layout: ImageLayout,
    k: int,
)
    requires
        config.width * config.height <= u32::MAX,
        0 <= k < config.output_format.image_format().plane_count(),
        config.output_format.image_format().halves_chroma() ==> config.width % 2 == 0
            && config.height % 2 == 0,
    ensures
        ({
            let steps = conversion(config, src_layout);
            let copies = steps[8]->CopyBuffer_0;
            let format = config.output_format.image_format();
            let end = copies[k].buffer_offset + copies[k].width * copies[k].height
                * format.texel_bytes(k);
            &&& copies.len() == format.plane_count()
            &&& copies[0].buffer_offset == 0
            &&& copies[k].plane == numbered_plane(k)
            &&& copies[k].width == format.plane_side(k, config.width)
            &&& copies[k].height == format.plane_side(k, config.height)
            &&& end == if k + 1 < copies.len() {
                copies[k + 1].buffer_offset as int
            } else {
                steps[1]->FillBuffer_0
            }
        }),
{
    lemma_parameters_and_copies(config, src_layout);
    let format = config.output_format.image_format();
    let copies = plane_copies(config.output_format, config.width, config.height);
    let p = config.width * config.height;
    lemma_quarter(config.width, config.height);
    let area = copies[k].width * copies[k].height;
    lemma_area(area, format.texel_bytes(k));
    if format.halves_chroma() {
        let quarter = (config.width / 2) * (config.height / 2);
        assert(k > 0 ==> area == quarter);
        assert(p * 3 / 2 == p + 2 * quarter);
        assert(p / 4 == quarter);
    } else {
        assert(area == p);
    }
}

proof fn lemma_area(area: int, bytes: nat)
    requires
        bytes == 1 || bytes == 2 || bytes == 4,
    ensures
        bytes == 1 ==> area * bytes == area,
        bytes == 2 ==> area * bytes == 2 * area,
        bytes == 4 ==> area * bytes == 4 * area,
{
}

/// The shader runs once for each pixel: work groups of 8x8 cover the image, and none of
/// them lies outside of it.
pub proof fn law_work_groups_cover_the_image(
    config: ColorConverterConfig,
    src_layout: ImageLayout,
    x: int,
    y: int,
)
    requires
        0 <= x < config.width,
        0 <= y < config.height,
    ensures
        ({
            let steps = conversion(config, src_layout);
            &&& steps[5] matches StepModel::Dispatch(across, down, deep)
            &&& x / 8 < across
            &&& y / 8 < down
            &&& 8 * (across - 1) < config.width
            &&& 8 * (down - 1) < config.height
            &&& deep == 1
        }),
{
}

/// The shader is handed the dimensions of the image, takes floating point input alone for
/// linear light, and uses the matrix of BT.2020 for that color space alone.
pub proof fn law_shader_is_told_the_source(config: ColorConverterConfig, src_layout: ImageLayout)
    ensures
        ({
            let params = conversion(config, src_layout)[4]->PushConstants_0;
            &&& params.len() == 5
            &&& params[0] == config.width
            &&& params[1] == config.height
            &&& shader_reads_linear_light(params) <==> config.input_format == InputFormat::RGBA16F
            &&& shader_uses_bt2020(params) <==> config.color_space == ColorSpace::Bt2020
        }),
{
}

/// The view of a source image shows the channels as the input format orders them, with
/// blue or red first, and in as many bits.
pub proof fn law_views_show_the_input_format(format: InputFormat)
    ensures
        format.view_format() == VkFormat::B8G8R8A8Unorm <==> format == InputFormat::BGRx || format
            == InputFormat::BGRA,
        format.view_format() == VkFormat::R8G8B8A8Unorm <==> format == InputFormat::RGBx || format
            == InputFormat::RGBA,
        format.view_format() == VkFormat::A2B10G10R10UnormPack32 <==> format
            == InputFormat::ABGR2101010,
        format.view_format() == VkFormat::R16G16B16A16Sfloat <==> format == InputFormat::RGBA16F,
{
}

/// Every use of the images and of the buffer in a conversion follows a barrier that allows
/// it, and every use of an image is followed by one that waits for it; the buffer is used
/// first when it is cleared, and last when it is copied. The source image is handed over
/// from and to commands of any kind.
pub proof fn law_conversion_is_synchronized(config: ColorConverterConfig, src_layout: ImageLayout)
    ensures
        ({
            let steps = conversion(config, src_layout);
            let read_write = AccessMask::MemoryReadWrite;
            let none = AccessMask::Empty;
            &&& synchronized(steps, Resource::Buffer)
            &&& synchronized(steps, Resource::Source)
            &&& synchronized(steps, Resource::Target)
            &&& steps[1] is FillBuffer
            &&& steps[3] is BindPipeline
            &&& progress(steps, Resource::Buffer, 1) == Progress::Fresh
            &&& progress(steps, Resource::Buffer, 9) is Used
            &&& progress(steps, Resource::Buffer, steps.len()) == progress(
                steps,
                Resource::Buffer,
                9,
            )
            &&& comes_from(steps, Resource::Source, 0, read_write, PipelineStage::AllCommands)
            &&& goes_to(steps, Resource::Source, 10, read_write, PipelineStage::BottomOfPipe)
            &&& comes_from(steps, Resource::Target, 7, none, PipelineStage::TopOfPipe)
            &&& goes_to(steps, Resource::Target, 9, none, PipelineStage::BottomOfPipe)
        }),
{
    let steps = conversion(config, src_layout);
    lemma_progress(steps, Resource::Buffer);
    lemma_progress(steps, Resource::Source);
    lemma_progress(steps, Resource::Target);
    lemma_each_in_order(steps, Resource::Buffer);
    lemma_each_in_order(steps, Resource::Source);
    lemma_each_in_order(steps, Resource::Target);
}

proof fn lemma_progress(steps: Seq<StepModel>, on: Resource)
    requires
        steps.len() == 11,
    ensures
        progress(steps, on, 0) == Progress::Fresh,
        progress(steps, on, 1) == advanced(progress(steps, on, 0), steps[0], on),
        progress(steps, on, 2) == advanced(progress(steps, on, 1), steps[1], on),
        progress(steps, on, 3) == advanced(progress(steps, on, 2), steps[2], on),
        progress(steps, on, 4) == advanced(progress(steps, on, 3), steps[3], on),
        progress(steps, on, 5) == advanced(progress(steps, on, 4), steps[4], on),
        progress(steps, on, 6) == advanced(progress(steps, on, 5), steps[5], on),
        progress(steps, on, 7) == advanced(progress(steps, on, 6), steps[6], on),
        progress(steps, on, 8) == advanced(progress(steps, on, 7), steps[7], on),
        progress(steps, on, 9) == advanced(progress(steps, on, 8), steps[8], on),
        progress(steps, on, 10) == advanced(progress(steps, on, 9), steps[9], on),
        progress(steps, on, 11) == advanced(progress(steps, on, 10), steps[10], on),
{
}

proof fn lemma_each_in_order(steps: Seq<StepModel>, on: Resource)
    requires
        steps.len() == 11,
        in_order(steps, on, 0),
        in_order(steps, on, 1),
        in_order(steps, on, 2),
        in_order(steps, on, 3),
        in_order(steps, on, 4),
        in_order(steps, on, 5),
        in_order(steps, on, 6),
        in_order(steps, on, 7),
        in_order(steps, on, 8),
        in_order(steps, on, 9),
        in_order(steps, on, 10),
    ensures
        synchronized(steps, on),
{
}

/// A view is used for the image that it shows alone. It is destroyed exactly if a view of
/// another image takes its place, and the new one has the format of the source.
pub proof fn law_view_is_kept_for_its_image(
    kept: Option<(u64, u64)>,
    format: VkFormat,
    image: u64,
    view: u64,
)
    ensures
        ({
            let action = source_view_of(kept, format, image);
            &&& action == (SourceView::Reuse { view }) <==> kept == Some((image, view))
            &&& action is Create ==> action->format == format
            &&& action is Create ==> (action->destroy is Some <==> kept is Some)
            &&& action is Create && kept is Some ==> action->destroy == Some(kept->Some_0.1)
            &&& source_view_of(Some((image, view)), format, image) == (SourceView::Reuse { view })
        }),
{
}

/// The pipeline layout has room for the values that a conversion pushes, of four bytes each,
/// and for two more.
pub proof fn law_push_constants_fit(config: ColorConverterConfig, src_layout: ImageLayout, i: int)
    requires
        0 <= i < conversion(config, src_layout).len(),
    ensures
        conversion(config, src_layout)[i] matches StepModel::PushConstants(values) ==> 4 * (
        values.len() + 2) == PUSH_CONSTANT_SIZE,
        exists|k: int|
            0 <= k < conversion(config, src_layout).len() && #[trigger] conversion(
                config,
                src_layout,
            )[k] is PushConstants,
{
    assert(conversion(config, src_layout)[4] is PushConstants);
}

} // verus!
