//! Steps of transfers and conversions, to be recorded into a command buffer.
//!
//! Each sequence of steps works on a source image, a target image and a
//! buffer; which handles these are is known to whoever records the steps.

use crate::vk::{AccessMask, ImageLayout, PipelineStage};
use vstd::prelude::*;

verus! {

/// A plane of an image.
#[derive(Debug, Clone, Copy, PartialEq, Eq, Structural)]
pub enum ImagePlane {
    /// Luma.
    Plane0,
    /// Interleaved chroma, or the first chroma component.
    Plane1,
    /// The second chroma component.
    Plane2,
}

/// A copy from a buffer to one plane of an image.
///
/// The rows of the buffer are tightly packed, and the copy covers the plane
/// from its origin in the first layer and mip level.
#[derive(Debug, Clone, Copy, PartialEq, Eq, Structural)]
pub struct PlaneCopy {
    /// Offset of the plane in the buffer.
    pub buffer_offset: u64,
    /// The plane.
    pub plane: ImagePlane,
    /// Width in texels of the plane.
    pub width: u32,
    /// Height in texels of the plane.
    pub height: u32,
}

impl PlaneCopy {
    /// Byte of the buffer that component `c` of the texel at `x` and `y` is taken from,
    /// for texels of `components` components of `bytes` bytes.
    pub open spec fn source_byte(
        self,
        components: int,
        bytes: int,
        x: int,
        y: int,
        c: int,
    ) -> int {
        self.buffer_offset + ((y * self.width + x) * components + c) * bytes
    }
}

/// A part of a plane that is copied from one image to the same place of another.
#[derive(Debug, Clone, Copy, PartialEq, Eq, Structural)]
pub struct PlaneExtent {
    /// The plane.
    pub plane: ImagePlane,
    /// Width in texels of the plane.
    pub width: u32,
    /// Height in texels of the plane.
    pub height: u32,
}

/// The image that a step works on.
#[derive(Debug, Clone, Copy, PartialEq, Eq, Structural)]
pub enum ImageRole {
    /// The image that is read.
    Source,
    /// The image that is written.
    Target,
}

/// A barrier that moves an image from one layout to another.
#[derive(Debug, Clone, Copy, PartialEq, Eq, Structural)]
pub struct ImageBarrier {
    /// The image.
    pub image: ImageRole,
    /// The layout that the image is in.
    pub old_layout: ImageLayout,
    /// The layout that it is moved to.
    pub new_layout: ImageLayout,
    /// Accesses before the barrier.
    pub src_access: AccessMask,
    /// Accesses after the barrier.
    pub dst_access: AccessMask,
    /// Stages that come before the barrier.
    pub src_stage: PipelineStage,
    /// Stages that come after the barrier.
    pub dst_stage: PipelineStage,
}

/// A barrier on the buffer.
#[derive(Debug, Clone, Copy, PartialEq, Eq, Structural)]
pub struct BufferBarrier {
    /// Accesses before the barrier.
    pub src_access: AccessMask,
    /// Accesses after the barrier.
    pub dst_access: AccessMask,
    /// Stages that come before the barrier.
    pub src_stage: PipelineStage,
    /// Stages that come after the barrier.
    pub dst_stage: PipelineStage,
}

/// A step.
#[derive(Debug)]
pub enum Step {
    /// Move an image from one layout to another.
    ImageBarrier(ImageBarrier),
    /// Make what was done to the buffer visible.
    BufferBarrier(BufferBarrier),
    /// Fill this many bytes of the buffer with zeros.
    FillBuffer(u64),
    /// Bind the compute pipeline and its descriptors.
    BindPipeline,
    /// Hand parameters to the shader.
    PushConstants([u32; 5]),
    /// Run the shader, which reads the source image and writes the buffer, on
    /// this many work groups.
    Dispatch(u32, u32, u32),
    /// Copy the buffer to planes of the target image.
    CopyBuffer(Vec<PlaneCopy>),
    /// Copy planes of the source image to the target image.
    CopyImage(Vec<PlaneExtent>),
}

/// A step, with its lists as sequences.
pub enum StepModel {
    ImageBarrier(ImageBarrier),
    BufferBarrier(BufferBarrier),
    FillBuffer(int),
    BindPipeline,
    PushConstants(Seq<u32>),
    Dispatch(int, int, int),
    CopyBuffer(Seq<PlaneCopy>),
    CopyImage(Seq<PlaneExtent>),
}

impl View for Step {
    type V = StepModel;

    open spec fn view(&self) -> StepModel {
        match self {
            Step::ImageBarrier(b) => StepModel::ImageBarrier(*b),
            Step::BufferBarrier(b) => StepModel::BufferBarrier(*b),
            Step::FillBuffer(size) => StepModel::FillBuffer(*size as int),
            Step::BindPipeline => StepModel::BindPipeline,
            Step::PushConstants(values) => StepModel::PushConstants(values@),
            Step::Dispatch(x, y, z) => StepModel::Dispatch(*x as int, *y as int, *z as int),
            Step::CopyBuffer(copies) => StepModel::CopyBuffer(copies@),
            Step::CopyImage(planes) => StepModel::CopyImage(planes@),
        }
    }
}

/// What a list of steps does.
pub open spec fn modelled(steps: Seq<Step>) -> Seq<StepModel> {
    steps.map_values(|s: Step| s@)
}

/// Layouts of the source and the target image.
pub struct Layouts {
    pub source: ImageLayout,
    pub target: ImageLayout,
}

impl Layouts {
    /// Layout of one of the images.
    pub open spec fn of(self, image: ImageRole) -> ImageLayout {
        match image {
            ImageRole::Source => self.source,
            ImageRole::Target => self.target,
        }
    }
}

/// Layouts after the first `k` steps.
pub open spec fn layouts_after(steps: Seq<StepModel>, start: Layouts, k: nat) -> Layouts
    decreases k,
{
    if k == 0 {
        start
    } else {
        let before = layouts_after(steps, start, (k - 1) as nat);
        match steps[k - 1] {
            StepModel::ImageBarrier(b) => match b.image {
                ImageRole::Source => Layouts { source: b.new_layout, ..before },
                ImageRole::Target => Layouts { target: b.new_layout, ..before },
            },
            _ => before,
        }
    }
}

/// Step `k` finds the images in layouts that it can work with: a barrier finds
/// the layout that it names, unless it gives up what the image holds.
pub open spec fn layouts_fit(steps: Seq<StepModel>, start: Layouts, k: int) -> bool {
    let now = layouts_after(steps, start, k as nat);
    match steps[k] {
        StepModel::ImageBarrier(b) => b.old_layout == now.of(b.image) || b.old_layout
            == ImageLayout::Undefined,
        StepModel::Dispatch(_, _, _) => now.source == ImageLayout::ShaderReadOnlyOptimal,
        StepModel::CopyBuffer(_) => now.target == ImageLayout::TransferDstOptimal,
        StepModel::CopyImage(_) => now.source == ImageLayout::TransferSrcOptimal && now.target
            == ImageLayout::TransferDstOptimal,
        _ => true,
    }
}

/// The steps take the images from one pair of layouts to another, and each
/// finds them in layouts that it can work with.
pub open spec fn moves_layouts(steps: Seq<StepModel>, start: Layouts, end: Layouts) -> bool {
    &&& layouts_after(steps, start, steps.len()) == end
    &&& forall|k: int| 0 <= k < steps.len() ==> #[trigger] layouts_fit(steps, start, k)
}

/// What steps work on.
pub enum Resource {
    /// The buffer.
    Buffer,
    /// The image that is read.
    Source,
    /// The image that is written.
    Target,
}

impl Resource {
    /// A barrier on an image is one on this resource.
    pub open spec fn is_image(self, image: ImageRole) -> bool {
        match image {
            ImageRole::Source => self == Resource::Source,
            ImageRole::Target => self == Resource::Target,
        }
    }
}

/// How a step uses a resource.
pub struct Use {
    /// The stage that the step runs in.
    pub stage: PipelineStage,
    /// What must be allowed before the step.
    pub needs: AccessMask,
    /// What must be waited for after the step.
    pub leaves: AccessMask,
}

/// A use whose accesses are of one kind.
pub open spec fn plain_use(stage: PipelineStage, access: AccessMask) -> Option<Use> {
    Some(Use { stage, needs: access, leaves: access })
}

/// How a step uses a resource, if it does. The shader also reads what it adds to in the
/// buffer.
pub open spec fn use_of(step: StepModel, on: Resource) -> Option<Use> {
    match (step, on) {
        (StepModel::FillBuffer(_), Resource::Buffer) => plain_use(
            PipelineStage::Transfer,
            AccessMask::TransferWrite,
        ),
        (StepModel::Dispatch(_, _, _), Resource::Buffer) => Some(
            Use {
                stage: PipelineStage::ComputeShader,
                needs: AccessMask::ShaderReadWrite,
                leaves: AccessMask::ShaderWrite,
            },
        ),
        (StepModel::Dispatch(_, _, _), Resource::Source) => plain_use(
            PipelineStage::ComputeShader,
            AccessMask::ShaderRead,
        ),
        (StepModel::CopyBuffer(_), Resource::Buffer) => plain_use(
            PipelineStage::Transfer,
            AccessMask::TransferRead,
        ),
        (StepModel::CopyBuffer(_), Resource::Target) => plain_use(
            PipelineStage::Transfer,
            AccessMask::TransferWrite,
        ),
        (StepModel::CopyImage(_), Resource::Source) => plain_use(
            PipelineStage::Transfer,
            AccessMask::TransferRead,
        ),
        (StepModel::CopyImage(_), Resource::Target) => plain_use(
            PipelineStage::Transfer,
            AccessMask::TransferWrite,
        ),
        _ => None,
    }
}

/// A barrier on a resource, without layouts.
pub open spec fn barrier_of(step: StepModel, on: Resource) -> Option<BufferBarrier> {
    match step {
        StepModel::BufferBarrier(b) => if on == Resource::Buffer {
            Some(b)
        } else {
            None
        },
        StepModel::ImageBarrier(b) => if on.is_image(b.image) {
            Some(
                BufferBarrier {
                    src_access: b.src_access,
                    dst_access: b.dst_access,
                    src_stage: b.src_stage,
                    dst_stage: b.dst_stage,
                },
            )
        } else {
            None
        },
        _ => None,
    }
}

/// What has been done to a resource last.
pub enum Progress {
    /// Nothing yet.
    Fresh,
    /// A step has used it.
    Used(Use),
    /// A barrier has been put behind what was done.
    Guarded(BufferBarrier),
}

/// What has been done to a resource last after another step.
pub open spec fn advanced(before: Progress, step: StepModel, on: Resource) -> Progress {
    match (barrier_of(step, on), use_of(step, on)) {
        (Some(b), _) => Progress::Guarded(b),
        (None, Some(u)) => Progress::Used(u),
        (None, None) => before,
    }
}

/// What the first `k` steps have done to a resource last.
pub open spec fn progress(steps: Seq<StepModel>, on: Resource, k: nat) -> Progress
    decreases k,
{
    if k == 0 {
        Progress::Fresh
    } else {
        advanced(progress(steps, on, (k - 1) as nat), steps[k - 1], on)
    }
}

/// A stage of a barrier takes in the stage of a step.
pub open spec fn stage_covers(barrier: PipelineStage, step: PipelineStage) -> bool {
    barrier == step || (barrier == PipelineStage::TransferAndComputeShader && (step
        == PipelineStage::Transfer || step == PipelineStage::ComputeShader))
}

/// Step `k` is in order as far as a resource goes. A barrier waits for what the last step
/// that used the resource did. A step that uses it follows a barrier that allows the use;
/// only the first use of the buffer has nothing to wait for.
pub open spec fn in_order(steps: Seq<StepModel>, on: Resource, k: int) -> bool {
    let before = progress(steps, on, k as nat);
    match (barrier_of(steps[k], on), use_of(steps[k], on)) {
        (Some(b), _) => before matches Progress::Used(u) ==> b.src_access == u.leaves
            && stage_covers(b.src_stage, u.stage),
        (None, Some(u)) => match before {
            Progress::Fresh => on == Resource::Buffer,
            Progress::Used(_) => false,
            Progress::Guarded(b) => b.dst_access == u.needs && stage_covers(b.dst_stage, u.stage),
        },
        (None, None) => true,
    }
}

/// Step `k` is the first that has to do with a resource. It is a barrier that waits for
/// these accesses in this stage.
pub open spec fn comes_from(
    steps: Seq<StepModel>,
    on: Resource,
    k: int,
    access: AccessMask,
    stage: PipelineStage,
) -> bool {
    &&& progress(steps, on, k as nat) == Progress::Fresh
    &&& barrier_of(steps[k], on) is Some
    &&& barrier_of(steps[k], on)->Some_0.src_access == access
    &&& barrier_of(steps[k], on)->Some_0.src_stage == stage
}

/// Step `k` is the last that has to do with a resource. It is a barrier that allows these
/// accesses in this stage.
pub open spec fn goes_to(
    steps: Seq<StepModel>,
    on: Resource,
    k: int,
    access: AccessMask,
    stage: PipelineStage,
) -> bool {
    &&& barrier_of(steps[k], on) is Some
    &&& progress(steps, on, steps.len()) == Progress::Guarded(barrier_of(steps[k], on)->Some_0)
    &&& barrier_of(steps[k], on)->Some_0.dst_access == access
    &&& barrier_of(steps[k], on)->Some_0.dst_stage == stage
}

/// All steps are in order as far as a resource goes.
pub open spec fn synchronized(steps: Seq<StepModel>, on: Resource) -> bool {
    forall|k: int| 0 <= k < steps.len() ==> #[trigger] in_order(steps, on, k)
}

} // verus!
