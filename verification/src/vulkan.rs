//! Choice of a Vulkan device for video encoding.
//!
//! The program that talks to Vulkan reports what each device offers; the
//! builder picks the device, its queue families and its extensions.

use crate::encoder::dpb::select::first_true;
use crate::encoder::resources::{self, distinct_families, suitable_types, unique_families};
use crate::encoder::Codec;
use crate::error::PixelForgeError;
use crate::vk::make_api_version;
use vstd::prelude::*;

verus! {

/// What a queue family can do.
#[derive(Debug, Clone, Copy, PartialEq, Eq, Structural)]
pub struct QueueFamily {
    /// Video encoding.
    pub video_encode: bool,
    /// Transfers.
    pub transfer: bool,
    /// Compute shaders.
    pub compute: bool,
}

/// What a device says of a codec.
#[derive(Debug, Clone, Copy, PartialEq, Eq, Structural)]
pub struct CodecProbe {
    /// The device has the extension of the codec.
    pub extension: bool,
    /// The device reports capabilities for encoding with the codec.
    pub supported: bool,
}

/// What a device offers.
#[derive(Debug)]
pub struct DeviceInfo {
    /// Its queue families.
    pub queue_families: Vec<QueueFamily>,
    /// Whether its extensions could be listed.
    pub extensions_listed: bool,
    /// H.264.
    pub h264: CodecProbe,
    /// H.265.
    pub h265: CodecProbe,
    /// AV1.
    pub av1: CodecProbe,
    /// Property flags of its memory types.
    pub memory_types: Vec<u32>,
}

/// Queue families of a device, by purpose.
#[derive(Debug, Clone, Copy, PartialEq, Eq, Structural)]
pub struct QueueChoice {
    /// For encoding.
    pub encode: Option<u32>,
    /// For transfers.
    pub transfer: Option<u32>,
    /// For compute shaders.
    pub compute: Option<u32>,
}

/// Last of the first `n` families that `f` picks.
pub open spec fn last_family(
    families: Seq<QueueFamily>,
    f: spec_fn(QueueFamily) -> bool,
    n: nat,
) -> Option<u32>
    decreases n,
{
    if n == 0 {
        None
    } else if f(families[n - 1]) {
        Some((n - 1) as u32)
    } else {
        last_family(families, f, (n - 1) as nat)
    }
}

/// First of the first `n` families that `f` picks.
pub open spec fn first_family(
    families: Seq<QueueFamily>,
    f: spec_fn(QueueFamily) -> bool,
    n: nat,
) -> Option<u32>
    decreases n,
{
    if n == 0 {
        None
    } else {
        let before = first_family(families, f, (n - 1) as nat);
        if before is None && f(families[n - 1]) {
            Some((n - 1) as u32)
        } else {
            before
        }
    }
}

/// The last family that encodes video, the last that transfers, and the first
/// that computes.
pub open spec fn queue_choice(families: Seq<QueueFamily>) -> QueueChoice {
    QueueChoice {
        encode: last_family(families, |q: QueueFamily| q.video_encode, families.len()),
        transfer: last_family(families, |q: QueueFamily| q.transfer, families.len()),
        compute: first_family(families, |q: QueueFamily| q.compute, families.len()),
    }
}

/// Find queue families.
pub fn find_queue_families(families: &Vec<QueueFamily>) -> (choice: QueueChoice)
    requires
        families@.len() <= u32::MAX,
    ensures
        choice == queue_choice(families@),
{
    let mut choice = QueueChoice { encode: None, transfer: None, compute: None };
    let mut i: usize = 0;
    while i < families.len()
        invariant
            i <= families@.len() <= u32::MAX,
            choice.encode == last_family(families@, |q: QueueFamily| q.video_encode, i as nat),
            choice.transfer == last_family(families@, |q: QueueFamily| q.transfer, i as nat),
            choice.compute == first_family(families@, |q: QueueFamily| q.compute, i as nat),
        decreases families@.len() - i,
    {
        let family = families[i];
        if family.video_encode {
            choice.encode = Some(i as u32);
        }
        if family.transfer {
            choice.transfer = Some(i as u32);
        }
        if family.compute && choice.compute.is_none() {
            choice.compute = Some(i as u32);
        }
        i = i + 1;
    }
    choice
}

/// The codec can be used on the device.
pub open spec fn usable(probe: CodecProbe) -> bool {
    probe.extension && probe.supported
}

/// Codecs that a device can encode, if it can encode at all.
pub open spec fn encode_codecs_of(info: DeviceInfo) -> Seq<Codec> {
    if queue_choice(info.queue_families@).encode is None {
        Seq::empty()
    } else {
        let a = if usable(info.h264) {
            seq![Codec::H264]
        } else {
            seq![]
        };
        let b = if usable(info.h265) {
            a.push(Codec::H265)
        } else {
            a
        };
        if usable(info.av1) {
            b.push(Codec::AV1)
        } else {
            b
        }
    }
}

/// The device has an encode queue and a compute queue, its extensions could be
/// listed, and it can encode all required codecs.
pub open spec fn is_suitable(required: Seq<Codec>, info: DeviceInfo) -> bool {
    let queues = queue_choice(info.queue_families@);
    &&& queues.encode is Some
    &&& info.extensions_listed
    &&& queues.compute is Some
    &&& forall|i: int|
        0 <= i < required.len() ==> encode_codecs_of(info).contains(#[trigger] required[i])
}

/// Which devices are suitable.
pub open spec fn suitable_devices(required: Seq<Codec>, devices: Seq<DeviceInfo>) -> Seq<bool> {
    Seq::new(devices.len(), |i: int| is_suitable(required, devices[i]))
}

/// A device extension.
#[derive(Debug, Clone, Copy, PartialEq, Eq, Structural)]
pub enum DeviceExtension {
    /// `VK_KHR_video_queue`.
    VideoQueue,
    /// `VK_KHR_synchronization2`.
    Synchronization2,
    /// `VK_KHR_external_memory`.
    ExternalMemory,
    /// `VK_KHR_external_memory_fd`.
    ExternalMemoryFd,
    /// `VK_EXT_external_memory_dma_buf`.
    ExternalMemoryDmaBuf,
    /// `VK_EXT_image_drm_format_modifier`.
    ImageDrmFormatModifier,
    /// `VK_KHR_video_encode_queue`.
    VideoEncodeQueue,
    /// `VK_KHR_video_encode_h264`.
    VideoEncodeH264,
    /// `VK_KHR_video_encode_h265`.
    VideoEncodeH265,
    /// `VK_KHR_video_encode_av1`.
    VideoEncodeAv1,
    /// `VK_EXT_ycbcr_2plane_444_formats`.
    Ycbcr2Plane444Formats,
}

/// `s` with `x` appended if `wanted`.
pub open spec fn with_extension(s: Seq<DeviceExtension>, x: DeviceExtension, wanted: bool) -> Seq<
    DeviceExtension,
> {
    if wanted {
        s.push(x)
    } else {
        s
    }
}

/// Extensions that any device is created with; for DMA-BUF support, those to import
/// images are among them.
pub open spec fn base_extensions(dmabuf: bool) -> Seq<DeviceExtension> {
    if dmabuf {
        seq![
            DeviceExtension::VideoQueue,
            DeviceExtension::Synchronization2,
            DeviceExtension::ExternalMemory,
            DeviceExtension::ExternalMemoryFd,
            DeviceExtension::ExternalMemoryDmaBuf,
            DeviceExtension::ImageDrmFormatModifier,
        ]
    } else {
        seq![DeviceExtension::VideoQueue, DeviceExtension::Synchronization2]
    }
}

/// Extensions that a device is created with.
pub open spec fn extensions_for(dmabuf: bool, encodes: bool, codecs: Seq<Codec>) -> Seq<
    DeviceExtension,
> {
    let base = base_extensions(dmabuf);
    let queue = with_extension(base, DeviceExtension::VideoEncodeQueue, encodes);
    let h264 = with_extension(
        queue,
        DeviceExtension::VideoEncodeH264,
        encodes && codecs.contains(Codec::H264),
    );
    let h265 = with_extension(
        h264,
        DeviceExtension::VideoEncodeH265,
        encodes && codecs.contains(Codec::H265),
    );
    let av1 = with_extension(
        h265,
        DeviceExtension::VideoEncodeAv1,
        encodes && codecs.contains(Codec::AV1),
    );
    av1.push(DeviceExtension::Ycbcr2Plane444Formats)
}

fn has_codec(codecs: &Vec<Codec>, codec: Codec) -> (found: bool)
    ensures
        found == codecs@.contains(codec),
{
    let mut i: usize = 0;
    while i < codecs.len()
        invariant
            i <= codecs@.len(),
            forall|k: int| 0 <= k < i ==> codecs@[k] != codec,
        decreases codecs@.len() - i,
    {
        if codecs[i] == codec {
            return true;
        }
        i = i + 1;
    }
    false
}

/// Whether the validation layer and its configuration extension are enabled.
#[derive(Debug, Clone, Copy, PartialEq, Eq, Structural)]
pub struct ValidationPlan {
    /// The validation layer.
    pub layer: bool,
    /// The extension to configure it.
    pub features: bool,
}

/// Builder for creating a VideoContext.
#[must_use]
#[derive(Debug)]
pub struct VideoContextBuilder {
    app_name: String,
    app_version: (u32, u32, u32),
    enable_validation: bool,
    required_encode_codecs: Vec<Codec>,
}

/// What a builder was told.
#[verifier::ext_equal]
pub struct BuilderModel {
    pub app_name: Seq<char>,
    pub app_version: (u32, u32, u32),
    pub enable_validation: bool,
    pub required: Seq<Codec>,
}

impl View for VideoContextBuilder {
    type V = BuilderModel;

    closed spec fn view(&self) -> BuilderModel {
        BuilderModel {
            app_name: self.app_name@,
            app_version: self.app_version,
            enable_validation: self.enable_validation,
            required: self.required_encode_codecs@,
        }
    }
}

/// What a builder starts with.
pub open spec fn default_builder() -> BuilderModel {
    BuilderModel {
        app_name: "PixelForge"@,
        app_version: (1, 0, 0),
        enable_validation: false,
        required: Seq::empty(),
    }
}

impl Default for VideoContextBuilder {
    fn default() -> (builder: Self)
        ensures
            builder@ == default_builder(),
    {
        VideoContextBuilder::new()
    }
}

/// Message when no device is suitable.
pub open spec fn no_device() -> Seq<char> {
    "No device with required video support found. Ensure your GPU drivers support Vulkan Video extensions (VK_KHR_video_queue, VK_KHR_video_encode_queue, etc.)."@
}

impl VideoContextBuilder {
    /// Create a new VideoContextBuilder with default settings.
    pub fn new() -> (builder: Self)
        ensures
            builder@ == default_builder(),
    {
        VideoContextBuilder {
            app_name: "PixelForge".to_string(),
            app_version: (1, 0, 0),
            enable_validation: false,
            required_encode_codecs: Vec::new(),
        }
    }

    /// Set the application name.
    pub fn app_name(self, name: &str) -> (builder: Self)
        ensures
            builder@ == (BuilderModel { app_name: name@, ..self@ }),
    {
        VideoContextBuilder { app_name: name.to_string(), ..self }
    }

    /// Set the application version.
    pub fn app_version(self, major: u32, minor: u32, patch: u32) -> (builder: Self)
        ensures
            builder@ == (BuilderModel { app_version: (major, minor, patch), ..self@ }),
    {
        VideoContextBuilder { app_version: (major, minor, patch), ..self }
    }

    /// Enable or disable validation layers.
    pub fn enable_validation(self, enable: bool) -> (builder: Self)
        ensures
            builder@ == (BuilderModel { enable_validation: enable, ..self@ }),
    {
        VideoContextBuilder { enable_validation: enable, ..self }
    }

    /// Require video encode support for a codec.
    pub fn require_encode(self, codec: Codec) -> (builder: Self)
        ensures
            builder@ == (BuilderModel { required: self@.required.push(codec), ..self@ }),
    {
        let mut builder = self;
        builder.required_encode_codecs.push(codec);
        builder
    }

    /// The application name.
    pub fn name(&self) -> (name: &str)
        ensures
            name@ == self@.app_name,
    {
        self.app_name.as_str()
    }

    /// The application version as one number.
    pub fn application_version(&self) -> (version: u32)
        ensures
            version == (0u32 << 29u32) | (self@.app_version.0 << 22u32) | (self@.app_version.1
                << 12u32) | self@.app_version.2,
    {
        make_api_version(0, self.app_version.0, self.app_version.1, self.app_version.2)
    }

    /// Decide on validation. The layer is enabled if it was asked for and is
    /// there; its configuration extension if that is there too.
    pub fn validation(&self, layer_available: bool, features_available: bool) -> (plan:
        ValidationPlan)
        ensures
            plan == (ValidationPlan {
                layer: self@.enable_validation && layer_available,
                features: self@.enable_validation && layer_available && features_available,
            }),
    {
        let layer: bool = self.enable_validation && layer_available;
        ValidationPlan { layer, features: layer && features_available }
    }

    /// Whether a device is suitable.
    fn accepts(&self, info: &DeviceInfo, codecs: &Vec<Codec>, queues: QueueChoice) -> (ok: bool)
        requires
            queues == queue_choice(info.queue_families@),
            codecs@ == encode_codecs_of(*info),
        ensures
            ok == is_suitable(self@.required, *info),
    {
        if queues.encode.is_none() || !info.extensions_listed || queues.compute.is_none() {
            return false;
        }
        // Check if all required encode codecs are supported.

        let mut i: usize = 0;
        while i < self.required_encode_codecs.len()
            invariant
                i <= self@.required.len(),
                self@.required == self.required_encode_codecs@,
                codecs@ == encode_codecs_of(*info),
                forall|k: int|
                    0 <= k < i ==> encode_codecs_of(*info).contains(#[trigger] self@.required[k]),
            decreases self@.required.len() - i,
        {
            if !has_codec(codecs, self.required_encode_codecs[i]) {
                assert(!encode_codecs_of(*info).contains(self@.required[i as int]));
                return false;
            }
            i = i + 1;
        }
        true
    }

    /// Choose the device: the first that is suitable.
    pub fn build(self, devices: &Vec<DeviceInfo>) -> (context: Result<
        VideoContext,
        PixelForgeError,
    >)
        requires
            forall|i: int|
                0 <= i < devices@.len() ==> (#[trigger] devices@[i]).queue_families@.len()
                    <= u32::MAX,
        ensures
            match (context, first_true(suitable_devices(self@.required, devices@))) {
                (Ok(context), Some(i)) => {
                    let info = devices@[i];
                    let queues = queue_choice(info.queue_families@);
                    context@ == (ContextModel {
                        device: i,
                        encode_family: queues.encode,
                        transfer_family: match queues.transfer {
                            Some(t) => t,
                            None => queues.encode->0,
                        },
                        compute_family: queues.compute->0,
                        codecs: encode_codecs_of(info),
                        memory_types: info.memory_types@,
                    }) && context@ == context_of(info, i)
                },
                (Err(e), None) => e.is_no_suitable_device(no_device()),
                _ => false,
            },
    {
        let ghost flags = suitable_devices(self@.required, devices@);
        let mut d: usize = 0;
        while d < devices.len()
            invariant
                d <= devices@.len(),
                flags == suitable_devices(self@.required, devices@),
                first_true(flags) == crate::encoder::dpb::select::first_true_from(flags, d as int),
                forall|i: int|
                    0 <= i < devices@.len() ==> (#[trigger] devices@[i]).queue_families@.len()
                        <= u32::MAX,
            decreases devices@.len() - d,
        {
            let info = &devices[d];
            let queues = find_queue_families(&info.queue_families);
            let mut codecs: Vec<Codec> = Vec::new();
            if queues.encode.is_some() {
                if info.h264.extension && info.h264.supported {
                    codecs.push(Codec::H264);
                }
                if info.h265.extension && info.h265.supported {
                    codecs.push(Codec::H265);
                }
                if info.av1.extension && info.av1.supported {
                    codecs.push(Codec::AV1);
                }
            }
            assert(codecs@ =~= encode_codecs_of(*info));
            if self.accepts(info, &codecs, queues) {
                assert(flags[d as int]);
                let encode: u32 = queues.encode.unwrap();
                let memory_types: Vec<u32> = copy_types(&info.memory_types);
                return Ok(
                    VideoContext {
                        device: d,
                        video_encode_queue_family: queues.encode,
                        transfer_queue_family: match queues.transfer {
                            Some(t) => t,
                            None => encode,
                        },
                        compute_queue_family: queues.compute.unwrap(),
                        supported_encode_codecs: codecs,
                        memory_types,
                    },
                );
            }
            d = d + 1;
        }
        Err(
            PixelForgeError::NoSuitableDevice(
                "No device with required video support found. Ensure your GPU drivers support Vulkan Video extensions (VK_KHR_video_queue, VK_KHR_video_encode_queue, etc.).".to_string(),
            ),
        )
    }
}

fn copy_types(types: &Vec<u32>) -> (copy: Vec<u32>)
    ensures
        copy@ == types@,
{
    let mut copy: Vec<u32> = Vec::new();
    let mut i: usize = 0;
    while i < types.len()
        invariant
            i <= types@.len(),
            copy@ =~= types@.take(i as int),
        decreases types@.len() - i,
    {
        copy.push(types[i]);
        i = i + 1;
    }
    assert(types@.take(i as int) =~= types@);
    copy
}

/// The device that was chosen for video operations.
#[derive(Debug)]
pub struct VideoContext {
    device: usize,
    video_encode_queue_family: Option<u32>,
    transfer_queue_family: u32,
    compute_queue_family: u32,
    supported_encode_codecs: Vec<Codec>,
    memory_types: Vec<u32>,
}

/// What was chosen.
#[verifier::ext_equal]
pub struct ContextModel {
    /// Index of the device.
    pub device: int,
    /// Queue family for encoding.
    pub encode_family: Option<u32>,
    /// Queue family for transfers.
    pub transfer_family: u32,
    /// Queue family for compute shaders.
    pub compute_family: u32,
    /// Codecs that the device can encode.
    pub codecs: Seq<Codec>,
    /// Property flags of the memory types.
    pub memory_types: Seq<u32>,
}

impl View for VideoContext {
    type V = ContextModel;

    closed spec fn view(&self) -> ContextModel {
        ContextModel {
            device: self.device as int,
            encode_family: self.video_encode_queue_family,
            transfer_family: self.transfer_queue_family,
            compute_family: self.compute_queue_family,
            codecs: self.supported_encode_codecs@,
            memory_types: self.memory_types@,
        }
    }
}

impl VideoContext {
    /// Get the index of the physical device.
    pub fn physical_device(&self) -> (device: usize)
        ensures
            device == self@.device,
    {
        self.device
    }

    /// Get the video encode queue family index.
    pub fn video_encode_queue_family(&self) -> (family: Option<u32>)
        ensures
            family == self@.encode_family,
    {
        self.video_encode_queue_family
    }

    /// Get the transfer queue family index.
    pub fn transfer_queue_family(&self) -> (family: u32)
        ensures
            family == self@.transfer_family,
    {
        self.transfer_queue_family
    }

    /// Get the compute queue family index.
    pub fn compute_queue_family(&self) -> (family: u32)
        ensures
            family == self@.compute_family,
    {
        self.compute_queue_family
    }

    /// Get the unique queue families to create queues for.
    pub fn queue_families(&self) -> (families: Vec<u32>)
        ensures
            families@ == distinct_families(
                self@.encode_family,
                self@.transfer_family,
                self@.compute_family,
            ),
    {
        unique_families(
            self.video_encode_queue_family,
            self.transfer_queue_family,
            self.compute_queue_family,
        )
    }

    /// Get the extensions to create the device with. With `dmabuf`, images can be
    /// imported from other processes.
    pub fn device_extensions(&self, dmabuf: bool) -> (extensions: Vec<DeviceExtension>)
        ensures
            extensions@ == extensions_for(dmabuf, self@.encode_family is Some, self@.codecs),
    {
        let mut extensions: Vec<DeviceExtension> = vec![
            DeviceExtension::VideoQueue,
            DeviceExtension::Synchronization2,
        ];
        if dmabuf {
            extensions.push(DeviceExtension::ExternalMemory);
            extensions.push(DeviceExtension::ExternalMemoryFd);
            extensions.push(DeviceExtension::ExternalMemoryDmaBuf);
            extensions.push(DeviceExtension::ImageDrmFormatModifier);
        }
        assert(extensions@ =~= base_extensions(dmabuf));
        if self.video_encode_queue_family.is_some() {
            extensions.push(DeviceExtension::VideoEncodeQueue);
            if self.supports_encode(Codec::H264) {
                extensions.push(DeviceExtension::VideoEncodeH264);
            }
            if self.supports_encode(Codec::H265) {
                extensions.push(DeviceExtension::VideoEncodeH265);
            }
            if self.supports_encode(Codec::AV1) {
                extensions.push(DeviceExtension::VideoEncodeAv1);
            }
        }
        extensions.push(DeviceExtension::Ycbcr2Plane444Formats);
        extensions
    }

    /// Check if a codec is supported for encoding.
    pub fn supports_encode(&self, codec: Codec) -> (supported: bool)
        ensures
            supported == self@.codecs.contains(codec),
    {
        has_codec(&self.supported_encode_codecs, codec)
    }

    /// Find a memory type that satisfies the requirements.
    pub fn find_memory_type(&self, type_filter: u32, properties: u32) -> (index: Option<u32>)
        requires
            self@.memory_types.len() <= 32,
        ensures
            match index {
                Some(i) => first_true(
                    suitable_types(self@.memory_types, type_filter, properties),
                ) == Some(i as int),
                None => first_true(
                    suitable_types(self@.memory_types, type_filter, properties),
                ) is None,
            },
    {
        resources::find_memory_type(self.memory_types.as_slice(), type_filter, properties)
    }
}

/// A device that is chosen can encode every codec that was required, and the
/// device is created with the extension of each.
pub proof fn law_chosen_device_has_required_codecs(
    required: Seq<Codec>,
    info: DeviceInfo,
    codec: Codec,
    dmabuf: bool,
)
    requires
        is_suitable(required, info),
        required.contains(codec),
    ensures
        encode_codecs_of(info).contains(codec),
        extensions_for(dmabuf, true, encode_codecs_of(info)).contains(
            match codec {
                Codec::H264 => DeviceExtension::VideoEncodeH264,
                Codec::H265 => DeviceExtension::VideoEncodeH265,
                Codec::AV1 => DeviceExtension::VideoEncodeAv1,
            },
        ),
{
    let i = choose|i: int| 0 <= i < required.len() && required[i] == codec;
    assert(encode_codecs_of(info).contains(required[i]));
    let codecs = encode_codecs_of(info);
    let all = extensions_for(dmabuf, true, codecs);
    let n = base_extensions(dmabuf).len() as int;
    let a = if codecs.contains(Codec::H264) {
        1int
    } else {
        0int
    };
    let b = if codecs.contains(Codec::H265) {
        1int
    } else {
        0int
    };
    match codec {
        Codec::H264 => {
            assert(all[n + 1] == DeviceExtension::VideoEncodeH264);
        },
        Codec::H265 => {
            assert(all[n + 1 + a] == DeviceExtension::VideoEncodeH265);
        },
        Codec::AV1 => {
            assert(all[n + 1 + a + b] == DeviceExtension::VideoEncodeAv1);
        },
    }
}

proof fn lemma_last_family(families: Seq<QueueFamily>, f: spec_fn(QueueFamily) -> bool, n: nat)
    requires
        n <= families.len() <= u32::MAX,
    ensures
        match last_family(families, f, n) {
            Some(e) => e < n && f(families[e as int]) && forall|i: int|
                e < i < n ==> !f(#[trigger] families[i]),
            None => forall|i: int| 0 <= i < n ==> !f(#[trigger] families[i]),
        },
    decreases n,
{
    if n > 0 {
        lemma_last_family(families, f, (n - 1) as nat);
    }
}

proof fn lemma_first_family(families: Seq<QueueFamily>, f: spec_fn(QueueFamily) -> bool, n: nat)
    requires
        n <= families.len() <= u32::MAX,
    ensures
        match first_family(families, f, n) {
            Some(e) => e < n && f(families[e as int]) && forall|i: int|
                0 <= i < e ==> !f(#[trigger] families[i]),
            None => forall|i: int| 0 <= i < n ==> !f(#[trigger] families[i]),
        },
    decreases n,
{
    if n > 0 {
        lemma_first_family(families, f, (n - 1) as nat);
    }
}

/// Queue families can do what they are chosen for. The family for encoding and that for
/// transfers is the last one that can, that for compute shaders the first. There is none
/// only if no family can.
pub proof fn law_queue_families_can_do_their_work(families: Seq<QueueFamily>, i: int)
    requires
        families.len() <= u32::MAX,
        0 <= i < families.len(),
    ensures
        ({
            let choice = queue_choice(families);
            &&& match choice.encode {
                Some(e) => e < families.len() && families[e as int].video_encode && (i > e
                    ==> !families[i].video_encode),
                None => !families[i].video_encode,
            }
            &&& match choice.transfer {
                Some(t) => t < families.len() && families[t as int].transfer && (i > t
                    ==> !families[i].transfer),
                None => !families[i].transfer,
            }
            &&& match choice.compute {
                Some(c) => c < families.len() && families[c as int].compute && (i < c
                    ==> !families[i].compute),
                None => !families[i].compute,
            }
        }),
{
    let n = families.len();
    lemma_last_family(families, |q: QueueFamily| q.video_encode, n);
    lemma_last_family(families, |q: QueueFamily| q.transfer, n);
    lemma_first_family(families, |q: QueueFamily| q.compute, n);
}

/// What a device says of a codec.
pub open spec fn probe_of(info: DeviceInfo, codec: Codec) -> CodecProbe {
    match codec {
        Codec::H264 => info.h264,
        Codec::H265 => info.h265,
        Codec::AV1 => info.av1,
    }
}

/// A device encodes a codec exactly if it has a queue family for encoding, the extension
/// of the codec, and capabilities for it. Each codec is listed once.
pub proof fn law_device_encodes_what_it_reports(info: DeviceInfo, codec: Codec)
    ensures
        encode_codecs_of(info).contains(codec) <==> {
            &&& queue_choice(info.queue_families@).encode is Some
            &&& probe_of(info, codec).extension
            &&& probe_of(info, codec).supported
        },
        encode_codecs_of(info).no_duplicates(),
{
    let all = encode_codecs_of(info);
    if queue_choice(info.queue_families@).encode is Some {
        let a = if usable(info.h264) {
            1int
        } else {
            0int
        };
        let b = if usable(info.h265) {
            1int
        } else {
            0int
        };
        assert(usable(info.h264) ==> all[0] == Codec::H264);
        assert(usable(info.h265) ==> all[a] == Codec::H265);
        assert(usable(info.av1) ==> all[a + b] == Codec::AV1);
    }
}

/// The device that is chosen is the first one that suits: it encodes every required codec,
/// has a queue family for encoding and one for compute shaders, and its extensions could be
/// listed. There is none only if no device suits.
pub proof fn law_first_suitable_device_is_chosen(
    required: Seq<Codec>,
    devices: Seq<DeviceInfo>,
    j: int,
)
    requires
        0 <= j < devices.len(),
    ensures
        match first_true(suitable_devices(required, devices)) {
            Some(i) => {
                let queues = queue_choice(devices[i].queue_families@);
                &&& 0 <= i < devices.len()
                &&& queues.encode is Some
                &&& queues.compute is Some
                &&& devices[i].extensions_listed
                &&& forall|k: int|
                    0 <= k < required.len() ==> encode_codecs_of(devices[i]).contains(
                        #[trigger] required[k],
                    )
                &&& j < i ==> !is_suitable(required, devices[j])
            },
            None => !is_suitable(required, devices[j]),
        },
{
    let flags = suitable_devices(required, devices);
    crate::encoder::dpb::select::lemma_first_true(flags);
    assert(flags[j] == is_suitable(required, devices[j]));
    if first_true(flags) is Some {
        let i = first_true(flags)->Some_0;
        assert(flags[i] == is_suitable(required, devices[i]));
    }
}

/// A device is created with the extension of video queues and the one of two-plane 4:4:4
/// formats in any case, with that of encode queues if it encodes, with those of the codecs
/// that it then encodes, and with those to import images if they are wanted; with each once.
pub proof fn law_extensions(dmabuf: bool, encodes: bool, codecs: Seq<Codec>)
    ensures
        ({
            let all = extensions_for(dmabuf, encodes, codecs);
            &&& all.contains(DeviceExtension::VideoQueue)
            &&& all.contains(DeviceExtension::Synchronization2)
            &&& all.contains(DeviceExtension::Ycbcr2Plane444Formats)
            &&& all.contains(DeviceExtension::VideoEncodeQueue) <==> encodes
            &&& all.contains(DeviceExtension::VideoEncodeH264) <==> encodes && codecs.contains(
                Codec::H264,
            )
            &&& all.contains(DeviceExtension::VideoEncodeH265) <==> encodes && codecs.contains(
                Codec::H265,
            )
            &&& all.contains(DeviceExtension::VideoEncodeAv1) <==> encodes && codecs.contains(
                Codec::AV1,
            )
            &&& all.contains(DeviceExtension::ExternalMemory) <==> dmabuf
            &&& all.contains(DeviceExtension::ExternalMemoryFd) <==> dmabuf
            &&& all.contains(DeviceExtension::ExternalMemoryDmaBuf) <==> dmabuf
            &&& all.contains(DeviceExtension::ImageDrmFormatModifier) <==> dmabuf
            &&& all.no_duplicates()
        }),
{
    let base = base_extensions(dmabuf);
    let queue = with_extension(base, DeviceExtension::VideoEncodeQueue, encodes);
    let h264 = with_extension(
        queue,
        DeviceExtension::VideoEncodeH264,
        encodes && codecs.contains(Codec::H264),
    );
    let h265 = with_extension(
        h264,
        DeviceExtension::VideoEncodeH265,
        encodes && codecs.contains(Codec::H265),
    );
    let av1 = with_extension(
        h265,
        DeviceExtension::VideoEncodeAv1,
        encodes && codecs.contains(Codec::AV1),
    );
    assert(base[0] == DeviceExtension::VideoQueue);
    assert(base[1] == DeviceExtension::Synchronization2);
    if dmabuf {
        assert(base[2] == DeviceExtension::ExternalMemory);
        assert(base[3] == DeviceExtension::ExternalMemoryFd);
        assert(base[4] == DeviceExtension::ExternalMemoryDmaBuf);
        assert(base[5] == DeviceExtension::ImageDrmFormatModifier);
    }
    assert(base.no_duplicates());
    lemma_with_extension(base, DeviceExtension::VideoEncodeQueue, encodes);
    lemma_with_extension(
        queue,
        DeviceExtension::VideoEncodeH264,
        encodes && codecs.contains(Codec::H264),
    );
    lemma_with_extension(
        h264,
        DeviceExtension::VideoEncodeH265,
        encodes && codecs.contains(Codec::H265),
    );
    lemma_with_extension(
        h265,
        DeviceExtension::VideoEncodeAv1,
        encodes && codecs.contains(Codec::AV1),
    );
    lemma_with_extension(av1, DeviceExtension::Ycbcr2Plane444Formats, true);
}

proof fn lemma_with_extension(s: Seq<DeviceExtension>, x: DeviceExtension, wanted: bool)
    requires
        s.no_duplicates(),
        !s.contains(x),
    ensures
        with_extension(s, x, wanted).no_duplicates(),
        with_extension(s, x, wanted).contains(x) <==> wanted,
        forall|y: DeviceExtension|
            y != x ==> (#[trigger] with_extension(s, x, wanted).contains(y) <==> s.contains(y)),
{
    let t = with_extension(s, x, wanted);
    if wanted {
        assert(t[s.len() as int] == x);
        assert forall|y: DeviceExtension| y != x implies (#[trigger] t.contains(y)
            <==> s.contains(y)) by {
            if s.contains(y) {
                let i = choose|i: int| 0 <= i < s.len() && s[i] == y;
                assert(t[i] == y);
            }
        }
    }
}

/// What a context holds of the device at a place of the list.
pub open spec fn context_of(info: DeviceInfo, device: int) -> ContextModel {
    let queues = queue_choice(info.queue_families@);
    ContextModel {
        device,
        encode_family: queues.encode,
        transfer_family: match queues.transfer {
            Some(t) => t,
            None => queues.encode->0,
        },
        compute_family: queues.compute->0,
        codecs: encode_codecs_of(info),
        memory_types: info.memory_types@,
    }
}

/// The queue families of a context can do what they are for. Transfers go to the family for
/// encoding only if no family is listed for them.
pub proof fn law_context_has_what_the_device_has(
    required: Seq<Codec>,
    info: DeviceInfo,
    device: int,
    i: int,
)
    requires
        is_suitable(required, info),
        info.queue_families@.len() <= u32::MAX,
        0 <= i < info.queue_families@.len(),
    ensures
        ({
            let families = info.queue_families@;
            let context = context_of(info, device);
            let encode = context.encode_family->Some_0;
            &&& context.device == device
            &&& context.encode_family is Some
            &&& encode < families.len()
            &&& families[encode as int].video_encode
            &&& context.compute_family < families.len()
            &&& families[context.compute_family as int].compute
            &&& context.transfer_family < families.len()
            &&& families[i].transfer ==> families[context.transfer_family as int].transfer
            &&& families[context.transfer_family as int].transfer || context.transfer_family
                == encode
            &&& context.memory_types == info.memory_types@
            &&& forall|k: int|
                0 <= k < required.len() ==> context.codecs.contains(#[trigger] required[k])
        }),
{
    law_queue_families_can_do_their_work(info.queue_families@, i);
}

} // verus!
