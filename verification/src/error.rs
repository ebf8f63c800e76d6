//! Error types for PixelForge.

use vstd::prelude::*;

verus! {

/// `ash::vk::Result`, the status code of a Vulkan call, is carried as it is.
#[verifier::external_type_specification]
#[verifier::external_body]
pub struct ExVkResult(ash::vk::Result);

/// Main error type for PixelForge operations.
#[derive(Debug)]
pub enum PixelForgeError {
    /// Vulkan instance creation failed.
    InstanceCreation(String),
    /// Vulkan physical device selection failed.
    NoSuitableDevice(String),
    /// Vulkan logical device creation failed.
    DeviceCreation(String),
    /// Video session creation failed.
    VideoSessionCreation(String),
    /// Video session parameters creation failed.
    SessionParametersCreation(String),
    /// Memory allocation failed.
    MemoryAllocation(String),
    /// Resource creation failed (images, buffers, fences, command pools, etc.).
    ResourceCreation(String),
    /// Command buffer operation failed.
    CommandBuffer(String),
    /// Invalid input (dimensions, data size, format, etc.).
    InvalidInput(String),
    /// Codec not supported.
    CodecNotSupported(String),
    /// Synchronization primitive error.
    Synchronization(String),
    /// Query pool error.
    QueryPool(String),
    /// Generic Vulkan error.
    Vulkan(ash::vk::Result),
}

impl PixelForgeError {
    /// The error is an invalid input with this message.
    pub open spec fn is_invalid_input(self, message: Seq<char>) -> bool {
        self matches PixelForgeError::InvalidInput(m) && m@ == message
    }

    /// The error is a missing device with this message.
    pub open spec fn is_no_suitable_device(self, message: Seq<char>) -> bool {
        self matches PixelForgeError::NoSuitableDevice(m) && m@ == message
    }

    /// The error is a memory allocation error with this message.
    pub open spec fn is_memory_allocation(self, message: Seq<char>) -> bool {
        self matches PixelForgeError::MemoryAllocation(m) && m@ == message
    }

    /// The error is a command buffer error with this message.
    pub open spec fn is_command_buffer(self, message: Seq<char>) -> bool {
        self matches PixelForgeError::CommandBuffer(m) && m@ == message
    }
}

impl From<ash::vk::Result> for PixelForgeError {
    fn from(result: ash::vk::Result) -> (error: Self) {
        PixelForgeError::Vulkan(result)
    }
}

impl vstd::std_specs::convert::FromSpecImpl<ash::vk::Result> for PixelForgeError {
    open spec fn obeys_from_spec() -> bool {
        true
    }

    open spec fn from_spec(result: ash::vk::Result) -> PixelForgeError {
        PixelForgeError::Vulkan(result)
    }
}

} // verus!
