//! Compute pipeline for color conversion.

use super::{ColorConverter, ColorConverterConfig};
use crate::error::PixelForgeError;
use vstd::prelude::*;

verus! {

/// Size in bytes of the push constants that the pipeline layout sets aside: the
/// parameters that a conversion hands over, and room for two more.
pub const PUSH_CONSTANT_SIZE: u32 = 28;

/// What a converter needs from the device.
#[derive(Debug, Clone, Copy, PartialEq, Eq, Structural)]
pub struct ConverterResources {
    /// Size in bytes of the output buffer.
    pub output_size: usize,
    /// Size in bytes of the push constants.
    pub push_constant_size: u32,
}

/// Create a color converter, and say what it needs from the device. The device must
/// have descriptor buffers.
pub fn create_converter(config: ColorConverterConfig, has_descriptor_buffer: bool) -> (created:
    Result<(ColorConverter, ConverterResources), PixelForgeError>)
    requires
        config.width * config.height <= u32::MAX,
        config.output_format.widest(config.width * config.height) <= usize::MAX,
    ensures
        match created {
            Ok((converter, resources)) => {
                &&& has_descriptor_buffer
                &&& converter.configured() == config
                &&& converter.cached() is None
                &&& resources.output_size == config.output_format.size_of(
                    config.width * config.height,
                )
                &&& resources.push_constant_size == PUSH_CONSTANT_SIZE
            },
            Err(e) => !has_descriptor_buffer && e.is_no_suitable_device(
                "VK_EXT_descriptor_buffer with capture-replay is required but not available on this device"@,
            ),
        },
{
    if !has_descriptor_buffer {
        return Err(
            PixelForgeError::NoSuitableDevice(
                "VK_EXT_descriptor_buffer with capture-replay is required but not available on this device".to_string(),
            ),
        );
    }
    let output_size: usize = config.output_format.output_size(config.width, config.height);
    Ok(
        (
            ColorConverter::new(config),
            ConverterResources { output_size, push_constant_size: PUSH_CONSTANT_SIZE },
        ),
    )
}

} // verus!
