//! Rate control of an encode.

use super::{EncodeConfig, RateControlMode};
use vstd::prelude::*;

verus! {

/// Rate control modes of the Vulkan API.
#[derive(Debug, Clone, Copy, PartialEq, Eq, Structural)]
pub enum DeviceRateControl {
    /// The encoder sets the quantization.
    Disabled,
    /// Constant bitrate.
    Cbr,
    /// Variable bitrate.
    Vbr,
}

/// Bitrates and frame rate of the one rate control layer.
#[derive(Debug, Clone, Copy, PartialEq, Eq, Structural)]
pub struct RateControlLayer {
    /// Average bitrate in bits per second.
    pub average_bitrate: u64,
    /// Maximum bitrate in bits per second.
    pub max_bitrate: u64,
    /// Numerator of the frame rate.
    pub frame_rate_numerator: u32,
    /// Denominator of the frame rate.
    pub frame_rate_denominator: u32,
}

/// Rate control of an encode.
#[derive(Debug, Clone, Copy, PartialEq, Eq, Structural)]
pub struct RateControl {
    /// The mode.
    pub mode: DeviceRateControl,
    /// The layer. It is handed to the device only if the mode is not disabled.
    pub layer: RateControlLayer,
    /// Size of the virtual buffer in milliseconds; 0 if the mode is disabled.
    pub virtual_buffer_size_ms: u32,
    /// Initial fullness of the virtual buffer in milliseconds; 0 if the mode is
    /// disabled.
    pub initial_virtual_buffer_size_ms: u32,
    /// Frames in a GOP.
    pub gop_frame_count: u32,
    /// Distance between IDR or key frames.
    pub idr_period: u32,
    /// B frames in a row.
    pub consecutive_b_frame_count: u32,
}

/// The configuration fixes the quantization.
pub open spec fn constant_quality(mode: RateControlMode) -> bool {
    mode == RateControlMode::Cqp || mode == RateControlMode::Disabled
}

/// The rate control of a configuration.
pub open spec fn rate_control_of(config: EncodeConfig) -> RateControl {
    let constant = constant_quality(config.rate_control_mode);
    let cbr = config.rate_control_mode == RateControlMode::Cbr;
    RateControl {
        mode: if constant {
            DeviceRateControl::Disabled
        } else if cbr {
            DeviceRateControl::Cbr
        } else {
            DeviceRateControl::Vbr
        },
        layer: RateControlLayer {
            average_bitrate: if constant {
                0
            } else {
                config.target_bitrate as u64
            },
            max_bitrate: if constant {
                0
            } else if cbr {
                config.target_bitrate as u64
            } else {
                config.max_bitrate as u64
            },
            frame_rate_numerator: config.frame_rate_numerator,
            frame_rate_denominator: config.frame_rate_denominator,
        },
        virtual_buffer_size_ms: if constant {
            0
        } else {
            config.virtual_buffer_size_ms
        },
        initial_virtual_buffer_size_ms: if constant {
            0
        } else {
            config.initial_virtual_buffer_size_ms
        },
        gop_frame_count: config.gop_size,
        idr_period: config.gop_size,
        consecutive_b_frame_count: config.b_frame_count,
    }
}

/// Whether the configuration fixes the quantization.
pub fn is_constant_quality(mode: RateControlMode) -> (constant: bool)
    ensures
        constant == constant_quality(mode),
{
    match mode {
        RateControlMode::Cqp | RateControlMode::Disabled => true,
        _ => false,
    }
}

/// Set up the rate control of a configuration.
pub fn rate_control(config: &EncodeConfig) -> (control: RateControl)
    ensures
        control == rate_control_of(*config),
{
    let constant: bool = is_constant_quality(config.rate_control_mode);
    let (mode, average_bitrate, max_bitrate) = match config.rate_control_mode {
        RateControlMode::Cqp | RateControlMode::Disabled => (
            DeviceRateControl::Disabled,
            0u32,
            0u32,
        ),
        RateControlMode::Cbr => (
            DeviceRateControl::Cbr,
            config.target_bitrate,
            config.target_bitrate,
        ),
        RateControlMode::Vbr => (
            DeviceRateControl::Vbr,
            config.target_bitrate,
            config.max_bitrate,
        ),
    };
    RateControl {
        mode,
        layer: RateControlLayer {
            average_bitrate: average_bitrate as u64,
            max_bitrate: max_bitrate as u64,
            frame_rate_numerator: config.frame_rate_numerator,
            frame_rate_denominator: config.frame_rate_denominator,
        },
        virtual_buffer_size_ms: if constant {
            0
        } else {
            config.virtual_buffer_size_ms
        },
        initial_virtual_buffer_size_ms: if constant {
            0
        } else {
            config.initial_virtual_buffer_size_ms
        },
        gop_frame_count: config.gop_size,
        idr_period: config.gop_size,
        consecutive_b_frame_count: config.b_frame_count,
    }
}

/// A range of quantization parameters.
#[derive(Debug, Clone, Copy, PartialEq, Eq, Structural)]
pub struct QpRange {
    /// Least quantization parameter.
    pub min: i32,
    /// Greatest quantization parameter.
    pub max: i32,
}

/// The quantization parameters that rate control may choose: the quality level if
/// the configuration fixes it, otherwise the range of the codec.
pub open spec fn qp_range_of(config: EncodeConfig, least: i32, greatest: i32) -> QpRange {
    if constant_quality(config.rate_control_mode) {
        QpRange { min: config.quality_level as i32, max: config.quality_level as i32 }
    } else {
        QpRange { min: least, max: greatest }
    }
}

/// The quantization parameters that rate control may choose.
pub fn qp_range(config: &EncodeConfig, least: i32, greatest: i32) -> (range: QpRange)
    ensures
        range == qp_range_of(*config, least, greatest),
{
    if is_constant_quality(config.rate_control_mode) {
        QpRange { min: config.quality_level as i32, max: config.quality_level as i32 }
    } else {
        QpRange { min: least, max: greatest }
    }
}

/// The constant quantization parameter: the quality level if the configuration
/// fixes it, otherwise 0.
pub open spec fn constant_qp_of(config: EncodeConfig) -> i32 {
    if constant_quality(config.rate_control_mode) {
        config.quality_level as i32
    } else {
        0
    }
}

/// The constant quantization parameter.
pub fn constant_qp(config: &EncodeConfig) -> (qp: i32)
    ensures
        qp == constant_qp_of(*config),
{
    if is_constant_quality(config.rate_control_mode) {
        config.quality_level as i32
    } else {
        0
    }
}

/// The device controls the rate in the two modes with a bitrate alone. Then it is given the
/// target bitrate, a maximum that is the same for a constant bitrate and that of the
/// configuration for a variable one, and the virtual buffer; otherwise it is given none of
/// these. The frame rate and the structure of GOPs are those of the configuration.
pub proof fn law_rate_control_follows_the_mode(config: EncodeConfig)
    ensures
        ({
            let control = rate_control_of(config);
            let off = control.mode == DeviceRateControl::Disabled;
            &&& control.mode == DeviceRateControl::Cbr <==> config.rate_control_mode
                == RateControlMode::Cbr
            &&& control.mode == DeviceRateControl::Vbr <==> config.rate_control_mode
                == RateControlMode::Vbr
            &&& off ==> {
                &&& control.layer.average_bitrate == 0
                &&& control.layer.max_bitrate == 0
                &&& control.virtual_buffer_size_ms == 0
                &&& control.initial_virtual_buffer_size_ms == 0
            }
            &&& !off ==> {
                &&& control.layer.average_bitrate == config.target_bitrate
                &&& control.virtual_buffer_size_ms == config.virtual_buffer_size_ms
                &&& control.initial_virtual_buffer_size_ms == config.initial_virtual_buffer_size_ms
            }
            &&& control.mode == DeviceRateControl::Cbr ==> control.layer.max_bitrate
                == control.layer.average_bitrate
            &&& control.mode == DeviceRateControl::Vbr ==> control.layer.max_bitrate
                == config.max_bitrate
            &&& control.layer.frame_rate_numerator == config.frame_rate_numerator
            &&& control.layer.frame_rate_denominator == config.frame_rate_denominator
            &&& control.gop_frame_count == config.gop_size
            &&& control.idr_period == config.gop_size
            &&& control.consecutive_b_frame_count == config.b_frame_count
        }),
{
}

} // verus!
