//! Slow, non-thermal peripherals (DDC/CI monitor, GPU switching) as the
//! daemon core sees them: a cached snapshot.
use vstd::prelude::*;
use crate::api::{ColorPreset, GpuMode};
use crate::ddc::{Ddc, brightness_percent};
use crate::gpu::{GpuBackend, GpuSwitch};

verus! {

#[derive(Clone, Debug, Default)]
pub struct PeripheralSnapshot {
    pub color_ddc: bool,
    pub color_presets: Vec<ColorPreset>,
    pub color_current: Option<u8>,
    pub monitor_brightness: Option<u8>,
    pub gpu_mode: Option<GpuMode>,
    pub gpu_mode_pending: bool,
}

/// The snapshot of a monitor and a GPU switcher.
pub fn capture(ddc: &Ddc, gpu: &GpuBackend) -> (r: PeripheralSnapshot)
    ensures
        r.color_ddc == (ddc.mock || ddc.display is Some),
        r.color_presets@ == ddc.presets@,
        r.color_current == ddc.current,
        r.monitor_brightness == brightness_percent(ddc.luminance),
        r.gpu_mode == gpu.current_spec(),
        r.gpu_mode_pending == gpu.pending_spec(),
{
    PeripheralSnapshot {
        color_ddc: ddc.available(),
        color_presets: ddc.presets(),
        color_current: ddc.current(),
        monitor_brightness: ddc.brightness(),
        gpu_mode: gpu.current(),
        gpu_mode_pending: gpu.pending(),
    }
}

/// `snap` after a GPU switch: the switcher's mode and pending flag, the
/// rest unchanged.
pub fn with_gpu(snap: PeripheralSnapshot, gpu: &GpuBackend) -> (r: PeripheralSnapshot)
    ensures
        r == (PeripheralSnapshot {
            gpu_mode: gpu.current_spec(),
            gpu_mode_pending: gpu.pending_spec(),
            ..snap
        }),
{
    PeripheralSnapshot { gpu_mode: gpu.current(), gpu_mode_pending: gpu.pending(), ..snap }
}

/// `snap` after a brightness change: the monitor's brightness, the rest
/// unchanged.
pub fn with_brightness(snap: PeripheralSnapshot, ddc: &Ddc) -> (r: PeripheralSnapshot)
    ensures
        r == (PeripheralSnapshot { monitor_brightness: brightness_percent(ddc.luminance), ..snap }),
{
    PeripheralSnapshot { monitor_brightness: ddc.brightness(), ..snap }
}

/// `snap` after a preset change: the monitor's current preset, the rest
/// unchanged.
pub fn with_color(snap: PeripheralSnapshot, ddc: &Ddc) -> (r: PeripheralSnapshot)
    ensures
        r == (PeripheralSnapshot { color_current: ddc.current, ..snap }),
{
    PeripheralSnapshot { color_current: ddc.current(), ..snap }
}

} // verus!
