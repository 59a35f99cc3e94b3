//! Request, command and status types exchanged between `fangd` and its
//! clients. The wire encoding (JSON lines) lives with the programs; these are
//! the values the daemon logic works on.
use vstd::prelude::*;

verus! {

/// Socket API compatibility version. App and daemon may have different patch
/// versions, but state-changing commands are allowed only when this matches.
pub const API_VERSION: u16 = 1;

#[derive(Clone, Copy, Debug, PartialEq, Eq, Structural)]
pub enum PerfMode {
    Balanced,
    Gaming,
    Silent,
    Custom,
}

impl PerfMode {
    /// The EC power mode byte.
    pub open spec fn ec_mode(self) -> u8 {
        match self {
            PerfMode::Balanced => 0,
            PerfMode::Gaming => 1,
            PerfMode::Silent => 4,
            PerfMode::Custom => 4,
        }
    }

    /// The EC has no silent mode: razer-laptop-control defines only 0, 1, 2
    /// and 4, and sending the undefined 3 trips an EC failsafe with fans at
    /// max. Silent rides on Custom; the hardware backend pins both boosts to
    /// Low.
    pub fn to_ec(self) -> (r: u8)
        ensures
            r == self.ec_mode(),
    {
        match self {
            PerfMode::Balanced => 0,
            PerfMode::Gaming => 1,
            PerfMode::Silent => 4,
            PerfMode::Custom => 4,
        }
    }
}

/// Only EC power modes 0, 1 and 4 are ever produced: mode 2 is not exposed
/// and mode 3 is undefined.
pub proof fn lemma_only_exposed_perf_modes_reach_the_ec(m: PerfMode)
    ensures
        m.ec_mode() == 0 || m.ec_mode() == 1 || m.ec_mode() == 4,
        PerfMode::Silent.ec_mode() == PerfMode::Custom.ec_mode(),
{
}

/// CPU/GPU power boost levels, meaningful in [`PerfMode::Custom`].
#[derive(Clone, Copy, Debug, PartialEq, Eq, Structural)]
pub enum Boost {
    Low,
    Medium,
    High,
    /// Overclock; CPU only, models with the "boost" feature.
    Boost,
}

impl Boost {
    /// The EC boost byte.
    pub open spec fn ec_level(self) -> u8 {
        match self {
            Boost::Low => 0,
            Boost::Medium => 1,
            Boost::High => 2,
            Boost::Boost => 3,
        }
    }

    pub fn to_ec(self) -> (r: u8)
        ensures
            r == self.ec_level(),
    {
        match self {
            Boost::Low => 0,
            Boost::Medium => 1,
            Boost::High => 2,
            Boost::Boost => 3,
        }
    }
}

/// One point on a software-controlled fan curve. The daemon interpolates RPM
/// linearly between points using the hotter of the CPU and GPU sensors.
#[derive(Clone, Copy, Debug, PartialEq, Eq, Structural)]
pub struct FanCurvePoint {
    pub temp_c: u8,
    pub rpm: u16,
}

#[derive(Clone, Debug, PartialEq, Eq)]
pub enum FanMode {
    Auto,
    Manual { rpm: u16 },
    Curve { points: Vec<FanCurvePoint> },
}

/// The mathematical value of a [`FanMode`].
pub enum FanPolicy {
    Auto,
    Manual { rpm: u16 },
    Curve { points: Seq<FanCurvePoint> },
}

impl View for FanMode {
    type V = FanPolicy;

    open spec fn view(&self) -> FanPolicy {
        match self {
            FanMode::Auto => FanPolicy::Auto,
            FanMode::Manual { rpm } => FanPolicy::Manual { rpm: *rpm },
            FanMode::Curve { points } => FanPolicy::Curve { points: points@ },
        }
    }
}

/// A copy of a list of curve points.
pub fn copy_points(points: &Vec<FanCurvePoint>) -> (r: Vec<FanCurvePoint>)
    ensures
        r@ == points@,
{
    let mut r: Vec<FanCurvePoint> = Vec::new();
    let mut i: usize = 0;
    while i < points.len()
        invariant
            0 <= i <= points@.len(),
            r@ == points@.subrange(0, i as int),
        decreases points@.len() - i,
    {
        r.push(points[i]);
        i = i + 1;
        assert(r@ =~= points@.subrange(0, i as int));
    }
    assert(points@.subrange(0, points@.len() as int) =~= points@);
    r
}

impl FanMode {
    /// A copy of this fan mode.
    pub fn copy(&self) -> (r: FanMode)
        ensures
            r@ == self@,
    {
        match self {
            FanMode::Auto => FanMode::Auto,
            FanMode::Manual { rpm } => FanMode::Manual { rpm: *rpm },
            FanMode::Curve { points } => FanMode::Curve { points: copy_points(points) },
        }
    }
}

/// Whether two fan modes are the same policy.
pub fn same_fan_mode(a: &FanMode, b: &FanMode) -> (r: bool)
    ensures
        r == (a@ == b@),
{
    match (a, b) {
        (FanMode::Auto, FanMode::Auto) => true,
        (FanMode::Manual { rpm: x }, FanMode::Manual { rpm: y }) => *x == *y,
        (FanMode::Curve { points: p }, FanMode::Curve { points: q }) => {
            if p.len() != q.len() {
                assert(p@.len() != q@.len());
                return false;
            }
            let mut i: usize = 0;
            while i < p.len()
                invariant
                    a@ == (FanPolicy::Curve { points: p@ }),
                    b@ == (FanPolicy::Curve { points: q@ }),
                    p@.len() == q@.len(),
                    0 <= i <= p@.len(),
                    forall|j: int| 0 <= j < i ==> p@[j] == q@[j],
                decreases p@.len() - i,
            {
                if p[i].temp_c != q[i].temp_c || p[i].rpm != q[i].rpm {
                    assert(p@[i as int] != q@[i as int]);
                    return false;
                }
                i = i + 1;
            }
            assert(p@ =~= q@);
            true
        },
        _ => false,
    }
}

/// Why the mandatory software fan guard is forcing maximum RPM.
#[derive(Clone, Copy, Debug, PartialEq, Eq, Structural)]
pub enum ThermalOverrideReason {
    Temperature,
    SensorUnavailable,
}

/// Logo LED behaviour (models with the "logo" feature).
#[derive(Clone, Copy, Debug, PartialEq, Eq, Structural)]
pub enum LogoMode {
    Off,
    Static,
    Breathing,
}

/// Keyboard backlight hardware effect. Only effects the reference
/// implementation exercises on real ECs are exposed.
#[derive(Clone, Copy, Debug, PartialEq, Eq, Structural)]
pub enum KbdEffect {
    Off,
    Static { r: u8, g: u8, b: u8 },
    Spectrum,
    Wave,
}

/// One selectable color-temperature preset on an external DDC/CI monitor
/// (VCP feature 0x14). Laptop eDP panels don't support DDC/CI.
#[derive(Clone, Debug, PartialEq, Eq)]
pub struct ColorPreset {
    /// The VCP 0x14 value written over DDC/CI.
    pub value: u8,
    pub name: String,
}

/// Which GPU drives the system (the Linux take on Synapse's "GPU mode" /
/// Advanced Optimus). Switching takes effect at the next logout/reboot.
#[derive(Clone, Copy, Debug, PartialEq, Eq, Structural)]
pub enum GpuMode {
    /// iGPU only; dGPU powered off (battery life).
    Integrated,
    /// NVIDIA PRIME render offload (on-demand dGPU).
    Hybrid,
    /// dGPU drives everything (lowest latency, external-display friendly).
    Dedicated,
}

#[derive(Clone, Debug)]
pub struct Request {
    pub id: u64,
    /// Optional on the wire for read-only backward compatibility. Mutating
    /// commands require an exact match with API_VERSION.
    pub api_version: u16,
    pub cmd: Command,
}

#[derive(Clone, Debug)]
pub enum Command {
    GetStatus,
    SetPerfMode { perf_mode: PerfMode, cpu_boost: Option<Boost>, gpu_boost: Option<Boost> },
    SetFan { fan: FanMode },
    /// Switch the active GPU (applies at next logout/reboot).
    SetGpuMode { gpu_mode: GpuMode },
    /// Battery Health Optimizer: cap charging at `threshold` percent
    /// (50..=80, clamped) to extend battery lifespan.
    SetBho { enabled: bool, threshold: u8 },
    /// Lighting; omitted fields keep their current value.
    SetLighting {
        /// Keyboard backlight brightness percent (0..=100).
        brightness: Option<u8>,
        kbd_effect: Option<KbdEffect>,
        logo_led: Option<LogoMode>,
    },
    /// Set the external monitor's DDC/CI color-temperature preset (VCP 0x14).
    SetColorPreset { value: u8 },
    /// Set the external monitor's DDC/CI brightness (VCP 0x10) as a 0..=100
    /// percent of the monitor's own luminance range.
    SetMonitorBrightness { value: u8 },
    /// Toggle automatic perf-profile switching on AC <-> battery transitions,
    /// and set the profile + fan applied for each power source.
    SetAutoPower {
        enabled: bool,
        ac_profile: PerfMode,
        battery_profile: PerfMode,
        /// Fan policy applied on AC.
        ac_fan: FanMode,
        /// Fan policy applied on battery.
        battery_fan: FanMode,
    },
    /// Start receiving `telemetry` / `state_changed` events on this connection.
    Subscribe,
    Ping,
}

impl Command {
    /// Whether the command changes anything (everything but `get_status`,
    /// `subscribe` and `ping`).
    pub open spec fn mutating(self) -> bool {
        !(self is GetStatus || self is Subscribe || self is Ping)
    }

    pub fn is_mutating(&self) -> (r: bool)
        ensures
            r == self.mutating(),
    {
        match self {
            Command::GetStatus | Command::Subscribe | Command::Ping => false,
            _ => true,
        }
    }
}


/// A copy of a list of color presets.
pub fn copy_presets(presets: &Vec<ColorPreset>) -> (r: Vec<ColorPreset>)
    ensures
        r@ == presets@,
{
    let mut r: Vec<ColorPreset> = Vec::new();
    let mut i: usize = 0;
    while i < presets.len()
        invariant
            0 <= i <= presets@.len(),
            r@ == presets@.subrange(0, i as int),
        decreases presets@.len() - i,
    {
        let p = ColorPreset { value: presets[i].value, name: presets[i].name.clone() };
        r.push(p);
        i = i + 1;
        assert(r@ =~= presets@.subrange(0, i as int));
    }
    assert(presets@.subrange(0, presets@.len() as int) =~= presets@);
    r
}

/// Full daemon/device state, returned by `get_status` and on `state_changed`.
#[derive(Clone, Debug)]
pub struct Status {
    /// Socket API version used for app/daemon compatibility checks.
    pub api_version: u16,
    pub model: String,
    /// False when no Razer laptop was found (daemon still runs, monitor-only).
    pub device_present: bool,
    /// False when the device's PID is not in the model table; controls still
    /// work but limits are conservative defaults.
    pub verified: bool,
    pub mock: bool,
    pub perf_mode: PerfMode,
    pub cpu_boost: Boost,
    pub gpu_boost: Boost,
    pub fan: FanMode,
    /// Last saved custom curve, retained even while Auto/Manual is active.
    pub fan_curve: Vec<FanCurvePoint>,
    pub fan_rpm_min: u16,
    pub fan_rpm_max: u16,
    pub has_cpu_boost_oc: bool,
    /// Model supports the Battery Health Optimizer charge limiter.
    pub has_bho: bool,
    pub bho_enabled: bool,
    /// Charge cap percent (50..=80), meaningful when `bho_enabled`.
    pub bho_threshold: u8,
    /// Model has a lid logo LED.
    pub has_logo: bool,
    /// Keyboard backlight brightness percent (0..=100).
    pub kbd_brightness: u8,
    pub kbd_effect: KbdEffect,
    pub logo_led: LogoMode,
    /// An external monitor exposes DDC/CI color-temperature presets.
    pub color_ddc: bool,
    pub color_presets: Vec<ColorPreset>,
    /// Active preset's VCP 0x14 value, if read.
    pub color_current: Option<u8>,
    /// External monitor's brightness (VCP 0x10) as a 0..=100 percent.
    pub monitor_brightness: Option<u8>,
    /// Automatically switch perf profile when AC power is connected/removed.
    pub auto_power: bool,
    /// Profile applied when on AC (meaningful when `auto_power`).
    pub ac_profile: PerfMode,
    /// Profile applied when on battery (meaningful when `auto_power`).
    pub battery_profile: PerfMode,
    /// Fan policy applied on AC alongside `ac_profile`.
    pub ac_fan: FanMode,
    /// Fan policy applied on battery alongside `battery_profile`.
    pub battery_fan: FanMode,
    /// None when no supported GPU-switching tool is available on the host.
    pub gpu_mode: Option<GpuMode>,
    /// True when the GPU mode was changed this boot and needs a
    /// logout/reboot to take effect.
    pub gpu_mode_pending: bool,
    pub daemon_version: String,
}

} // verus!
