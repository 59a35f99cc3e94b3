//! What the daemon core needs from a hardware backend.
use vstd::prelude::*;
use crate::api::PerfMode;
use crate::state::AppliedState;

verus! {

/// How an outside call that reports only success or an error message was
/// answered, as a value.
pub type Answer = Result<(), Seq<char>>;

pub open spec fn answer(r: Result<(), String>) -> Answer {
    match r {
        Ok(()) => Ok(()),
        Err(e) => Err(e@),
    }
}

/// The detected laptop and its limits. Backends report the same value for
/// their whole lifetime.
#[derive(Clone, Debug)]
pub struct ModelInfo {
    pub name: String,
    pub device_present: bool,
    pub verified: bool,
    pub mock: bool,
    pub fan_rpm_min: u16,
    pub fan_rpm_max: u16,
    pub has_cpu_boost_oc: bool,
    pub has_bho: bool,
    pub has_logo: bool,
}

impl ModelInfo {
    /// The fan limits form a range.
    pub open spec fn wf(self) -> bool {
        self.fan_rpm_min <= self.fan_rpm_max
    }
}

/// One tick of sensor readings. Temperatures are in millidegrees Celsius
/// (hwmon reports exactly that unit), power in milliwatts.
#[derive(Clone, Debug, Default)]
pub struct Sample {
    pub cpu_temp_mc: Option<i32>,
    pub gpu_temp_mc: Option<i32>,
    pub cpu_power_mw: Option<u32>,
    pub gpu_power_mw: Option<u32>,
    /// EC fan-speed setpoint per fan.
    pub fan_rpm: Vec<u32>,
}

/// A hardware backend: the real EC, a simulator, or monitor-only telemetry.
/// Every call may fail; the core is correct whatever each call returns.
pub trait Hw {
    fn info(&self) -> ModelInfo;

    /// Push the desired state to the EC. Errors are surfaced to the client.
    fn apply(&mut self, state: &AppliedState) -> Result<(), String>;

    /// Set both fans' software target.
    fn set_fan_target(&mut self, rpm: u16) -> Result<(), String>;

    /// Hand both fans back to the EC's automatic curve.
    fn restore_auto_fan(&mut self, perf_mode: PerfMode) -> Result<(), String>;

    fn sample(&mut self) -> Sample;
}

/// Where the desired state is persisted.
pub trait StateStore {
    fn save(&mut self, state: &AppliedState);
}

} // verus!
