//! Desired hardware state, persisted so it survives restarts and resume.
use vstd::prelude::*;
use crate::api::{Boost, FanCurvePoint, FanMode, FanPolicy, KbdEffect, LogoMode, PerfMode, copy_points, same_fan_mode};

verus! {

#[derive(Clone, Debug, PartialEq, Eq)]
pub struct AppliedState {
    pub perf_mode: PerfMode,
    pub cpu_boost: Boost,
    pub gpu_boost: Boost,
    pub fan: FanMode,
    /// Last saved custom curve, retained even while Auto/Manual is active.
    pub fan_curve: Vec<FanCurvePoint>,
    pub bho_enabled: bool,
    pub bho_threshold: u8,
    /// Keyboard backlight brightness percent (0..=100).
    pub kbd_brightness: u8,
    pub kbd_effect: KbdEffect,
    pub logo_led: LogoMode,
    /// Auto-switch perf profile on AC <-> battery transitions.
    pub auto_power: bool,
    pub ac_profile: PerfMode,
    pub battery_profile: PerfMode,
    /// Fan applied for each source when automation switches (Auto = mode curve).
    pub ac_fan: FanMode,
    pub battery_fan: FanMode,
}

/// The mathematical value of an [`AppliedState`].
pub struct StateView {
    pub perf_mode: PerfMode,
    pub cpu_boost: Boost,
    pub gpu_boost: Boost,
    pub fan: FanPolicy,
    pub fan_curve: Seq<FanCurvePoint>,
    pub bho_enabled: bool,
    pub bho_threshold: u8,
    pub kbd_brightness: u8,
    pub kbd_effect: KbdEffect,
    pub logo_led: LogoMode,
    pub auto_power: bool,
    pub ac_profile: PerfMode,
    pub battery_profile: PerfMode,
    pub ac_fan: FanPolicy,
    pub battery_fan: FanPolicy,
}

impl View for AppliedState {
    type V = StateView;

    open spec fn view(&self) -> StateView {
        StateView {
            perf_mode: self.perf_mode,
            cpu_boost: self.cpu_boost,
            gpu_boost: self.gpu_boost,
            fan: self.fan@,
            fan_curve: self.fan_curve@,
            bho_enabled: self.bho_enabled,
            bho_threshold: self.bho_threshold,
            kbd_brightness: self.kbd_brightness,
            kbd_effect: self.kbd_effect,
            logo_led: self.logo_led,
            auto_power: self.auto_power,
            ac_profile: self.ac_profile,
            battery_profile: self.battery_profile,
            ac_fan: self.ac_fan@,
            battery_fan: self.battery_fan@,
        }
    }
}

/// Synapse's out-of-box look: static Razer green.
pub open spec fn default_kbd_effect() -> KbdEffect {
    KbdEffect::Static { r: 0x44, g: 0xD6, b: 0x2C }
}

/// The state used when nothing (readable) was persisted.
pub open spec fn default_state() -> StateView {
    StateView {
        perf_mode: PerfMode::Balanced,
        cpu_boost: Boost::Medium,
        gpu_boost: Boost::Medium,
        fan: FanPolicy::Auto,
        fan_curve: Seq::empty(),
        bho_enabled: false,
        bho_threshold: 80,
        kbd_brightness: 60,
        kbd_effect: default_kbd_effect(),
        logo_led: LogoMode::Static,
        auto_power: false,
        ac_profile: PerfMode::Balanced,
        battery_profile: PerfMode::Silent,
        ac_fan: FanPolicy::Auto,
        battery_fan: FanPolicy::Auto,
    }
}

impl Default for AppliedState {
    fn default() -> (r: AppliedState)
        ensures
            r@ == default_state(),
    {
        let r = AppliedState {
            perf_mode: PerfMode::Balanced,
            cpu_boost: Boost::Medium,
            gpu_boost: Boost::Medium,
            fan: FanMode::Auto,
            fan_curve: Vec::new(),
            bho_enabled: false,
            bho_threshold: 80,
            kbd_brightness: 60,
            kbd_effect: KbdEffect::Static { r: 0x44, g: 0xD6, b: 0x2C },
            logo_led: LogoMode::Static,
            auto_power: false,
            ac_profile: PerfMode::Balanced,
            battery_profile: PerfMode::Silent,
            ac_fan: FanMode::Auto,
            battery_fan: FanMode::Auto,
        };
        assert(r@.fan_curve =~= Seq::<FanCurvePoint>::empty());
        r
    }
}

impl AppliedState {
    /// A copy of this state.
    pub fn copy(&self) -> (r: AppliedState)
        ensures
            r@ == self@,
    {
        AppliedState {
            perf_mode: self.perf_mode,
            cpu_boost: self.cpu_boost,
            gpu_boost: self.gpu_boost,
            fan: self.fan.copy(),
            fan_curve: copy_points(&self.fan_curve),
            bho_enabled: self.bho_enabled,
            bho_threshold: self.bho_threshold,
            kbd_brightness: self.kbd_brightness,
            kbd_effect: self.kbd_effect,
            logo_led: self.logo_led,
            auto_power: self.auto_power,
            ac_profile: self.ac_profile,
            battery_profile: self.battery_profile,
            ac_fan: self.ac_fan.copy(),
            battery_fan: self.battery_fan.copy(),
        }
    }

    /// Whether two states hold the same values.
    pub fn same_as(&self, other: &AppliedState) -> (r: bool)
        ensures
            r == (self@ == other@),
    {
        let curves_same = same_fan_mode(
            &FanMode::Curve { points: copy_points(&self.fan_curve) },
            &FanMode::Curve { points: copy_points(&other.fan_curve) },
        );
        self.perf_mode == other.perf_mode && self.cpu_boost == other.cpu_boost && self.gpu_boost
            == other.gpu_boost && same_fan_mode(&self.fan, &other.fan) && curves_same
            && self.bho_enabled == other.bho_enabled && self.bho_threshold == other.bho_threshold
            && self.kbd_brightness == other.kbd_brightness && self.kbd_effect == other.kbd_effect
            && self.logo_led == other.logo_led && self.auto_power == other.auto_power
            && self.ac_profile == other.ac_profile && self.battery_profile
            == other.battery_profile && same_fan_mode(&self.ac_fan, &other.ac_fan)
            && same_fan_mode(&self.battery_fan, &other.battery_fan)
    }
}

} // verus!
