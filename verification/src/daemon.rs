//! Shared daemon core: hardware handle + desired state + status assembly.
use vstd::prelude::*;
use crate::api::{
    API_VERSION, Boost, Command, FanCurvePoint, FanMode, FanPolicy, KbdEffect, LogoMode,
    PerfMode, Status, ThermalOverrideReason, copy_points, copy_presets, same_fan_mode,
};
use crate::fan::{
    CPU_SENSOR_MISS_LIMIT, FanError, clamp, curve_target, hottest_temp, normalize_fan,
    normalize_rpm, spec_curve_target, spec_hottest_temp, spec_normalize_fan, spec_normalize_rpm,
    spec_thermal_override_next, thermal_override_next, valid_policy, lemma_normalize_fan_valid,
    lemma_normalize_fan_idempotent, lemma_normalize_fan_accepts_valid,
};
use crate::hw::{Answer, Hw, ModelInfo, Sample, StateStore, answer};
use crate::peripherals::PeripheralSnapshot;
use crate::state::{AppliedState, StateView};

verus! {

/// The daemon version reported in [`Status`].
pub fn daemon_version() -> (r: String)
    ensures
        r@ == "0.6.0"@,
{
    String::from_str("0.6.0")
}

/// `b` starts with `a`: a log only grows.
pub open spec fn extends<T>(a: Seq<T>, b: Seq<T>) -> bool {
    a.len() <= b.len() && b.subrange(0, a.len() as int) == a
}

pub proof fn lemma_extends_push<T>(a: Seq<T>, x: T)
    ensures
        extends(a, a.push(x)),
{
    assert(a.push(x).subrange(0, a.len() as int) =~= a);
}

pub proof fn lemma_extends_by_one<T>(a: Seq<T>, b: Seq<T>)
    requires
        extends(a, b),
        b.len() == a.len() + 1,
    ensures
        b == a.push(b[a.len() as int]),
{
    assert(b =~= b.subrange(0, a.len() as int).push(b[a.len() as int]));
}

pub proof fn lemma_extends_trans<T>(a: Seq<T>, b: Seq<T>, c: Seq<T>)
    requires
        extends(a, b),
        extends(b, c),
    ensures
        extends(a, c),
{
    assert(c.subrange(0, a.len() as int) =~= b.subrange(0, a.len() as int));
}

/// `a` followed by `b`.
pub fn cat(a: &str, b: &str) -> (r: String)
    ensures
        r@ == a@ + b@,
{
    let mut r = String::from_str(a);
    r.append(b);
    r
}

pub struct ControlledSample {
    pub hw: Sample,
    pub fan_target_rpm: Option<u16>,
    pub thermal_override_active: bool,
    pub thermal_sensor_ok: bool,
    pub thermal_override_reason: Option<ThermalOverrideReason>,
}

/// `fan` as Auto when the model refuses it.
pub open spec fn normalized_or_auto(fan: FanPolicy, info: ModelInfo) -> FanPolicy {
    match spec_normalize_fan(fan, info) {
        Ok(g) => g,
        Err(_) => FanPolicy::Auto,
    }
}

/// The saved curve after normalization: kept (normalized) when valid,
/// dropped otherwise.
pub open spec fn sanitized_curve(curve: Seq<FanCurvePoint>, info: ModelInfo) -> Seq<FanCurvePoint> {
    if curve.len() == 0 {
        curve
    } else {
        match spec_normalize_fan(FanPolicy::Curve { points: curve }, info) {
            Ok(FanPolicy::Curve { points }) => points,
            _ => Seq::empty(),
        }
    }
}

/// CPU boost without the overclock level on models that lack it.
pub open spec fn capped_boost(b: Boost, info: ModelInfo) -> Boost {
    if b == Boost::Boost && !info.has_cpu_boost_oc {
        Boost::High
    } else {
        b
    }
}

/// `fan_curve` follows an active curve.
pub open spec fn curve_of(fan: FanPolicy, fan_curve: Seq<FanCurvePoint>) -> Seq<FanCurvePoint> {
    match fan {
        FanPolicy::Curve { points } => points,
        _ => fan_curve,
    }
}

/// The model-dependent part of normalizing persisted values.
pub open spec fn spec_sanitize_for_device(s: StateView, info: ModelInfo) -> StateView {
    let fan = normalized_or_auto(s.fan, info);
    StateView {
        cpu_boost: capped_boost(s.cpu_boost, info),
        bho_enabled: s.bho_enabled && info.has_bho,
        fan,
        fan_curve: sanitized_curve(curve_of(fan, s.fan_curve), info),
        ac_fan: normalized_or_auto(s.ac_fan, info),
        battery_fan: normalized_or_auto(s.battery_fan, info),
        ..s
    }
}

/// Persisted values normalized before the first EC command: older state
/// schemas, hand-edited files, and state files moved between laptop models
/// with different limits/features.
pub open spec fn spec_sanitize(s: StateView, info: ModelInfo) -> StateView {
    let s1 = if info.device_present {
        spec_sanitize_for_device(s, info)
    } else {
        s
    };
    StateView {
        bho_threshold: clamp(s1.bho_threshold as int, 50, 80) as u8,
        kbd_brightness: if s1.kbd_brightness > 100 {
            100
        } else {
            s1.kbd_brightness
        },
        ..s1
    }
}

/// A state the model can run: charge cap 50..=80, keyboard brightness at
/// most 100, and, with a device, valid fan policies for every source, a
/// saved curve that is empty or valid, no overclock boost or battery
/// optimizer the model lacks.
pub open spec fn sane(s: StateView, info: ModelInfo) -> bool {
    &&& 50 <= s.bho_threshold <= 80
    &&& s.kbd_brightness <= 100
    &&& info.device_present ==> {
        &&& valid_policy(s.fan, info)
        &&& valid_policy(s.ac_fan, info)
        &&& valid_policy(s.battery_fan, info)
        &&& (s.fan_curve.len() == 0 || valid_policy(FanPolicy::Curve { points: s.fan_curve }, info))
        &&& (s.cpu_boost == Boost::Boost ==> info.has_cpu_boost_oc)
        &&& (s.bho_enabled ==> info.has_bho)
    }
}

proof fn lemma_normalized_or_auto_valid(fan: FanPolicy, info: ModelInfo)
    requires
        info.wf(),
    ensures
        valid_policy(normalized_or_auto(fan, info), info),
        normalized_or_auto(normalized_or_auto(fan, info), info) == normalized_or_auto(fan, info),
{
    if spec_normalize_fan(fan, info) is Ok {
        lemma_normalize_fan_valid(fan, info);
        lemma_normalize_fan_idempotent(fan, info);
    }
}

proof fn lemma_sanitized_curve(curve: Seq<FanCurvePoint>, info: ModelInfo)
    requires
        info.wf(),
    ensures
        sanitized_curve(curve, info).len() == 0 || valid_policy(
            FanPolicy::Curve { points: sanitized_curve(curve, info) },
            info,
        ),
        sanitized_curve(sanitized_curve(curve, info), info) == sanitized_curve(curve, info),
{
    let c = FanPolicy::Curve { points: curve };
    if curve.len() > 0 && spec_normalize_fan(c, info) is Ok {
        lemma_normalize_fan_valid(c, info);
        lemma_normalize_fan_idempotent(c, info);
    }
}

/// Loaded state is always sane: whatever the file held, sanitizing yields
/// a state the model can run.
pub proof fn lemma_sanitize_sane(s: StateView, info: ModelInfo)
    requires
        info.wf(),
    ensures
        sane(spec_sanitize(s, info), info),
{
    if info.device_present {
        lemma_normalized_or_auto_valid(s.fan, info);
        lemma_normalized_or_auto_valid(s.ac_fan, info);
        lemma_normalized_or_auto_valid(s.battery_fan, info);
        lemma_sanitized_curve(curve_of(normalized_or_auto(s.fan, info), s.fan_curve), info);
    }
}

/// A state the model can already run loads unchanged (so it is not
/// rewritten): sanitizing changes only what the model cannot run, given
/// that the saved curve is the active one when a curve is active.
pub proof fn lemma_sanitize_keeps_sane_state(s: StateView, info: ModelInfo)
    requires
        info.wf(),
        sane(s, info),
        s.fan matches FanPolicy::Curve { points } ==> s.fan_curve == points,
    ensures
        spec_sanitize(s, info) == s,
{
    if info.device_present {
        lemma_normalize_fan_accepts_valid(s.fan, info);
        lemma_normalize_fan_accepts_valid(s.ac_fan, info);
        lemma_normalize_fan_accepts_valid(s.battery_fan, info);
        if s.fan_curve.len() > 0 {
            lemma_normalize_fan_accepts_valid(FanPolicy::Curve { points: s.fan_curve }, info);
        }
        assert(curve_of(s.fan, s.fan_curve) == s.fan_curve);
    }
    assert(spec_sanitize(s, info) =~= s);
}

/// Sanitizing twice is sanitizing once: a saved sanitized state loads
/// unchanged.
pub proof fn lemma_sanitize_idempotent(s: StateView, info: ModelInfo)
    requires
        info.wf(),
    ensures
        spec_sanitize(spec_sanitize(s, info), info) == spec_sanitize(s, info),
{
    let t = spec_sanitize(s, info);
    if info.device_present {
        let fan = normalized_or_auto(s.fan, info);
        lemma_normalized_or_auto_valid(s.fan, info);
        lemma_normalized_or_auto_valid(s.ac_fan, info);
        lemma_normalized_or_auto_valid(s.battery_fan, info);
        let c1 = curve_of(fan, s.fan_curve);
        lemma_sanitized_curve(c1, info);
        match fan {
            FanPolicy::Curve { points } => {
                assert(spec_normalize_fan(s.fan, info) is Ok);
                lemma_normalize_fan_valid(s.fan, info);
                lemma_normalize_fan_idempotent(s.fan, info);
                assert(points.len() > 0);
                assert(sanitized_curve(points, info) == points);
            },
            _ => {},
        }
        assert(spec_sanitize(t, info) =~= t);
    } else {
        assert(spec_sanitize(t, info) =~= t);
    }
}

fn sanitize_curve(curve: &Vec<FanCurvePoint>, info: &ModelInfo) -> (r: Vec<FanCurvePoint>)
    requires
        info.wf(),
    ensures
        r@ == sanitized_curve(curve@, *info),
{
    if curve.len() == 0 {
        return copy_points(curve);
    }
    let saved = FanMode::Curve { points: copy_points(curve) };
    match normalize_fan(&saved, info) {
        Ok(FanMode::Curve { points }) => points,
        _ => Vec::new(),
    }
}

fn normalized_or_auto_exec(fan: &FanMode, info: &ModelInfo) -> (r: FanMode)
    requires
        info.wf(),
    ensures
        r@ == normalized_or_auto(fan@, *info),
{
    match normalize_fan(fan, info) {
        Ok(f) => f,
        Err(_) => FanMode::Auto,
    }
}

fn sanitize_for_device(s: &AppliedState, info: &ModelInfo) -> (r: AppliedState)
    requires
        info.wf(),
    ensures
        r@ == spec_sanitize_for_device(s@, *info),
{
    let mut r = s.copy();
    if r.cpu_boost == Boost::Boost && !info.has_cpu_boost_oc {
        r.cpu_boost = Boost::High;
    }
    if !info.has_bho {
        r.bho_enabled = false;
    }
    let active_fan = normalized_or_auto_exec(&s.fan, info);
    let curve = match &active_fan {
        FanMode::Curve { points } => sanitize_curve(points, info),
        _ => sanitize_curve(&s.fan_curve, info),
    };
    r.fan = active_fan;
    r.fan_curve = curve;
    r.ac_fan = normalized_or_auto_exec(&s.ac_fan, info);
    r.battery_fan = normalized_or_auto_exec(&s.battery_fan, info);
    r
}

/// Why a state-changing command was refused before touching hardware.
#[derive(Clone, Copy, Debug, PartialEq, Eq)]
pub enum SetError {
    Fan(FanError),
    NoBho,
    NoLogo,
}

impl SetError {
    pub open spec fn text(self) -> Seq<char> {
        match self {
            SetError::Fan(e) => e.text(),
            SetError::NoBho => "battery health optimizer not supported on this model"@,
            SetError::NoLogo => "no logo LED on this model"@,
        }
    }

    pub fn message(&self) -> (r: String)
        ensures
            r@ == self.text(),
    {
        match self {
            SetError::Fan(e) => e.message(),
            SetError::NoBho => String::from_str("battery health optimizer not supported on this model"),
            SetError::NoLogo => String::from_str("no logo LED on this model"),
        }
    }
}

/// The profile and fan automation applies for a power source.
pub open spec fn source_choice(s: StateView, on_ac: bool) -> (PerfMode, FanPolicy) {
    if on_ac {
        (s.ac_profile, s.ac_fan)
    } else {
        (s.battery_profile, s.battery_fan)
    }
}

/// What a command does to the core's state.
pub enum CommandEffect {
    /// Refused before touching hardware.
    Refused(SetError),
    /// Not a command on the core's state.
    Unchanged,
    /// The requested state.
    Target(StateView),
}

/// The state a command asks for.
pub open spec fn spec_command_state(s: StateView, info: ModelInfo, last_on_ac: Option<bool>, cmd: Command) -> CommandEffect {
    match cmd {
        Command::SetPerfMode { perf_mode, cpu_boost, gpu_boost } => {
            let cpu = match cpu_boost {
                Some(b) => b,
                None => s.cpu_boost,
            };
            let gpu = match gpu_boost {
                Some(b) => b,
                None => s.gpu_boost,
            };
            CommandEffect::Target(StateView {
                        perf_mode,
                        cpu_boost: capped_boost(cpu, info),
                        gpu_boost: gpu,
                        ..s
                    })
        },
        Command::SetFan { fan } => match spec_normalize_fan(fan@, info) {
            Err(e) => CommandEffect::Refused(SetError::Fan(e)),
            Ok(f) => CommandEffect::Target(StateView { fan: f, fan_curve: curve_of(f, s.fan_curve), ..s }),
        },
        Command::SetBho { enabled, threshold } => if !info.has_bho {
            CommandEffect::Refused(SetError::NoBho)
        } else {
            CommandEffect::Target(StateView {
                        bho_enabled: enabled,
                        bho_threshold: clamp(threshold as int, 50, 80) as u8,
                        ..s
                    })
        },
        Command::SetLighting { brightness, kbd_effect, logo_led } => if logo_led is Some
            && !info.has_logo {
            CommandEffect::Refused(SetError::NoLogo)
        } else {
            CommandEffect::Target(StateView {
                        kbd_brightness: match brightness {
                            Some(b) => if b > 100 {
                                100
                            } else {
                                b
                            },
                            None => s.kbd_brightness,
                        },
                        kbd_effect: match kbd_effect {
                            Some(e) => e,
                            None => s.kbd_effect,
                        },
                        logo_led: match logo_led {
                            Some(l) => l,
                            None => s.logo_led,
                        },
                        ..s
                    })
        },
        Command::SetAutoPower { enabled, ac_profile, battery_profile, ac_fan, battery_fan } => {
            match (spec_normalize_fan(ac_fan@, info), spec_normalize_fan(battery_fan@, info)) {
                (Err(e), _) => CommandEffect::Refused(SetError::Fan(e)),
                (Ok(_), Err(e)) => CommandEffect::Refused(SetError::Fan(e)),
                (Ok(a), Ok(b)) => {
                    let s1 = StateView {
                        auto_power: enabled,
                        ac_profile,
                        battery_profile,
                        ac_fan: a,
                        battery_fan: b,
                        ..s
                    };
                    if enabled && last_on_ac is Some {
                        let (mode, fan) = source_choice(s1, last_on_ac->0);
                        CommandEffect::Target(StateView {
                                    perf_mode: mode,
                                    fan,
                                    fan_curve: curve_of(fan, s1.fan_curve),
                                    ..s1
                                })
                    } else {
                        CommandEffect::Target(s1)
                    }
                },
            }
        },
        _ => CommandEffect::Unchanged,
    }
}

/// The state power automation switches to on a source.
pub open spec fn spec_power_state(s: StateView, info: ModelInfo, on_ac: bool) -> StateView {
    let (mode, fan) = source_choice(s, on_ac);
    StateView {
        perf_mode: mode,
        cpu_boost: capped_boost(s.cpu_boost, info),
        fan,
        fan_curve: curve_of(fan, s.fan_curve),
        ..s
    }
}

/// Every accepted command leaves a sane state sane.
pub proof fn lemma_commands_keep_sane(s: StateView, info: ModelInfo, last_on_ac: Option<bool>, cmd: Command)
    requires
        info.wf(),
        sane(s, info),
    ensures
        spec_command_state(s, info, last_on_ac, cmd) matches CommandEffect::Target(t) ==> sane(t, info),
{
    match cmd {
        Command::SetFan { fan } => {
            if spec_normalize_fan(fan@, info) is Ok {
                lemma_normalize_fan_valid(fan@, info);
            }
        },
        Command::SetAutoPower { enabled, ac_profile, battery_profile, ac_fan, battery_fan } => {
            if spec_normalize_fan(ac_fan@, info) is Ok {
                lemma_normalize_fan_valid(ac_fan@, info);
            }
            if spec_normalize_fan(battery_fan@, info) is Ok {
                lemma_normalize_fan_valid(battery_fan@, info);
            }
        },
        _ => {},
    }
}

/// An automatic power-source switch leaves a sane state sane.
pub proof fn lemma_power_switch_keeps_sane(s: StateView, info: ModelInfo, on_ac: bool)
    requires
        info.wf(),
        sane(s, info),
    ensures
        sane(spec_power_state(s, info, on_ac), info),
{
}

/// The RPM the active policy asks for before the guard and the limits.
pub open spec fn requested_rpm(fan: FanPolicy, cpu: Option<i32>, gpu: Option<i32>, max: u16) -> int {
    match fan {
        FanPolicy::Auto => 0,
        FanPolicy::Manual { rpm } => rpm as int,
        FanPolicy::Curve { points } => if points.len() == 0 {
            max as int
        } else {
            match spec_hottest_temp(cpu, gpu) {
                Some(t) => spec_curve_target(points, t as int),
                None => max as int,
            }
        },
    }
}

/// The error a failed state application reports: the backend's own error,
/// then what recovery did. `rollback` is the error of reapplying the
/// previous state, where that was tried and failed; `auto` is how the
/// request for EC automatic fan control was answered.
pub open spec fn recovery_message(apply: Seq<char>, rollback: Option<Seq<char>>, auto: Answer) -> Seq<char> {
    let head = match rollback {
        Some(rb) => apply + "; restoring the previous state failed: "@ + rb,
        None => apply,
    };
    match auto {
        Ok(()) => head + "; fell back to EC automatic fan control"@,
        Err(a) => head + "; EC automatic fan recovery also failed: "@ + a,
    }
}

/// An accepted answer is `Ok(())`.
pub proof fn lemma_accepted(x: Answer)
    requires
        x is Ok,
    ensures
        x == Ok::<(), Seq<char>>(()),
{
    match x {
        Ok(u) => {
            assert(u == ());
        },
        Err(_) => {},
    }
}

pub struct Core<H: Hw, S: StateStore> {
    pub hw: H,
    pub store: S,
    pub info: ModelInfo,
    pub state: AppliedState,
    /// Last sampled power source, so automation acts only on transitions.
    pub last_on_ac: Option<bool>,
    /// Last target successfully sent by the software fan policy.
    pub fan_target_rpm: Option<u16>,
    /// True only after a complete state application succeeds. When recovery
    /// falls back to EC Auto, this prevents target-only writes from silently
    /// resuming software fan control without first re-enabling manual mode.
    pub hardware_state_applied: bool,
    pub thermal_override_active: bool,
    pub thermal_override_reason: Option<ThermalOverrideReason>,
    pub last_cpu_temp_mc: Option<i32>,
    pub last_gpu_temp_mc: Option<i32>,
    pub cpu_missed_samples: u8,
    /// Every state handed to [`Hw::apply`], in order, with the backend's
    /// answer.
    pub apply_log: Ghost<Seq<(StateView, Answer)>>,
    /// Every target handed to [`Hw::set_fan_target`], in order, with the
    /// backend's answer.
    pub target_log: Ghost<Seq<(u16, Answer)>>,
    /// Every mode handed to [`Hw::restore_auto_fan`], in order, with the
    /// backend's answer.
    pub restore_log: Ghost<Seq<(PerfMode, Answer)>>,
    /// Every state handed to [`StateStore::save`], in order.
    pub save_log: Ghost<Seq<StateView>>,
}

impl<H: Hw, S: StateStore> Core<H, S> {
    pub open spec fn model(self) -> ModelInfo {
        self.info
    }

    /// The model's limits form a range.
    pub open spec fn wf(self) -> bool {
        self.model().wf()
    }

    /// The fan guard's safety property: a software fan target never leaves
    /// the model's limits, is only held while the complete state is applied
    /// and a software policy is active, and is the model's maximum whenever
    /// the guard is engaged.
    pub open spec fn fan_guard_ok(self) -> bool {
        &&& self.fan_target_rpm matches Some(t) ==> {
            &&& self.model().fan_rpm_min <= t <= self.model().fan_rpm_max
            &&& self.thermal_override_active ==> t == self.model().fan_rpm_max
        }
        &&& self.thermal_override_active <==> self.thermal_override_reason is Some
    }

    /// The runtime fan state with nothing applied: no software target, no
    /// guard.
    pub open spec fn runtime_idle(self) -> bool {
        &&& self.fan_target_rpm is None
        &&& !self.thermal_override_active
        &&& self.thermal_override_reason is None
    }

    /// The runtime fan state right after a complete state application: a
    /// software policy starts at the model's maximum with the guard engaged
    /// until the CPU sensor is fresh and cool.
    pub open spec fn runtime_reset(self) -> bool {
        if self.state.fan is Auto {
            self.runtime_idle()
        } else {
            &&& self.fan_target_rpm == Some(self.model().fan_rpm_max)
            &&& self.thermal_override_active
            &&& self.thermal_override_reason == Some(ThermalOverrideReason::SensorUnavailable)
        }
    }

    /// Everything but the runtime fan state and the hardware logs is the
    /// same in `self` and `other`.
    pub open spec fn same_config(self, other: Self) -> bool {
        &&& other.info == self.info
        &&& other.state == self.state
        &&& other.last_on_ac == self.last_on_ac
        &&& other.last_cpu_temp_mc == self.last_cpu_temp_mc
        &&& other.last_gpu_temp_mc == self.last_gpu_temp_mc
        &&& other.cpu_missed_samples == self.cpu_missed_samples
    }

    /// Every target ever sent to the fans lies within the model's limits.
    pub open spec fn targets_ok(self) -> bool {
        forall|i: int|
            0 <= i < self.target_log@.len() ==> self.model().fan_rpm_min <= (
                #[trigger] self.target_log@[i]).0 <= self.model().fan_rpm_max
    }

    /// The core's safety invariant.
    pub open spec fn inv(self) -> bool {
        &&& self.wf()
        &&& self.fan_guard_ok()
        &&& self.targets_ok()
        &&& sane(self.state@, self.model())
    }

    pub open spec fn sensor_ok(self) -> bool {
        self.last_cpu_temp_mc is Some && self.cpu_missed_samples < CPU_SENSOR_MISS_LIMIT
    }

    /// Whether the guard must force the maximum, given the current readings.
    pub open spec fn guard_next(self) -> bool {
        !self.sensor_ok() || spec_thermal_override_next(
            self.thermal_override_active,
            self.last_cpu_temp_mc,
            self.last_gpu_temp_mc,
        )
    }

    /// The target the software policy sends.
    pub open spec fn policy_target(self) -> u16 {
        if self.guard_next() {
            self.model().fan_rpm_max
        } else {
            spec_normalize_rpm(
                requested_rpm(
                    self.state.fan@,
                    self.last_cpu_temp_mc,
                    self.last_gpu_temp_mc,
                    self.model().fan_rpm_max,
                ) as u16,
                self.model().fan_rpm_min,
                self.model().fan_rpm_max,
            )
        }
    }

    pub open spec fn policy_reason(self) -> Option<ThermalOverrideReason> {
        if !self.sensor_ok() {
            Some(ThermalOverrideReason::SensorUnavailable)
        } else if spec_thermal_override_next(
            self.thermal_override_active,
            self.last_cpu_temp_mc,
            self.last_gpu_temp_mc,
        ) {
            Some(ThermalOverrideReason::Temperature)
        } else {
            None
        }
    }

    /// The runtime fan fields of `self` and `other` agree.
    pub open spec fn same_runtime(self, other: Self) -> bool {
        &&& self.fan_target_rpm == other.fan_target_rpm
        &&& self.thermal_override_active == other.thermal_override_active
        &&& self.thermal_override_reason == other.thermal_override_reason
    }

    /// `next` handed both fans back to the EC, once, asking for `self`'s
    /// performance mode, and holds nothing applied.
    pub open spec fn falls_back(self, next: Self) -> bool {
        let r = self.restore_log@.len() as int;
        &&& next.restore_log@.len() == r + 1
        &&& extends(self.restore_log@, next.restore_log@)
        &&& next.restore_log@[r].0 == self.state.perf_mode
        &&& !next.hardware_state_applied
        &&& next.runtime_idle()
    }

    /// `next` is `self` after applying `desired` as one transaction, for
    /// each answer of the backend: accepted, the state is applied; refused,
    /// the previous complete state is reapplied when there was one; when
    /// that is refused too or there was none, the EC takes the fans back.
    pub open spec fn transaction(self, next: Self, desired: StateView) -> bool {
        &&& self.transaction_calls(next, desired)
        &&& next.apply_log@[self.apply_log@.len() as int].1 is Ok ==> next.same_runtime(self)
    }

    /// The calls and the outcome of [`Self::transaction`], leaving open
    /// what the runtime fan state is once the backend accepted `desired`.
    pub open spec fn transaction_calls(self, next: Self, desired: StateView) -> bool {
        let a = self.apply_log@.len() as int;
        &&& self.same_config(next)
        &&& next.target_log == self.target_log
        &&& next.save_log == self.save_log
        &&& next.apply_log@.len() > a
        &&& extends(self.apply_log@, next.apply_log@)
        &&& next.apply_log@[a].0 == desired
        &&& match next.apply_log@[a].1 {
            Ok(()) => {
                &&& next.apply_log@.len() == a + 1
                &&& next.restore_log == self.restore_log
                &&& next.hardware_state_applied
            },
            Err(_) => if self.hardware_state_applied {
                &&& next.apply_log@.len() == a + 2
                &&& next.apply_log@[a + 1].0 == self.state@
                &&& match next.apply_log@[a + 1].1 {
                    Ok(()) => {
                        &&& next.restore_log == self.restore_log
                        &&& next.hardware_state_applied
                        &&& next.runtime_reset()
                    },
                    Err(_) => self.falls_back(next),
                }
            } else {
                &&& next.apply_log@.len() == a + 1
                &&& self.falls_back(next)
            },
        }
    }

    /// What the transaction from `self` to `next` reports: `Ok` when the
    /// backend accepted the state, else the backend's error and what
    /// recovery did.
    pub open spec fn transaction_answer(self, next: Self) -> Answer {
        let a = self.apply_log@.len() as int;
        let r = self.restore_log@.len() as int;
        match next.apply_log@[a].1 {
            Ok(()) => Ok(()),
            Err(e) => if self.hardware_state_applied {
                match next.apply_log@[a + 1].1 {
                    Ok(()) => Err(e + "; previous hardware state restored"@),
                    Err(rb) => Err(recovery_message(e, Some(rb), next.restore_log@[r].1)),
                }
            } else {
                Err(recovery_message(e, None, next.restore_log@[r].1))
            },
        }
    }

    /// `self` once the backend refused a new fan target: the refusal is
    /// logged and the runtime fan state dropped.
    pub open spec fn after_refused_target(self, log: Seq<(u16, Answer)>) -> Self {
        Core {
            fan_target_rpm: None,
            thermal_override_active: false,
            thermal_override_reason: None,
            target_log: Ghost(log),
            ..self
        }
    }

    /// `next` is `self` after one step of the software fan policy.
    pub open spec fn policy_step(self, next: Self) -> bool {
        let t = self.target_log@.len() as int;
        &&& self.same_config(next)
        &&& next.inv()
        &&& next.save_log == self.save_log
        &&& extends(self.apply_log@, next.apply_log@)
        &&& extends(self.restore_log@, next.restore_log@)
        &&& if !self.hardware_state_applied || self.state.fan is Auto {
            &&& next.hardware_state_applied == self.hardware_state_applied
            &&& next.runtime_idle()
            &&& next.target_log == self.target_log
            &&& next.apply_log == self.apply_log
            &&& next.restore_log == self.restore_log
        } else if self.fan_target_rpm == Some(self.policy_target()) {
            &&& next.hardware_state_applied
            &&& next.fan_target_rpm == self.fan_target_rpm
            &&& next.thermal_override_active == self.guard_next()
            &&& next.thermal_override_reason == self.policy_reason()
            &&& next.target_log == self.target_log
            &&& next.apply_log == self.apply_log
            &&& next.restore_log == self.restore_log
        } else {
            &&& next.target_log@.len() == t + 1
            &&& extends(self.target_log@, next.target_log@)
            &&& next.target_log@[t].0 == self.policy_target()
            &&& match next.target_log@[t].1 {
                // The new target was accepted ...
                Ok(()) => {
                    &&& next.hardware_state_applied
                    &&& next.fan_target_rpm == Some(self.policy_target())
                    &&& next.thermal_override_active == self.guard_next()
                    &&& next.thermal_override_reason == self.policy_reason()
                    &&& next.apply_log == self.apply_log
                    &&& next.restore_log == self.restore_log
                },
                // ... or refused: the complete state is reapplied as a
                // transaction, which starts at the maximum.
                Err(_) => {
                    let m = self.after_refused_target(next.target_log@);
                    &&& m.transaction_calls(next, self.state@)
                    &&& next.apply_log@[self.apply_log@.len() as int].1 is Ok ==> next.runtime_reset()
                },
            }
        }
    }

    /// `self` having seen the power source `on_ac`.
    pub open spec fn with_source(self, on_ac: Option<bool>) -> Self {
        Core { last_on_ac: on_ac, ..self }
    }

    /// `next` is `self` after the backend accepted `desired`, which was
    /// then persisted, with one step of the fan policy from the maximum.
    pub open spec fn committed(self, next: Self, desired: StateView) -> bool {
        exists|mid: Self|
            #[trigger] mid.policy_step(next) && mid.state@ == desired && mid.hardware_state_applied
                && mid.runtime_reset() && mid.info == self.info && mid.last_on_ac == self.last_on_ac
                && mid.apply_log@ == self.apply_log@.push((desired, Ok(())))
                && mid.restore_log == self.restore_log && mid.target_log == self.target_log
                && mid.save_log@ == self.save_log@.push(desired)
    }

    /// `self` after taking in one sensor reading.
    pub open spec fn with_reading(self, cpu: Option<i32>, gpu: Option<i32>) -> Self {
        Core {
            last_cpu_temp_mc: if cpu is Some {
                cpu
            } else {
                self.last_cpu_temp_mc
            },
            cpu_missed_samples: if cpu is Some {
                0
            } else if self.cpu_missed_samples == u8::MAX {
                u8::MAX
            } else {
                (self.cpu_missed_samples + 1) as u8
            },
            last_gpu_temp_mc: gpu,
            ..self
        }
    }
}


/// Missing or stale CPU telemetry engages the guard, for that reason.
pub proof fn lemma_stale_sensor_engages_guard<H: Hw, S: StateStore>(c: Core<H, S>)
    requires
        !c.sensor_ok(),
    ensures
        c.guard_next(),
        c.policy_reason() == Some(ThermalOverrideReason::SensorUnavailable),
        c.policy_target() == c.model().fan_rpm_max,
{
}

/// Whenever the guard must engage under a software fan policy, one policy
/// step leaves the fans at the model's maximum or hands them back to the
/// EC: never at a lower software target.
pub proof fn lemma_guard_forces_max<H: Hw, S: StateStore>(c: Core<H, S>, next: Core<H, S>)
    requires
        c.policy_step(next),
        c.hardware_state_applied,
        !(c.state.fan is Auto),
        c.guard_next(),
    ensures
        next.fan_target_rpm is None || next.fan_target_rpm == Some(c.model().fan_rpm_max),
        next.fan_target_rpm is None ==> !next.hardware_state_applied || next.state.fan is Auto,
{
}

impl<H: Hw, S: StateStore> Core<H, S> {
    /// Wrap a backend and the persisted state. The state is normalized for
    /// the detected model before any EC command, and saved when that changed
    /// it. The model's limits are read once: backends report the same model
    /// for their whole lifetime.
    pub fn new(hw: H, state: AppliedState, store: S) -> (r: Core<H, S>)
        ensures
            r.wf(),
            r.state@ == spec_sanitize(state@, r.model()),
            r.last_on_ac is None,
            !r.hardware_state_applied,
            r.runtime_idle(),
            r.last_cpu_temp_mc is None,
            r.last_gpu_temp_mc is None,
            r.cpu_missed_samples == CPU_SENSOR_MISS_LIMIT,
            r.inv(),
            r.apply_log@.len() == 0,
            r.target_log@.len() == 0,
            r.restore_log@.len() == 0,
            // The sanitized state is saved exactly when sanitizing changed it.
            r.save_log@ == if spec_sanitize(state@, r.model()) == state@ {
                Seq::<StateView>::empty()
            } else {
                seq![spec_sanitize(state@, r.model())]
            },
    {
        let mut info = hw.info();
        if info.fan_rpm_max < info.fan_rpm_min {
            // A backend with inverted limits is held to its minimum.
            info.fan_rpm_max = info.fan_rpm_min;
        }
        let mut core = Core {
            hw,
            store,
            info,
            state,
            last_on_ac: None,
            fan_target_rpm: None,
            hardware_state_applied: false,
            thermal_override_active: false,
            thermal_override_reason: None,
            last_cpu_temp_mc: None,
            last_gpu_temp_mc: None,
            cpu_missed_samples: CPU_SENSOR_MISS_LIMIT,
            apply_log: Ghost(Seq::empty()),
            target_log: Ghost(Seq::empty()),
            restore_log: Ghost(Seq::empty()),
            save_log: Ghost(Seq::empty()),
        };
        let ghost loaded = core.state@;
        core.sanitize_loaded_state();
        proof {
            lemma_sanitize_sane(loaded, core.model());
        }
        core
    }

    fn sanitize_loaded_state(&mut self)
        requires
            old(self).wf(),
        ensures
            final(self).state@ == spec_sanitize(old(self).state@, old(self).model()),
            final(self).info == old(self).info,
            final(self).last_on_ac == old(self).last_on_ac,
            final(self).fan_target_rpm == old(self).fan_target_rpm,
            final(self).hardware_state_applied == old(self).hardware_state_applied,
            final(self).thermal_override_active == old(self).thermal_override_active,
            final(self).thermal_override_reason == old(self).thermal_override_reason,
            final(self).last_cpu_temp_mc == old(self).last_cpu_temp_mc,
            final(self).last_gpu_temp_mc == old(self).last_gpu_temp_mc,
            final(self).cpu_missed_samples == old(self).cpu_missed_samples,
            final(self).apply_log == old(self).apply_log,
            final(self).target_log == old(self).target_log,
            final(self).restore_log == old(self).restore_log,
            final(self).save_log@ == if final(self).state@ == old(self).state@ {
                old(self).save_log@
            } else {
                old(self).save_log@.push(final(self).state@)
            },
    {
        let before = self.state.copy();
        let mut next = if self.info.device_present {
            sanitize_for_device(&self.state, &self.info)
        } else {
            self.state.copy()
        };
        if next.bho_threshold < 50 {
            next.bho_threshold = 50;
        } else if next.bho_threshold > 80 {
            next.bho_threshold = 80;
        }
        if next.kbd_brightness > 100 {
            next.kbd_brightness = 100;
        }
        assert(next@ =~= spec_sanitize(before@, self.info));
        let changed = !next.same_as(&before);
        self.state = next;
        if changed {
            self.save_state();
        }
    }

    pub fn status(&self, peripherals: &PeripheralSnapshot) -> (r: Status)
        ensures
            r.api_version == API_VERSION,
            r.model == self.model().name,
            r.device_present == self.model().device_present,
            r.verified == self.model().verified,
            r.mock == self.model().mock,
            r.perf_mode == self.state.perf_mode,
            r.cpu_boost == self.state.cpu_boost,
            r.gpu_boost == self.state.gpu_boost,
            r.fan@ == self.state.fan@,
            r.fan_curve@ == self.state.fan_curve@,
            r.fan_rpm_min == self.model().fan_rpm_min,
            r.fan_rpm_max == self.model().fan_rpm_max,
            r.has_cpu_boost_oc == self.model().has_cpu_boost_oc,
            r.has_bho == self.model().has_bho,
            r.bho_enabled == self.state.bho_enabled,
            r.bho_threshold == self.state.bho_threshold,
            r.has_logo == self.model().has_logo,
            r.kbd_brightness == self.state.kbd_brightness,
            r.kbd_effect == self.state.kbd_effect,
            r.logo_led == self.state.logo_led,
            r.color_ddc == peripherals.color_ddc,
            r.color_presets@ == peripherals.color_presets@,
            r.color_current == peripherals.color_current,
            r.monitor_brightness == peripherals.monitor_brightness,
            r.auto_power == self.state.auto_power,
            r.ac_profile == self.state.ac_profile,
            r.battery_profile == self.state.battery_profile,
            r.ac_fan@ == self.state.ac_fan@,
            r.battery_fan@ == self.state.battery_fan@,
            r.gpu_mode == peripherals.gpu_mode,
            r.gpu_mode_pending == peripherals.gpu_mode_pending,
            r.daemon_version@ == "0.6.0"@,
    {
        Status {
            api_version: API_VERSION,
            model: self.info.name.clone(),
            device_present: self.info.device_present,
            verified: self.info.verified,
            mock: self.info.mock,
            perf_mode: self.state.perf_mode,
            cpu_boost: self.state.cpu_boost,
            gpu_boost: self.state.gpu_boost,
            fan: self.state.fan.copy(),
            fan_curve: copy_points(&self.state.fan_curve),
            fan_rpm_min: self.info.fan_rpm_min,
            fan_rpm_max: self.info.fan_rpm_max,
            has_cpu_boost_oc: self.info.has_cpu_boost_oc,
            has_bho: self.info.has_bho,
            bho_enabled: self.state.bho_enabled,
            bho_threshold: self.state.bho_threshold,
            has_logo: self.info.has_logo,
            kbd_brightness: self.state.kbd_brightness,
            kbd_effect: self.state.kbd_effect,
            logo_led: self.state.logo_led,
            color_ddc: peripherals.color_ddc,
            color_presets: copy_presets(&peripherals.color_presets),
            color_current: peripherals.color_current,
            monitor_brightness: peripherals.monitor_brightness,
            auto_power: self.state.auto_power,
            ac_profile: self.state.ac_profile,
            battery_profile: self.state.battery_profile,
            ac_fan: self.state.ac_fan.copy(),
            battery_fan: self.state.battery_fan.copy(),
            gpu_mode: peripherals.gpu_mode,
            gpu_mode_pending: peripherals.gpu_mode_pending,
            daemon_version: daemon_version(),
        }
    }

    fn thermal_sensor_ok(&self) -> (r: bool)
        ensures
            r == self.sensor_ok(),
    {
        self.last_cpu_temp_mc.is_some() && self.cpu_missed_samples < CPU_SENSOR_MISS_LIMIT
    }

    fn mark_hardware_unapplied(&mut self)
        ensures
            !final(self).hardware_state_applied,
            final(self).runtime_idle(),
            final(self).state == old(self).state,
            final(self).info == old(self).info,
            final(self).last_on_ac == old(self).last_on_ac,
            final(self).last_cpu_temp_mc == old(self).last_cpu_temp_mc,
            final(self).last_gpu_temp_mc == old(self).last_gpu_temp_mc,
            final(self).cpu_missed_samples == old(self).cpu_missed_samples,
            final(self).apply_log == old(self).apply_log,
            final(self).target_log == old(self).target_log,
            final(self).restore_log == old(self).restore_log,
            final(self).save_log == old(self).save_log,
    {
        self.hardware_state_applied = false;
        self.fan_target_rpm = None;
        self.thermal_override_active = false;
        self.thermal_override_reason = None;
    }

    fn reset_runtime_fan_target(&mut self)
        ensures
            final(self).runtime_reset(),
            final(self).state == old(self).state,
            final(self).info == old(self).info,
            final(self).hardware_state_applied == old(self).hardware_state_applied,
            final(self).last_on_ac == old(self).last_on_ac,
            final(self).last_cpu_temp_mc == old(self).last_cpu_temp_mc,
            final(self).last_gpu_temp_mc == old(self).last_gpu_temp_mc,
            final(self).cpu_missed_samples == old(self).cpu_missed_samples,
            final(self).apply_log == old(self).apply_log,
            final(self).target_log == old(self).target_log,
            final(self).restore_log == old(self).restore_log,
            final(self).save_log == old(self).save_log,
    {
        let max = self.info.fan_rpm_max;
        match self.state.fan {
            FanMode::Auto => {
                self.fan_target_rpm = None;
                self.thermal_override_active = false;
                self.thermal_override_reason = None;
            },
            _ => {
                // The hardware backend starts software control at max RPM. It
                // stays there until the mandatory CPU sensor is fresh and cool.
                self.fan_target_rpm = Some(max);
                self.thermal_override_active = true;
                self.thermal_override_reason = Some(ThermalOverrideReason::SensorUnavailable);
            },
        }
    }

    /// Persist the desired state, logging it.
    fn save_state(&mut self)
        ensures
            old(self).same_config(*final(self)),
            final(self).same_runtime(*old(self)),
            final(self).save_log@ == old(self).save_log@.push(old(self).state@),
            final(self).apply_log == old(self).apply_log,
            final(self).target_log == old(self).target_log,
            final(self).restore_log == old(self).restore_log,
            final(self).hardware_state_applied == old(self).hardware_state_applied,
    {
        self.store.save(&self.state);
        proof {
            self.save_log@ = self.save_log@.push(self.state@);
        }
    }

    /// Send one complete state to the hardware, logging it.
    fn hw_apply(&mut self, desired: &AppliedState) -> (r: Result<(), String>)
        ensures
            old(self).same_config(*final(self)),
            final(self).apply_log@ == old(self).apply_log@.push((desired@, answer(r))),
            final(self).target_log == old(self).target_log,
            final(self).restore_log == old(self).restore_log,
            final(self).save_log == old(self).save_log,
            final(self).hardware_state_applied == old(self).hardware_state_applied,
            final(self).fan_target_rpm == old(self).fan_target_rpm,
            final(self).thermal_override_active == old(self).thermal_override_active,
            final(self).thermal_override_reason == old(self).thermal_override_reason,
    {
        let r = self.hw.apply(desired);
        proof {
            self.apply_log@ = self.apply_log@.push((desired@, answer(r)));
        }
        r
    }

    /// Hand both fans back to the EC, logging it.
    fn hw_restore_auto(&mut self, mode: PerfMode) -> (r: Result<(), String>)
        ensures
            old(self).same_config(*final(self)),
            final(self).restore_log@ == old(self).restore_log@.push((mode, answer(r))),
            final(self).apply_log == old(self).apply_log,
            final(self).target_log == old(self).target_log,
            final(self).save_log == old(self).save_log,
            final(self).hardware_state_applied == old(self).hardware_state_applied,
            final(self).fan_target_rpm == old(self).fan_target_rpm,
            final(self).thermal_override_active == old(self).thermal_override_active,
            final(self).thermal_override_reason == old(self).thermal_override_reason,
    {
        let r = self.hw.restore_auto_fan(mode);
        proof {
            self.restore_log@ = self.restore_log@.push((mode, answer(r)));
        }
        r
    }

    /// Set the fans' software target, logging it.
    fn hw_set_target(&mut self, rpm: u16) -> (r: Result<(), String>)
        ensures
            old(self).same_config(*final(self)),
            final(self).target_log@ == old(self).target_log@.push((rpm, answer(r))),
            final(self).apply_log == old(self).apply_log,
            final(self).restore_log == old(self).restore_log,
            final(self).save_log == old(self).save_log,
            final(self).hardware_state_applied == old(self).hardware_state_applied,
            final(self).fan_target_rpm == old(self).fan_target_rpm,
            final(self).thermal_override_active == old(self).thermal_override_active,
            final(self).thermal_override_reason == old(self).thermal_override_reason,
    {
        let r = self.hw.set_fan_target(rpm);
        proof {
            self.target_log@ = self.target_log@.push((rpm, answer(r)));
        }
        r
    }

    /// Apply all hardware fields as one logical transaction. EC commands are
    /// inherently sequential, so an error is recovered by reapplying the last
    /// complete state. If that cannot be proven, EC automatic fan control is
    /// the final safe state and target-only writes remain disabled.
    fn apply_hardware_state(&mut self, desired: &AppliedState) -> (r: Result<(), String>)
        requires
            old(self).inv(),
        ensures
            final(self).inv(),
            old(self).transaction(*final(self), desired@),
            answer(r) == old(self).transaction_answer(*final(self)),
    {
        let previous = self.state.copy();
        let previous_was_applied = self.hardware_state_applied;
        let ghost s0 = *self;
        let first = self.hw_apply(desired);
        proof {
            lemma_extends_push(s0.apply_log@, (desired@, answer(first)));
        }
        let apply_error = match first {
            Ok(()) => {
                self.hardware_state_applied = true;
                return Ok(());
            },
            Err(e) => e,
        };
        let ghost s1 = *self;
        let mut rollback_error: Option<String> = None;
        if previous_was_applied {
            let second = self.hw_apply(&previous);
            proof {
                lemma_extends_push(s1.apply_log@, (previous@, answer(second)));
                lemma_extends_trans(s0.apply_log@, s1.apply_log@, self.apply_log@);
            }
            match second {
                Ok(()) => {
                    self.hardware_state_applied = true;
                    self.reset_runtime_fan_target();
                    let msg = cat(apply_error.as_str(), "; previous hardware state restored");
                    return Err(msg);
                },
                Err(e) => rollback_error = Some(e),
            }
        }
        let ghost s2 = *self;
        let auto_result = self.hw_restore_auto(previous.perf_mode);
        proof {
            lemma_extends_push(s2.restore_log@, (previous.perf_mode, answer(auto_result)));
        }
        self.mark_hardware_unapplied();
        let msg = match (rollback_error, auto_result) {
            (Some(rollback), Ok(())) => {
                let a = cat(apply_error.as_str(), "; restoring the previous state failed: ");
                let b = cat(a.as_str(), rollback.as_str());
                cat(b.as_str(), "; fell back to EC automatic fan control")
            },
            (Some(rollback), Err(auto)) => {
                let a = cat(apply_error.as_str(), "; restoring the previous state failed: ");
                let b = cat(a.as_str(), rollback.as_str());
                let c = cat(b.as_str(), "; EC automatic fan recovery also failed: ");
                cat(c.as_str(), auto.as_str())
            },
            (None, Ok(())) => cat(apply_error.as_str(), "; fell back to EC automatic fan control"),
            (None, Err(auto)) => {
                let a = cat(apply_error.as_str(), "; EC automatic fan recovery also failed: ");
                cat(a.as_str(), auto.as_str())
            },
        };
        Err(msg)
    }

    /// One step of the software fan policy: the guard forces the model's
    /// maximum when the CPU sensor is stale or a temperature threshold is
    /// crossed; otherwise Manual/Curve ask for their normalized target.
    pub fn update_fan_policy(&mut self)
        requires
            old(self).inv(),
        ensures
            old(self).policy_step(*final(self)),
    {
        proof {
            assert(self.apply_log@.subrange(0, self.apply_log@.len() as int) =~= self.apply_log@);
            assert(self.restore_log@.subrange(0, self.restore_log@.len() as int)
                =~= self.restore_log@);
        }
        if !self.hardware_state_applied {
            self.fan_target_rpm = None;
            self.thermal_override_active = false;
            self.thermal_override_reason = None;
            return;
        }
        let min = self.info.fan_rpm_min;
        let max = self.info.fan_rpm_max;
        let requested: u16 = match &self.state.fan {
            FanMode::Auto => {
                self.fan_target_rpm = None;
                self.thermal_override_active = false;
                self.thermal_override_reason = None;
                return;
            },
            FanMode::Manual { rpm } => *rpm,
            FanMode::Curve { points } => {
                if points.len() == 0 {
                    max
                } else {
                    match hottest_temp(self.last_cpu_temp_mc, self.last_gpu_temp_mc) {
                        Some(t) => curve_target(points, t),
                        None => max,
                    }
                }
            },
        };
        let sensor_unavailable = !self.thermal_sensor_ok();
        let temperature_override = thermal_override_next(
            self.thermal_override_active,
            self.last_cpu_temp_mc,
            self.last_gpu_temp_mc,
        );
        let override_active = sensor_unavailable || temperature_override;
        let override_reason = if sensor_unavailable {
            Some(ThermalOverrideReason::SensorUnavailable)
        } else if temperature_override {
            Some(ThermalOverrideReason::Temperature)
        } else {
            None
        };
        let target = if override_active {
            max
        } else {
            normalize_rpm(requested, min, max)
        };
        let ghost before = *self;
        assert(target == before.policy_target());
        proof {
            assert(self.apply_log@.subrange(0, self.apply_log@.len() as int) =~= self.apply_log@);
            assert(self.restore_log@.subrange(0, self.restore_log@.len() as int)
                =~= self.restore_log@);
        }
        self.thermal_override_active = override_active;
        self.thermal_override_reason = override_reason;
        if self.fan_target_rpm == Some(target) {
            return;
        }
        let ghost t0 = *self;
        let sent = self.hw_set_target(target);
        proof {
            lemma_extends_push(t0.target_log@, (target, answer(sent)));
        }
        match sent {
            Ok(()) => self.fan_target_rpm = Some(target),
            Err(_) => {
                // A two-zone target update can itself fail halfway through.
                // Reapply the complete current state, which starts at max
                // RPM; the next sensor tick may safely lower it again.
                self.fan_target_rpm = None;
                self.thermal_override_active = false;
                self.thermal_override_reason = None;
                let ghost mid = *self;
                let current = self.state.copy();
                let applied = self.apply_hardware_state(&current);
                let ghost after = *self;
                if applied.is_ok() {
                    self.reset_runtime_fan_target();
                }
                proof {
                    lemma_extends_trans(before.apply_log@, mid.apply_log@, self.apply_log@);
                    let m = before.after_refused_target(self.target_log@);
                    assert(mid.transaction_calls(after, before.state@));
                    assert(m.transaction_calls(after, before.state@));
                    assert(m.transaction_calls(*self, before.state@));
                }
            },
        }
    }

    /// Take one sensor reading, track the CPU sensor's freshness, and run
    /// one step of the fan policy.
    pub fn sample(&mut self) -> (r: ControlledSample)
        requires
            old(self).inv(),
        ensures
            old(self).with_reading(r.hw.cpu_temp_mc, r.hw.gpu_temp_mc).policy_step(*final(self)),
            r.fan_target_rpm == final(self).fan_target_rpm,
            r.thermal_override_active == final(self).thermal_override_active,
            r.thermal_sensor_ok == final(self).sensor_ok(),
            r.thermal_override_reason == final(self).thermal_override_reason,
    {
        let hw = self.hw.sample();
        match hw.cpu_temp_mc {
            Some(cpu) => {
                self.last_cpu_temp_mc = Some(cpu);
                self.cpu_missed_samples = 0;
            },
            None => {
                if self.cpu_missed_samples < u8::MAX {
                    self.cpu_missed_samples = self.cpu_missed_samples + 1;
                }
            },
        }
        self.last_gpu_temp_mc = hw.gpu_temp_mc;
        self.update_fan_policy();
        let sensor_ok = self.thermal_sensor_ok();
        ControlledSample {
            hw,
            fan_target_rpm: self.fan_target_rpm,
            thermal_override_active: self.thermal_override_active,
            thermal_sensor_ok: sensor_ok,
            thermal_override_reason: self.thermal_override_reason,
        }
    }

    /// Re-push the persisted state to the EC (startup, resume from suspend).
    pub fn reapply(&mut self)
        requires
            old(self).inv(),
        ensures
            final(self).inv(),
            old(self).same_config(*final(self)),
            final(self).apply_log@.len() > old(self).apply_log@.len(),
            final(self).apply_log@[old(self).apply_log@.len() as int].0 == old(self).state@,
            match final(self).apply_log@[old(self).apply_log@.len() as int].1 {
                // Accepted: the runtime fan state is reset and one policy
                // step taken ...
                Ok(()) => exists|mid: Self|
                    #[trigger] mid.policy_step(*final(self)) && mid.hardware_state_applied
                        && mid.runtime_reset() && old(self).same_config(mid)
                        && mid.apply_log@ == old(self).apply_log@.push((old(self).state@, Ok(())))
                        && mid.restore_log == old(self).restore_log
                        && mid.target_log == old(self).target_log
                        && mid.save_log == old(self).save_log,
                // ... refused: recovery as in any transaction.
                Err(_) => old(self).transaction(*final(self), old(self).state@),
            },
    {
        let state = self.state.copy();
        let applied = self.apply_hardware_state(&state);
        if applied.is_err() {
            return;
        }
        self.reset_runtime_fan_target();
        let ghost mid = *self;
        proof {
            let a = old(self).apply_log@.len() as int;
            assert(mid.apply_log@[a].1 is Ok);
            lemma_extends_by_one(old(self).apply_log@, mid.apply_log@);
            assert(mid.apply_log@[a].0 == old(self).state@);
            lemma_accepted(mid.apply_log@[a].1);
            assert(mid.apply_log@[a] == (old(self).state@, Ok::<(), Seq<char>>(())));
        }
        self.update_fan_policy();
        assert(mid.policy_step(*self));
        proof {
            lemma_extends_trans(old(self).apply_log@, mid.apply_log@, self.apply_log@);
            assert(self.apply_log@[old(self).apply_log@.len() as int] == mid.apply_log@[old(self).apply_log@.len() as int]);
        }
    }

    /// Restore the EC's automatic fan policy without changing the persisted
    /// preference. A later daemon start can reapply that preference safely.
    pub fn restore_auto_fan(&mut self) -> (r: Result<(), String>)
        requires
            old(self).inv(),
        ensures
            old(self).same_config(*final(self)),
            final(self).inv(),
            !final(self).hardware_state_applied,
            final(self).runtime_idle(),
            final(self).restore_log@ == old(self).restore_log@.push((old(self).state.perf_mode, answer(r))),
            final(self).apply_log == old(self).apply_log,
            final(self).target_log == old(self).target_log,
            final(self).save_log == old(self).save_log,
    {
        let mode = self.state.perf_mode;
        let result = self.hw_restore_auto(mode);
        self.mark_hardware_unapplied();
        result
    }

    /// Commit a state that the hardware accepted: reset the runtime fan
    /// state, run one policy step and persist.
    fn commit(&mut self, next: AppliedState)
        requires
            old(self).inv(),
            old(self).hardware_state_applied,
            sane(next@, old(self).model()),
        ensures
            final(self).state == next,
            (exists|mid: Self|
                #[trigger] mid.policy_step(*final(self)) && mid.state == next
                    && mid.hardware_state_applied && mid.runtime_reset() && mid.info == old(
                    self,
                ).info && mid.last_on_ac == old(self).last_on_ac && mid.apply_log == old(
                    self,
                ).apply_log && mid.restore_log == old(self).restore_log && mid.target_log == old(
                    self,
                ).target_log && mid.save_log@ == old(self).save_log@.push(next@)),
            final(self).inv(),
            final(self).info == old(self).info,
            final(self).last_on_ac == old(self).last_on_ac,
            extends(old(self).apply_log@, final(self).apply_log@),
            extends(old(self).restore_log@, final(self).restore_log@),
    {
        self.state = next;
        self.save_state();
        self.reset_runtime_fan_target();
        let ghost mid = *self;
        self.update_fan_policy();
        assert(mid.policy_step(*self));
    }

    /// Fed the current power source each telemetry tick. When automation is
    /// on and the source just changed (including the first known reading),
    /// applies that source's profile + fan and returns true when the state
    /// changed (the caller broadcasts it).
    pub fn power_tick(&mut self, on_ac: Option<bool>) -> (r: bool)
        requires
            old(self).inv(),
        ensures
            final(self).inv(),
            final(self).info == old(self).info,
            final(self).last_on_ac == on_ac,
            extends(old(self).apply_log@, final(self).apply_log@),
            extends(old(self).restore_log@, final(self).restore_log@),
            ({
                let triggered = old(self).state.auto_power && on_ac != old(self).last_on_ac
                    && on_ac is Some;
                let next = spec_power_state(old(self).state@, old(self).model(), on_ac->0);
                let differs = next.perf_mode != old(self).state.perf_mode || next.fan != old(
                    self,
                ).state.fan@;
                let a = old(self).apply_log@.len() as int;
                &&& !(triggered && differs) ==> {
                    &&& !r
                    &&& final(self).state == old(self).state
                    &&& final(self).apply_log == old(self).apply_log
                    &&& final(self).target_log == old(self).target_log
                    &&& final(self).restore_log == old(self).restore_log
                    &&& final(self).save_log == old(self).save_log
                    &&& final(self).fan_target_rpm == old(self).fan_target_rpm
                    &&& final(self).hardware_state_applied == old(self).hardware_state_applied
                }
                &&& triggered && differs ==> {
                    &&& final(self).apply_log@.len() > a
                    &&& final(self).apply_log@[a].0 == next
                    &&& (r <==> final(self).apply_log@[a].1 is Ok)
                    &&& match final(self).apply_log@[a].1 {
                        // Accepted: the source's profile is committed ...
                        Ok(()) => final(self).state@ == next && old(self).with_source(
                            on_ac,
                        ).committed(*final(self), next),
                        // ... refused: recovery as in any transaction.
                        Err(_) => old(self).with_source(on_ac).transaction(*final(self), next),
                    }
                }
            }),
    {
        proof {
            assert(self.apply_log@.subrange(0, self.apply_log@.len() as int) =~= self.apply_log@);
            assert(self.restore_log@.subrange(0, self.restore_log@.len() as int)
                =~= self.restore_log@);
        }
        let changed = on_ac != self.last_on_ac;
        self.last_on_ac = on_ac;
        if !self.state.auto_power || !changed {
            return false;
        }
        let ac = match on_ac {
            Some(ac) => ac,
            None => return false,
        };
        let mut next = self.state.copy();
        let (mode, fan) = if ac {
            (self.state.ac_profile, self.state.ac_fan.copy())
        } else {
            (self.state.battery_profile, self.state.battery_fan.copy())
        };
        next.perf_mode = mode;
        if next.cpu_boost == Boost::Boost && !self.info.has_cpu_boost_oc {
            next.cpu_boost = Boost::High;
        }
        if let FanMode::Curve { points } = &fan {
            next.fan_curve = copy_points(points);
        }
        next.fan = fan;
        assert(next@ =~= spec_power_state(old(self).state@, old(self).model(), ac));
        if next.perf_mode == self.state.perf_mode && same_fan_mode(&next.fan, &self.state.fan) {
            return false;
        }
        let ghost w = *self;
        assert(w == old(self).with_source(on_ac));
        if self.apply_hardware_state(&next).is_err() {
            return false;
        }
        let ghost before = *self;
        proof {
            let a = w.apply_log@.len() as int;
            lemma_extends_by_one(w.apply_log@, before.apply_log@);
            lemma_accepted(before.apply_log@[a].1);
        }
        self.commit(next);
        proof {
            lemma_extends_trans(old(self).apply_log@, before.apply_log@, self.apply_log@);
            lemma_extends_trans(old(self).restore_log@, before.restore_log@, self.restore_log@);
        }
        true
    }

    /// The state `cmd` asks for.
    #[verifier::rlimit(40)]
    fn planned_state(&self, cmd: &Command) -> (r: Result<Option<AppliedState>, SetError>)
        requires
            self.wf(),
        ensures
            match (r, spec_command_state(self.state@, self.model(), self.last_on_ac, *cmd)) {
                (Err(e), CommandEffect::Refused(f)) => e == f,
                (Ok(None), CommandEffect::Unchanged) => true,
                (Ok(Some(n)), CommandEffect::Target(v)) => n@ == v,
                _ => false,
            },
    {
        let mut next = self.state.copy();
        match cmd {
            Command::SetPerfMode { perf_mode, cpu_boost, gpu_boost } => {
                next.perf_mode = *perf_mode;
                if let Some(b) = cpu_boost {
                    next.cpu_boost = *b;
                }
                if let Some(b) = gpu_boost {
                    next.gpu_boost = *b;
                }
                if next.cpu_boost == Boost::Boost && !self.info.has_cpu_boost_oc {
                    next.cpu_boost = Boost::High;
                }
            },
            Command::SetFan { fan } => {
                let fan = match normalize_fan(fan, &self.info) {
                    Ok(f) => f,
                    Err(e) => return Err(SetError::Fan(e)),
                };
                if let FanMode::Curve { points } = &fan {
                    next.fan_curve = copy_points(points);
                }
                next.fan = fan;
            },
            Command::SetBho { enabled, threshold } => {
                if !self.info.has_bho {
                    return Err(SetError::NoBho);
                }
                next.bho_enabled = *enabled;
                next.bho_threshold = if *threshold < 50 {
                    50
                } else if *threshold > 80 {
                    80
                } else {
                    *threshold
                };
            },
            Command::SetLighting { brightness, kbd_effect, logo_led } => {
                if let Some(b) = brightness {
                    next.kbd_brightness = if *b > 100 {
                        100
                    } else {
                        *b
                    };
                }
                if let Some(e) = kbd_effect {
                    next.kbd_effect = *e;
                }
                if let Some(l) = logo_led {
                    if !self.info.has_logo {
                        return Err(SetError::NoLogo);
                    }
                    next.logo_led = *l;
                }
            },
            Command::SetAutoPower { enabled, ac_profile, battery_profile, ac_fan, battery_fan } => {
                next.auto_power = *enabled;
                next.ac_profile = *ac_profile;
                next.battery_profile = *battery_profile;
                next.ac_fan = match normalize_fan(ac_fan, &self.info) {
                    Ok(f) => f,
                    Err(e) => return Err(SetError::Fan(e)),
                };
                next.battery_fan = match normalize_fan(battery_fan, &self.info) {
                    Ok(f) => f,
                    Err(e) => return Err(SetError::Fan(e)),
                };
                if *enabled {
                    if let Some(on_ac) = self.last_on_ac {
                        let (mode, fan) = if on_ac {
                            (*ac_profile, next.ac_fan.copy())
                        } else {
                            (*battery_profile, next.battery_fan.copy())
                        };
                        next.perf_mode = mode;
                        if let FanMode::Curve { points } = &fan {
                            next.fan_curve = copy_points(points);
                        }
                        next.fan = fan;
                    }
                }
            },
            _ => return Ok(None),
        }
        Ok(Some(next))
    }

    /// Handle a state-changing command as one transaction. Returns true
    /// when state changed (the caller broadcasts a `state_changed` event).
    /// A refused command touches nothing; a hardware failure leaves the
    /// state as it was.
    pub fn handle_set(&mut self, cmd: &Command) -> (r: Result<bool, String>)
        requires
            old(self).inv(),
        ensures
            final(self).inv(),
            final(self).info == old(self).info,
            final(self).last_on_ac == old(self).last_on_ac,
            extends(old(self).apply_log@, final(self).apply_log@),
            extends(old(self).restore_log@, final(self).restore_log@),
            match spec_command_state(old(self).state@, old(self).model(), old(self).last_on_ac, *cmd) {
                CommandEffect::Refused(e) => {
                    &&& r is Err
                    &&& r->Err_0@ == e.text()
                    &&& final(self).state == old(self).state
                    &&& final(self).apply_log == old(self).apply_log
                    &&& final(self).target_log == old(self).target_log
                    &&& final(self).restore_log == old(self).restore_log
                    &&& final(self).save_log == old(self).save_log
                    &&& final(self).fan_target_rpm == old(self).fan_target_rpm
                    &&& final(self).hardware_state_applied == old(self).hardware_state_applied
                },
                CommandEffect::Unchanged => {
                    &&& r == Ok::<bool, String>(false)
                    &&& final(self).state == old(self).state
                    &&& final(self).apply_log == old(self).apply_log
                    &&& final(self).target_log == old(self).target_log
                    &&& final(self).restore_log == old(self).restore_log
                    &&& final(self).save_log == old(self).save_log
                    &&& final(self).fan_target_rpm == old(self).fan_target_rpm
                    &&& final(self).hardware_state_applied == old(self).hardware_state_applied
                },
                CommandEffect::Target(next) => {
                    let a = old(self).apply_log@.len() as int;
                    &&& final(self).apply_log@.len() > a
                    &&& final(self).apply_log@[a].0 == next
                    &&& (r is Ok <==> final(self).apply_log@[a].1 is Ok)
                    &&& match final(self).apply_log@[a].1 {
                        // Accepted: the new state is committed and saved ...
                        Ok(()) => {
                            &&& r == Ok::<bool, String>(true)
                            &&& final(self).state@ == next
                            &&& old(self).committed(*final(self), next)
                        },
                        // ... refused: the previous state stays, and the
                        // error says what the backend answered and what
                        // recovery did.
                        Err(_) => {
                            &&& old(self).transaction(*final(self), next)
                            &&& r is Err
                            &&& old(self).transaction_answer(*final(self)) == Err::<(), Seq<char>>(r->Err_0@)
                        },
                    }
                },
            },
    {
        proof {
            assert(self.apply_log@.subrange(0, self.apply_log@.len() as int) =~= self.apply_log@);
            assert(self.restore_log@.subrange(0, self.restore_log@.len() as int)
                =~= self.restore_log@);
        }
        let next = match self.planned_state(cmd) {
            Err(e) => return Err(e.message()),
            Ok(None) => return Ok(false),
            Ok(Some(n)) => n,
        };
        proof {
            lemma_commands_keep_sane(self.state@, self.model(), self.last_on_ac, *cmd);
        }
        match self.apply_hardware_state(&next) {
            Err(e) => return Err(e),
            Ok(()) => {},
        }
        let ghost before = *self;
        proof {
            let a = old(self).apply_log@.len() as int;
            lemma_extends_by_one(old(self).apply_log@, before.apply_log@);
            lemma_accepted(before.apply_log@[a].1);
        }
        self.commit(next);
        proof {
            lemma_extends_trans(old(self).apply_log@, before.apply_log@, self.apply_log@);
            lemma_extends_trans(old(self).restore_log@, before.restore_log@, self.restore_log@);
        }
        Ok(true)
    }
}


} // verus!
