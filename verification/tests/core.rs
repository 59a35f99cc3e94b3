use fang::api::{Command, FanCurvePoint, FanMode, PerfMode, ThermalOverrideReason};
use fang::daemon::Core;
use fang::fan::{curve_target, normalize_rpm, thermal_override_next, CPU_SENSOR_MISS_LIMIT};
use fang::hw::{Hw, ModelInfo, Sample, StateStore};
use fang::peripherals::PeripheralSnapshot;
use std::cell::RefCell;
use std::collections::VecDeque;
use std::rc::Rc;

fn curve() -> Vec<FanCurvePoint> {
    vec![
        FanCurvePoint { temp_c: 40, rpm: 2200 },
        FanCurvePoint { temp_c: 70, rpm: 3400 },
        FanCurvePoint { temp_c: 90, rpm: 5000 },
    ]
}

fn test_info(name: &str) -> ModelInfo {
    ModelInfo {
        name: name.into(),
        device_present: true,
        verified: true,
        mock: true,
        fan_rpm_min: 2200,
        fan_rpm_max: 5000,
        has_cpu_boost_oc: true,
        has_bho: true,
        has_logo: true,
    }
}

/// Temperatures are given in degrees and stored in millidegrees.
fn sample(cpu: Option<i32>, gpu: Option<i32>) -> Sample {
    Sample {
        cpu_temp_mc: cpu.map(|c| c * 1000),
        gpu_temp_mc: gpu.map(|g| g * 1000),
        ..Sample::default()
    }
}

struct NoStore;

impl StateStore for NoStore {
    fn save(&mut self, _state: &fang::state::AppliedState) {}
}

struct TestHw {
    sample: Sample,
    restored: Option<Rc<RefCell<bool>>>,
}

impl Hw for TestHw {
    fn info(&self) -> ModelInfo {
        test_info("test laptop")
    }

    fn apply(&mut self, _state: &fang::state::AppliedState) -> Result<(), String> {
        Ok(())
    }

    fn set_fan_target(&mut self, _rpm: u16) -> Result<(), String> {
        Ok(())
    }

    fn restore_auto_fan(&mut self, _perf_mode: PerfMode) -> Result<(), String> {
        if let Some(restored) = &self.restored {
            *restored.borrow_mut() = true;
        }
        Ok(())
    }

    fn sample(&mut self) -> Sample {
        self.sample.clone()
    }
}

#[derive(Default)]
struct ScriptedTrace {
    applied: Vec<fang::state::AppliedState>,
    apply_results: VecDeque<Result<(), String>>,
    restore_results: VecDeque<Result<(), String>>,
    fan_target_results: VecDeque<Result<(), String>>,
    restores: usize,
    fan_targets: usize,
}

struct ScriptedHw {
    trace: Rc<RefCell<ScriptedTrace>>,
    sample: Sample,
}

impl Hw for ScriptedHw {
    fn info(&self) -> ModelInfo {
        test_info("scripted laptop")
    }

    fn apply(&mut self, state: &fang::state::AppliedState) -> Result<(), String> {
        let mut t = self.trace.borrow_mut();
        t.applied.push(state.clone());
        t.apply_results.pop_front().unwrap_or(Ok(()))
    }

    fn set_fan_target(&mut self, _rpm: u16) -> Result<(), String> {
        let mut t = self.trace.borrow_mut();
        t.fan_targets += 1;
        t.fan_target_results.pop_front().unwrap_or(Ok(()))
    }

    fn restore_auto_fan(&mut self, _perf_mode: PerfMode) -> Result<(), String> {
        let mut t = self.trace.borrow_mut();
        t.restores += 1;
        t.restore_results.pop_front().unwrap_or(Ok(()))
    }

    fn sample(&mut self) -> Sample {
        self.sample.clone()
    }
}

fn scripted_core(
    state: fang::state::AppliedState,
    sample: Sample,
    apply_results: Vec<Result<(), String>>,
    restore_results: Vec<Result<(), String>>,
) -> (Core<ScriptedHw, NoStore>, Rc<RefCell<ScriptedTrace>>) {
    let trace = Rc::new(RefCell::new(ScriptedTrace {
        apply_results: apply_results.into(),
        restore_results: restore_results.into(),
        ..ScriptedTrace::default()
    }));
    let hw = ScriptedHw { trace: Rc::clone(&trace), sample };
    (Core::new(hw, state, NoStore), trace)
}

fn core_with(fan: FanMode, sample: Sample) -> Core<TestHw, NoStore> {
    let state = fang::state::AppliedState { fan, ..fang::state::AppliedState::default() };
    Core::new(TestHw { sample, restored: None }, state, NoStore)
}

#[test]
fn fan_curve_clamps_and_interpolates() {
    assert_eq!(curve_target(&curve(), 30_000), 2200);
    assert_eq!(curve_target(&curve(), 55_000), 2800);
    assert_eq!(curve_target(&curve(), 80_000), 4200);
    assert_eq!(curve_target(&curve(), 100_000), 5000);
}

#[test]
fn thermal_override_has_hysteresis_and_fails_safe() {
    assert!(!thermal_override_next(false, Some(94_900), Some(86_900)));
    assert!(thermal_override_next(false, Some(95_000), None));
    assert!(thermal_override_next(false, None, Some(87_000)));
    assert!(thermal_override_next(true, Some(88_000), Some(70_000)));
    assert!(!thermal_override_next(true, Some(87_900), Some(81_900)));
    assert!(thermal_override_next(true, None, None));
}

#[test]
fn hot_manual_control_is_always_overridden() {
    let mut core = core_with(FanMode::Manual { rpm: 2200 }, sample(Some(95), Some(70)));
    core.reapply();
    let s = core.sample();
    assert!(s.thermal_override_active);
    assert_eq!(s.fan_target_rpm, Some(5000));
}

#[test]
fn curve_without_temperature_fails_safe_at_maximum() {
    let mut core = core_with(FanMode::Curve { points: curve() }, Sample::default());
    core.reapply();
    let s = core.sample();
    assert!(s.thermal_override_active);
    assert_eq!(s.fan_target_rpm, Some(5000));
    assert_eq!(s.thermal_override_reason, Some(ThermalOverrideReason::SensorUnavailable));
}

#[test]
fn manual_without_cpu_temperature_fails_safe_at_maximum() {
    let mut core = core_with(FanMode::Manual { rpm: 2200 }, Sample::default());
    core.reapply();
    let s = core.sample();
    assert!(s.thermal_override_active);
    assert!(!s.thermal_sensor_ok);
    assert_eq!(s.fan_target_rpm, Some(5000));
    assert_eq!(s.thermal_override_reason, Some(ThermalOverrideReason::SensorUnavailable));
}

#[test]
fn stale_cpu_sensor_forces_max_after_short_grace_period() {
    let mut core = core_with(FanMode::Manual { rpm: 2200 }, sample(Some(70), None));
    core.reapply();
    let s = core.sample();
    assert!(s.thermal_sensor_ok);
    assert!(!s.thermal_override_active);

    core.cpu_missed_samples = CPU_SENSOR_MISS_LIMIT - 1;
    core.update_fan_policy();
    assert!(!core.thermal_override_active);

    core.cpu_missed_samples = CPU_SENSOR_MISS_LIMIT;
    core.update_fan_policy();
    assert!(core.thermal_override_active);
    assert_eq!(core.fan_target_rpm, Some(5000));
    assert_eq!(core.thermal_override_reason, Some(ThermalOverrideReason::SensorUnavailable));
}

#[test]
fn shutdown_restores_ec_auto_without_overwriting_saved_preference() {
    let restored = Rc::new(RefCell::new(false));
    let state = fang::state::AppliedState {
        fan: FanMode::Manual { rpm: 2200 },
        ..fang::state::AppliedState::default()
    };
    let mut core = Core::new(
        TestHw { sample: Sample::default(), restored: Some(Rc::clone(&restored)) },
        state,
        NoStore,
    );
    core.restore_auto_fan().expect("restore Auto");
    assert!(*restored.borrow());
    assert!(matches!(core.state.fan, FanMode::Manual { rpm: 2200 }));
    assert_eq!(core.fan_target_rpm, None);
}

#[test]
fn automatic_ec_control_is_not_replaced_by_software_guard() {
    let mut core = core_with(FanMode::Auto, sample(Some(99), Some(90)));
    core.reapply();
    let s = core.sample();
    assert!(!s.thermal_override_active);
    assert_eq!(s.fan_target_rpm, None);
}

#[test]
fn rpm_targets_are_clamped_and_rounded_to_ec_steps() {
    assert_eq!(normalize_rpm(1000, 2200, 5000), 2200);
    assert_eq!(normalize_rpm(3349, 2200, 5000), 3300);
    assert_eq!(normalize_rpm(3350, 2200, 5000), 3400);
    assert_eq!(normalize_rpm(9000, 2200, 5000), 5000);
}

#[test]
fn failed_state_change_restores_the_previous_complete_state() {
    let initial = fang::state::AppliedState::default();
    let (mut core, trace) = scripted_core(
        initial.clone(),
        Sample::default(),
        vec![Ok(()), Err("forward write failed".into()), Ok(())],
        vec![],
    );
    core.reapply();

    let error = core
        .handle_set(&Command::SetFan { fan: FanMode::Manual { rpm: 3000 } })
        .expect_err("the failed update must be reported");

    assert!(error.contains("previous hardware state restored"), "{error}");
    assert_eq!(core.state, initial);
    assert!(core.hardware_state_applied);
    let t = trace.borrow();
    assert_eq!(t.restores, 0);
    assert_eq!(t.applied.len(), 3);
    assert!(matches!(&t.applied[1].fan, FanMode::Manual { rpm: 3000 }));
    assert_eq!(t.applied[2], initial);
}

#[test]
fn failed_rollback_falls_back_to_auto_and_blocks_target_writes() {
    let initial = fang::state::AppliedState {
        fan: FanMode::Manual { rpm: 3000 },
        ..fang::state::AppliedState::default()
    };
    let (mut core, trace) = scripted_core(
        initial.clone(),
        sample(Some(70), Some(65)),
        vec![Ok(()), Err("forward write failed".into()), Err("rollback write failed".into())],
        vec![Ok(())],
    );
    core.reapply();

    let error = core
        .handle_set(&Command::SetPerfMode {
            perf_mode: PerfMode::Gaming,
            cpu_boost: None,
            gpu_boost: None,
        })
        .expect_err("the failed update must be reported");

    assert!(error.contains("fell back to EC automatic fan control"), "{error}");
    assert_eq!(core.state, initial);
    assert!(!core.hardware_state_applied);
    assert_eq!(trace.borrow().restores, 1);

    core.sample();
    assert_eq!(trace.borrow().fan_targets, 0);
    assert_eq!(core.fan_target_rpm, None);
}

#[test]
fn failed_initial_apply_uses_auto_without_assuming_a_rollback_state() {
    let initial = fang::state::AppliedState {
        fan: FanMode::Manual { rpm: 3000 },
        ..fang::state::AppliedState::default()
    };
    let (mut core, trace) = scripted_core(
        initial,
        Sample::default(),
        vec![Err("startup write failed".into())],
        vec![Ok(())],
    );

    core.reapply();

    assert!(!core.hardware_state_applied);
    assert_eq!(trace.borrow().applied.len(), 1);
    assert_eq!(trace.borrow().restores, 1);
    core.sample();
    assert_eq!(trace.borrow().fan_targets, 0);
}

#[test]
fn partial_fan_target_failure_reapplies_both_zones_at_maximum() {
    let initial = fang::state::AppliedState {
        fan: FanMode::Manual { rpm: 3000 },
        ..fang::state::AppliedState::default()
    };
    let (mut core, trace) = scripted_core(
        initial,
        sample(Some(70), Some(65)),
        vec![Ok(()), Ok(())],
        vec![],
    );
    trace.borrow_mut().fan_target_results.push_back(Err("fan 2 target failed".into()));
    core.reapply();

    core.sample();

    assert!(core.hardware_state_applied);
    assert_eq!(trace.borrow().fan_targets, 1);
    assert_eq!(trace.borrow().applied.len(), 2);
    assert_eq!(core.fan_target_rpm, Some(5000));
}

#[test]
fn status_reports_the_state_and_peripherals() {
    let core = core_with(FanMode::Auto, Sample::default());
    let st = core.status(&PeripheralSnapshot::default());
    assert_eq!(st.model, "test laptop");
    assert_eq!(st.fan, FanMode::Auto);
    assert_eq!(st.gpu_mode, None);
}

#[test]
fn power_transitions_switch_the_profile_when_enabled() {
    let state = fang::state::AppliedState {
        auto_power: true,
        ac_profile: PerfMode::Gaming,
        battery_profile: PerfMode::Silent,
        ..fang::state::AppliedState::default()
    };
    let mut core = Core::new(TestHw { sample: Sample::default(), restored: None }, state, NoStore);
    core.reapply();
    assert!(core.power_tick(Some(true)));
    assert_eq!(core.state.perf_mode, PerfMode::Gaming);
    assert!(!core.power_tick(Some(true)));
    assert!(core.power_tick(Some(false)));
    assert_eq!(core.state.perf_mode, PerfMode::Silent);
    assert!(!core.power_tick(None));
    assert_eq!(core.state.perf_mode, PerfMode::Silent);
}

struct CountingStore {
    saved: Rc<RefCell<Vec<fang::state::AppliedState>>>,
}

impl StateStore for CountingStore {
    fn save(&mut self, state: &fang::state::AppliedState) {
        self.saved.borrow_mut().push(state.clone());
    }
}

#[test]
fn loading_saves_only_a_changed_state_and_commits_save() {
    let saved = Rc::new(RefCell::new(Vec::new()));
    let store = CountingStore { saved: Rc::clone(&saved) };
    let clean = fang::state::AppliedState::default();
    let mut core = Core::new(TestHw { sample: sample(Some(50), None), restored: None }, clean, store);
    assert!(saved.borrow().is_empty());
    assert_eq!(core.handle_set(&Command::Ping), Ok(false));
    assert!(saved.borrow().is_empty());
    assert_eq!(
        core.handle_set(&Command::SetPerfMode { perf_mode: PerfMode::Gaming, cpu_boost: None, gpu_boost: None }),
        Ok(true)
    );
    assert_eq!(saved.borrow().len(), 1);
    assert_eq!(saved.borrow()[0].perf_mode, PerfMode::Gaming);

    let saved = Rc::new(RefCell::new(Vec::new()));
    let store = CountingStore { saved: Rc::clone(&saved) };
    let loud = fang::state::AppliedState { kbd_brightness: 250, ..fang::state::AppliedState::default() };
    let core = Core::new(TestHw { sample: sample(Some(50), None), restored: None }, loud, store);
    assert_eq!(saved.borrow().len(), 1);
    assert_eq!(saved.borrow()[0].kbd_brightness, 100);
    assert_eq!(core.state.kbd_brightness, 100);
}

#[test]
fn refused_apply_reports_the_backend_error_and_recovery() {
    let (mut core, trace) = scripted_core(
        fang::state::AppliedState::default(),
        sample(Some(50), None),
        vec![Err("write failed".into())],
        vec![Err("auto failed".into())],
    );
    let result = core.handle_set(&Command::SetPerfMode {
        perf_mode: PerfMode::Gaming,
        cpu_boost: None,
        gpu_boost: None,
    });
    assert_eq!(
        result,
        Err("write failed; EC automatic fan recovery also failed: auto failed".to_string())
    );
    assert_eq!(trace.borrow().restores, 1);
    assert_eq!(core.state.perf_mode, fang::state::AppliedState::default().perf_mode);
    assert!(!core.hardware_state_applied);
}
