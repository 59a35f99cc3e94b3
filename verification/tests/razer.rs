use fang::api::{FanMode, PerfMode};
use fang::models::LaptopModel;
use fang::packet::{Report, Zone};
use fang::razer::{
    apply_state_once, apply_state_with_recovery, choose_laptop, clamp_rpm, classify_transfer_error,
    failure_message, EcReply,
    no_laptop_reason, parse_approved_pid, restore_auto_commands, unverified_name, EcFailure, EcLink,
    EcTransport,
};
use fang::state::AppliedState;

// 0x02B8 = Blade 18 2024 (in the model table); 0x0084 / 0x0067 are Razer
// mouse PIDs (not in the table); 0x9999 stands in for an unlisted laptop.
#[test]
fn prefers_known_laptop_over_attached_peripheral() {
    // mouse enumerates first, laptop second — the laptop must still win
    assert_eq!(
        choose_laptop(&[(0x0084, 0x0001), (0x02B8, 0xFF00)], None),
        Some(1)
    );
}

#[test]
fn known_laptop_selected_even_without_vendor_usage_page() {
    assert_eq!(choose_laptop(&[(0x02B8, 0x0000)], None), Some(0));
}

#[test]
fn unlisted_laptop_defaults_to_monitor_only() {
    assert_eq!(
        choose_laptop(&[(0x0084, 0x0001), (0x9999, 0xFF00)], None),
        None
    );
}

#[test]
fn exact_unlisted_pid_can_be_explicitly_approved() {
    assert_eq!(
        choose_laptop(
            &[(0x0084, 0x0001), (0x9999, 0xFF00), (0xaaaa, 0xFF00)],
            Some(0x9999)
        ),
        Some(1)
    );
}

#[test]
fn known_laptop_wins_over_an_approved_unknown_device() {
    assert_eq!(
        choose_laptop(&[(0x9999, 0xFF00), (0x02B8, 0x0000)], Some(0x9999)),
        Some(1)
    );
}

#[test]
fn approval_requires_a_vendor_defined_interface() {
    assert_eq!(choose_laptop(&[(0x9999, 0x0001)], Some(0x9999)), None);
}

#[test]
fn parses_exact_hex_pid_approval() {
    assert_eq!(parse_approved_pid("02b8").unwrap(), 0x02b8);
    assert_eq!(parse_approved_pid("0X9999").unwrap(), 0x9999);
    assert!(parse_approved_pid("true").is_err());
    assert!(parse_approved_pid("0000").is_err());
    assert!(parse_approved_pid("12345").is_err());
}

#[test]
fn peripherals_only_selects_nothing() {
    // only a Razer mouse/keyboard present — never open one as a laptop
    assert_eq!(
        choose_laptop(&[(0x0084, 0x0001), (0x0067, 0x0001)], None),
        None
    );
}

fn manual_state() -> AppliedState {
    AppliedState {
        perf_mode: PerfMode::Custom,
        fan: FanMode::Manual { rpm: 3000 },
        ..AppliedState::default()
    }
}

fn assert_auto_report(report: &Report, zone: Zone) {
    assert_eq!((report.command_class, report.command_id), (0x0d, 0x02));
    assert_eq!(report.args[1], zone.to_u8());
    assert_eq!(report.args[3], 0, "manual flag must be cleared");
}

/// Records every report; fails the call numbered `fail_at`.
struct Injector {
    seen: Vec<Report>,
    call: usize,
    fail_at: Option<usize>,
    fail_message: String,
}

impl EcTransport for Injector {
    fn command(&mut self, report: Report) -> Result<(), String> {
        self.seen.push(report);
        let this_call = self.call;
        self.call += 1;
        if Some(this_call) == self.fail_at {
            Err(self.fail_message.replace("{}", &this_call.to_string()))
        } else {
            Ok(())
        }
    }
}

fn injector(fail_at: Option<usize>, message: &str) -> EcLink<Injector> {
    EcLink::new(Injector { seen: Vec::new(), call: 0, fail_at, fail_message: message.to_string() })
}

#[test]
fn every_apply_failure_boundary_restores_both_fans_to_auto() {
    let state = manual_state();
    let model = LaptopModel {
        pid: 0,
        name: "failure-injection model",
        fan_rpm_min: 2200,
        fan_rpm_max: 5000,
        has_cpu_boost_oc: true,
        has_bho: true,
        has_logo: true,
    };
    let mut forward = injector(None, "");
    apply_state_once(&state, &model, &mut forward).unwrap();
    let forward = forward.transport.seen;
    assert!(!forward.is_empty());

    for fail_at in 0..forward.len() {
        let mut link = injector(Some(fail_at), "injected failure {}");
        let result = apply_state_with_recovery(&state, &model, &mut link);

        let error = result.expect_err("injected apply failure must surface");
        assert!(
            error.contains("restored EC automatic fan control"),
            "{error}"
        );
        let seen = &link.transport.seen;
        assert_eq!(seen.len(), fail_at + 3);
        assert_auto_report(&seen[seen.len() - 2], Zone::Fan1);
        assert_auto_report(&seen[seen.len() - 1], Zone::Fan2);
    }
}

#[test]
fn auto_recovery_attempts_the_second_zone_when_the_first_fails() {
    let mut link = injector(Some(0), "fan 1 unavailable");
    let result = restore_auto_commands(PerfMode::Balanced, &mut link);

    let error = result.expect_err("first zone failure must surface");
    assert!(error.contains("Fan1"), "{error}");
    let seen = &link.transport.seen;
    assert_eq!(seen.len(), 2);
    assert_auto_report(&seen[0], Zone::Fan1);
    assert_auto_report(&seen[1], Zone::Fan2);
}

#[test]
fn recovery_errors_carry_the_transport_message() {
    let mut link = injector(Some(0), "fan 1 unavailable");
    assert_eq!(
        restore_auto_commands(PerfMode::Balanced, &mut link),
        Err("Fan1: fan 1 unavailable".to_string())
    );
    let mut link = injector(Some(1), "fan 2 unavailable");
    assert_eq!(
        restore_auto_commands(PerfMode::Balanced, &mut link),
        Err("Fan2: fan 2 unavailable".to_string())
    );
    let model = LaptopModel {
        pid: 0,
        name: "failure-injection model",
        fan_rpm_min: 2200,
        fan_rpm_max: 5000,
        has_cpu_boost_oc: true,
        has_bho: true,
        has_logo: true,
    };
    let mut link = injector(Some(2), "injected failure {}");
    assert_eq!(
        apply_state_with_recovery(&manual_state(), &model, &mut link),
        Err("injected failure 2; restored EC automatic fan control".to_string())
    );
    let mut link = injector(Some(2), "injected failure {}");
    assert_eq!(
        apply_state_once(&manual_state(), &model, &mut link),
        Err("injected failure 2".to_string())
    );
    assert_eq!(link.transport.seen.len(), 3);
}

#[test]
fn successful_apply_sends_the_whole_plan_once() {
    let state = manual_state();
    let model = LaptopModel {
        pid: 0,
        name: "plan model",
        fan_rpm_min: 2200,
        fan_rpm_max: 5000,
        has_cpu_boost_oc: false,
        has_bho: false,
        has_logo: false,
    };
    let mut once = injector(None, "");
    apply_state_once(&state, &model, &mut once).unwrap();
    let mut recovered = injector(None, "");
    apply_state_with_recovery(&state, &model, &mut recovered).unwrap();
    assert_eq!(once.transport.seen, recovered.transport.seen);
    // software fan control is entered at the model's safest (maximum) target
    assert!(once.transport.seen.iter().any(|r| r.command_id == 0x01 && r.args[2] == 50));
}

#[test]
fn rpm_steps_are_clamped_to_the_model() {
    assert_eq!(clamp_rpm(1000, 2200, 5000), 22);
    assert_eq!(clamp_rpm(9000, 2200, 5000), 50);
    assert_eq!(clamp_rpm(3399, 2200, 5000), 33);
}

#[test]
fn failure_messages_name_the_command() {
    let req = fang::packet::get_fan_rpm(Zone::Fan1);
    assert_eq!(
        failure_message(&req, &EcFailure::Unsupported),
        "EC rejected command 0x0d/0x81 as unsupported"
    );
    assert_eq!(failure_message(&req, &EcFailure::Status(3)), "EC status 0x03 for command 0x0d/0x81");
    let e = fang::packet::ReportError::Length { actual: 12 };
    assert_eq!(
        failure_message(&req, &EcFailure::Invalid(e)),
        "invalid EC response for 0x0d/0x81: feature report length 12, expected 91"
    );
}

#[test]
fn failed_transfers_are_retried_once_then_reported() {
    assert_eq!(classify_transfer_error(0, "send_feature_report: broken pipe".to_string()), EcReply::Retry);
    let failed = classify_transfer_error(1, "send_feature_report: broken pipe".to_string());
    assert_eq!(
        failed,
        EcReply::Failed(EcFailure::Transfer("send_feature_report: broken pipe".to_string()))
    );
    let req = fang::packet::get_fan_rpm(Zone::Fan1);
    if let EcReply::Failed(f) = failed {
        assert_eq!(failure_message(&req, &f), "send_feature_report: broken pipe");
    }
}

#[test]
fn no_laptop_reasons() {
    assert_eq!(no_laptop_reason(&[]), "no USB device with Razer vendor id 0x1532");
    let msg = no_laptop_reason(&[(0x0084, 0x0001), (0x0a9b, 0xFF00)]);
    assert!(msg.starts_with("unrecognized Razer EC interface (pid 0a9b)"), "{msg}");
    assert!(msg.ends_with("FANGD_ALLOW_UNVERIFIED_PID=0a9b"), "{msg}");
    assert!(no_laptop_reason(&[(0x0084, 0x0001)]).starts_with("found a Razer USB device but no laptop EC"));
    assert_eq!(unverified_name("Blade", 0x9999), "Blade (pid 9999, unverified)");
}
