use fang::api::{Command, FanMode, PerfMode};

#[test]
fn command_mutability_is_explicit() {
    assert!(!Command::GetStatus.is_mutating());
    assert!(!Command::Subscribe.is_mutating());
    assert!(!Command::Ping.is_mutating());
    assert!(Command::SetFan { fan: FanMode::Auto }.is_mutating());
}

#[test]
fn perf_modes_map_to_defined_ec_modes() {
    assert_eq!(PerfMode::Balanced.to_ec(), 0);
    assert_eq!(PerfMode::Gaming.to_ec(), 1);
    assert_eq!(PerfMode::Silent.to_ec(), 4);
    assert_eq!(PerfMode::Custom.to_ec(), 4);
}
