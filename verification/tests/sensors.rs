use fang::sensors::{
    energy_delta, is_cpu_hwmon, is_nvidia_gpu, is_package_label, is_package_zone,
    parse_millidegrees, should_query_gpu,
};

#[test]
fn runtime_pm_off_always_queries() {
    assert!(should_query_gpu("on", "active", "0"));
    assert!(should_query_gpu("", "", ""));
}

#[test]
fn suspended_gpu_is_left_alone() {
    assert!(!should_query_gpu("auto", "suspended", "0"));
    assert!(!should_query_gpu("auto", "suspending", "1"));
}

#[test]
fn idle_but_unclaimed_gpu_is_left_alone() {
    assert!(!should_query_gpu("auto", "active", "0"));
}

#[test]
fn gpu_in_use_by_others_is_queried() {
    assert!(should_query_gpu("auto", "active", "1"));
    assert!(should_query_gpu("auto", "active", "not-a-number"));
}

#[test]
fn rapl_counter_wraps_at_its_range() {
    assert_eq!(energy_delta(1500, 1000, 10_000), 500);
    assert_eq!(energy_delta(200, 9_800, 10_000), 400);
}

#[test]
fn sysfs_sources_are_recognized() {
    assert!(is_cpu_hwmon("k10temp\n"));
    assert!(!is_cpu_hwmon("nvme"));
    assert!(is_package_label("Package id 0\n"));
    assert!(is_package_label("Tctl"));
    assert!(!is_package_label("Core 0"));
    assert!(is_nvidia_gpu("0x10de\n", "0x030000\n"));
    assert!(!is_nvidia_gpu("0x10de", "0x040300"));
    assert!(is_package_zone("intel-rapl:0", "package-0\n"));
    assert!(!is_package_zone("intel-rapl-mmio:0", "package-0"));
}

#[test]
fn hwmon_temperatures_read_in_millidegrees() {
    assert_eq!(parse_millidegrees("45000\n"), Some(45000));
    assert_eq!(parse_millidegrees("-5000"), Some(-5000));
    assert_eq!(parse_millidegrees("hot"), None);
}
