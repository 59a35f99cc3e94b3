use fang::models::{by_pid, fallback, models};

#[test]
fn table_is_sane() {
    let table = models();
    let mut seen = std::collections::HashSet::new();
    for m in &table {
        assert!(seen.insert(m.pid), "duplicate pid {:#06x}", m.pid);
        assert!(m.name.starts_with("Razer "), "{}", m.name);
        assert!(
            m.fan_rpm_min >= 2000 && m.fan_rpm_max <= 6000 && m.fan_rpm_min < m.fan_rpm_max,
            "implausible fan range on {}",
            m.name
        );
    }
    assert_eq!(table.len(), 48);
}

#[test]
fn known_models_have_expected_flags() {
    let b18_2024 = by_pid(0x02B8).expect("Blade 18 2024");
    assert!(b18_2024.has_cpu_boost_oc && b18_2024.has_bho);
    assert!(b18_2024.has_logo);
    assert!(by_pid(0x02A0).is_some());
    // the only logo-less model in the table
    assert!(!by_pid(0x026A).expect("Razer Book 13").has_logo);
}

#[test]
fn unknown_pid_is_not_in_the_table() {
    assert!(by_pid(0x9999).is_none());
    assert!(by_pid(0x0084).is_none());
}

#[test]
fn fallback_is_a_conservative_generic_blade() {
    let f = fallback();
    assert!(f.fan_rpm_min < f.fan_rpm_max);
    assert!(!f.has_cpu_boost_oc);
}
