use fang::panel::{choose_backlight, get, percent, raw_level, BacklightEntry};

fn entry(name: &str, max: Option<&str>) -> BacklightEntry {
    BacklightEntry { name: name.to_string(), max_brightness: max.map(|m| m.to_string()) }
}

#[test]
fn preferred_panel_controller_wins() {
    let es = vec![
        entry("nvidia_0", Some("100\n")),
        entry("acpi_video0", Some("15")),
        entry("intel_backlight", Some("96000")),
    ];
    assert_eq!(choose_backlight(&es), Some(2));
    let es = vec![entry("nvidia_0", Some("100")), entry("acpi_video0", Some("15"))];
    assert_eq!(choose_backlight(&es), Some(1));
}

#[test]
fn unusable_entries_are_skipped() {
    let es = vec![entry("intel_backlight", Some("0")), entry("other", None), entry("nvidia_0", Some("10"))];
    assert_eq!(choose_backlight(&es), Some(2));
    let es = vec![entry("panel", Some("x")), entry("vendor", Some("255"))];
    assert_eq!(choose_backlight(&es), Some(1));
    assert_eq!(choose_backlight(&vec![]), None);
}

#[test]
fn levels_round_to_percent_and_back() {
    assert_eq!(percent(48000, 96000), 50);
    assert_eq!(percent(200000, 96000), 100);
    assert_eq!(percent(1, 3), 33);
    assert_eq!(percent(2, 3), 67);
    assert_eq!(raw_level(50, 96000), 48000);
    assert_eq!(raw_level(0, 96000), 4800);
    assert_eq!(raw_level(0, 10), 1);
    assert_eq!(raw_level(200, 96000), 96000);
}

#[test]
fn panel_page_and_set_requests() {
    let info = get(Some(("intel_backlight".into(), 96000)), Some(24000));
    assert!(info.supported);
    assert_eq!(info.brightness, 25);
    let none = get(None, None);
    assert!(!none.supported);
    assert_eq!(none.hint, "No internal panel backlight found.");
    assert_eq!(fang::panel::set(Some(("intel_backlight".into(), 1000)), 80).unwrap(), ("intel_backlight".to_string(), 800));
    assert_eq!(fang::panel::set(None, 80).unwrap_err(), "no internal panel backlight");
}
