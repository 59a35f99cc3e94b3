use fang::power::{is_external_supply, on_ac, parse_online, SupplyReading};

fn supply(kind: &str, online: Option<&str>) -> SupplyReading {
    SupplyReading { kind: Some(kind.to_string()), online: online.map(|o| o.to_string()) }
}

#[test]
fn any_online_adapter_wins_over_an_offline_one() {
    let s = vec![supply("Mains", Some("0\n")), supply("Mains", Some("1\n"))];
    assert_eq!(on_ac(&s), Some(true));
}

#[test]
fn usb_c_and_usb_pd_are_external_power_sources() {
    for kind in ["USB_C", "USB_PD", "USB_PD_DRP"] {
        assert_eq!(on_ac(&vec![supply(kind, Some("1"))]), Some(true), "type {kind}");
    }
}

#[test]
fn all_readable_adapters_offline_means_battery_power() {
    let s = vec![supply("Mains", Some("0")), supply("USB_C", Some("0")), supply("Battery", None)];
    assert_eq!(on_ac(&s), Some(false));
}

#[test]
fn absent_or_unreadable_external_supplies_are_unknown() {
    assert_eq!(on_ac(&vec![supply("Battery", None)]), None);
    assert_eq!(on_ac(&vec![supply("Mains", None)]), None);
    assert_eq!(on_ac(&vec![SupplyReading { kind: None, online: Some("1".into()) }]), None);
}

#[test]
fn supply_types_and_online_values() {
    assert!(is_external_supply(&"Wireless".chars().collect()));
    assert!(!is_external_supply(&"Battery".chars().collect()));
    assert_eq!(parse_online(" 1 \n"), Some(true));
    assert_eq!(parse_online("0"), Some(false));
    assert_eq!(parse_online("2"), None);
}
