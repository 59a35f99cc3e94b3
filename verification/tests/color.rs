use fang::color::{current_profile, display_device, known_profiles, profiles};

const DEVICES: &str = "\
Object Path:   /org/freedesktop/ColorManager/devices/xrandr_HDMI_1
Type:          display
Device ID:     xrandr-HDMI-1
Metadata:      XRANDR_name=HDMI-1
Object Path:   /org/freedesktop/ColorManager/devices/xrandr_eDP_1
Type:          display
Device ID:     xrandr-eDP-1
Metadata:      XRANDR_name=eDP-1
";

const PROFILES: &str = "\
Object Path:   /org/freedesktop/ColorManager/profiles/icc_a1
Filename:      /usr/share/color/icc/colord/sRGB.icc
Title:         sRGB
Object Path:   /org/freedesktop/ColorManager/profiles/icc_b2
Filename:      /usr/share/color/icc/colord/AdobeRGB1998.icc
Title:         Adobe RGB (1998)
Object Path:   /org/freedesktop/ColorManager/profiles/icc_c3
Filename:      /usr/share/color/icc/colord/Rec709.icc
Title:         Rec. 709
Object Path:   /org/freedesktop/ColorManager/profiles/icc_d4
Filename:      /home/user/.local/share/icc/edid-9f83a.icc
Title:         eDP-1
";

#[test]
fn picks_edp_device() {
    let d = display_device(DEVICES).unwrap();
    assert_eq!(d, "/org/freedesktop/ColorManager/devices/xrandr_eDP_1");
}

#[test]
fn maps_profiles_in_ui_order() {
    let p = known_profiles(PROFILES);
    let ids: Vec<&str> = p.iter().map(|(id, _)| id.as_str()).collect();
    assert_eq!(ids, vec!["native", "srgb", "adobe_rgb", "rec709"]);
}

#[test]
fn recognizes_current() {
    let out = "Object Path: /o/p\nFilename:      /usr/share/color/icc/colord/AdobeRGB1998.icc\nTitle:         Adobe RGB (1998)\n";
    let (id, name) = current_profile(out);
    assert_eq!(id.as_deref(), Some("adobe_rgb"));
    assert_eq!(name, "Adobe RGB (1998)");
}

#[test]
fn first_device_when_no_edp() {
    let out = "Object Path: /dev/a\nType: display\nObject Path: /dev/b\n";
    assert_eq!(display_device(out).as_deref(), Some("/dev/a"));
    assert_eq!(display_device("nothing here\n"), None);
}

#[test]
fn known_profiles_keep_object_paths_and_first_of_each_kind() {
    let out = "Object Path: /p/1\nFilename: /x/sRGB.icc\nObject Path: /p/2\nFilename: /y/sRGB-v4.icc\nFilename: /z/unknown.icc\n";
    let p = known_profiles(out);
    assert_eq!(p, vec![("srgb".to_string(), "/p/1".to_string())]);
}

#[test]
fn current_without_title_uses_file_base_name() {
    let (id, name) = current_profile("Filename: /a/b/custom.icc\n");
    assert_eq!(id, None);
    assert_eq!(name, "custom.icc");
    let (id, _) = current_profile("Filename: /a/edid-1234.icc\n");
    assert_eq!(id.as_deref(), Some("native"));
}

#[test]
fn profile_ids_in_ui_order() {
    assert_eq!(profiles(), vec!["native", "srgb", "adobe_rgb", "rec709"]);
}
