use fang::display::{kscreen, xrandr};

#[test]
fn parses_xrandr() {
    let out = "\
Screen 0: minimum 320 x 200, current 2560 x 1600, maximum 16384 x 16384
eDP-1 connected primary 2560x1600+0+0 (normal left inverted) 345mm x 215mm
   2560x1600    240.00*+  60.01    59.99
   1920x1200    240.00    60.00
HDMI-1 disconnected (normal left inverted)
";
    let info = xrandr(out).unwrap();
    assert_eq!(info.output, "eDP-1");
    assert_eq!(info.resolution, "2560x1600");
    assert_eq!(info.current_hz, 240);
    assert_eq!(info.available_hz, vec![60, 240]);
}

#[test]
fn parses_kscreen() {
    let out = "Output: 1 eDP-1 enabled connected priority 1 Panel Modes: 0:2560x1600@240*! 1:2560x1600@60 2:1920x1200@240 Geometry: 0,0 2560x1600\n";
    let info = kscreen(out).unwrap();
    assert_eq!(info.output, "eDP-1");
    assert_eq!(info.current_hz, 240);
    assert_eq!(info.available_hz, vec![60, 240]);
}

#[test]
fn kscreen_selects_primary_active_external_output() {
    let out = "\
Output: 1 eDP-1 enabled connected priority 2 Panel Modes: 0:2560x1600@240*! 1:2560x1600@60 Geometry: 0,0 2560x1600
Output: 2 DP-2 enabled connected priority 1 DisplayPort Modes: 0:3840x2160@144*! 1:3840x2160@60 Geometry: 2560,0 3840x2160
Output: 3 HDMI-1 disabled connected priority 0 HDMI Modes: 0:1920x1080@60*! Geometry: 0,0 1920x1080
";
    let info = kscreen(out).unwrap();
    assert_eq!(info.output, "DP-2");
    assert_eq!(info.resolution, "3840x2160");
    assert_eq!(info.current_hz, 144);
    assert_eq!(info.available_hz, vec![60, 144]);
}

#[test]
fn xrandr_selects_primary_active_external_output() {
    let out = "\
Screen 0: minimum 320 x 200, current 6400 x 2160, maximum 16384 x 16384
eDP-1 connected 2560x1600+0+0 (normal left inverted) 345mm x 215mm
   2560x1600    240.00*+  60.00
DP-2 connected primary 3840x2160+2560+0 (normal left inverted) 600mm x 340mm
   3840x2160    143.98*+  120.00  60.00
HDMI-1 connected (normal left inverted)
   1920x1080     60.00 +
";
    let info = xrandr(out).unwrap();
    assert_eq!(info.output, "DP-2");
    assert_eq!(info.resolution, "3840x2160");
    assert_eq!(info.current_hz, 144);
    assert_eq!(info.available_hz, vec![60, 120, 144]);
}

#[test]
fn xrandr_falls_back_to_first_active_output_without_primary() {
    let out = "\
DP-1 connected (normal left inverted)
   1920x1080     60.00 +
HDMI-1 connected 1920x1080+0+0 (normal left inverted)
   1920x1080     75.00*+  60.00
";
    let info = xrandr(out).unwrap();
    assert_eq!(info.output, "HDMI-1");
    assert_eq!(info.current_hz, 75);
}

#[test]
fn kscreen_strips_terminal_colors() {
    let out = "\u{1b}[01;32mOutput: \u{1b}[0m1 eDP-1 enabled connected priority 1 Panel Modes: 0:2560x1600@165*! 1:2560x1600@60\n";
    let info = kscreen(out).unwrap();
    assert_eq!(info.output, "eDP-1");
    assert_eq!(info.current_hz, 165);
    assert_eq!(info.available_hz, vec![60, 165]);
}

#[test]
fn kscreen_without_current_mode_is_nothing() {
    assert!(kscreen("Output: 1 eDP-1 enabled connected Modes: 0:2560x1600@240\n").is_none());
    assert!(xrandr("eDP-1 connected\n   2560x1600  60.00\n").is_none());
}

#[test]
fn rates_round_half_away_from_zero() {
    let info = xrandr("X connected\n   800x600  59.50*  29.49\n").unwrap();
    assert_eq!(info.current_hz, 60);
    assert_eq!(info.available_hz, vec![29, 60]);
}
