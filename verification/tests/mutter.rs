use fang::display::{mutter_info, mutter_plan, MutterLogical, MutterMode, MutterMonitor};

fn mode(id: &str, width: i32, height: i32, hz: u32, rank: u64, current: bool) -> MutterMode {
    MutterMode { id: id.to_string(), width, height, hz, rank, current }
}

fn logical(primary: bool, connectors: &[&str]) -> MutterLogical {
    MutterLogical { primary, connectors: connectors.iter().map(|c| c.to_string()).collect() }
}

/// eDP-1 (internal panel, current 2560x1600@240) and DP-2 (external,
/// current 3840x2160@60). Ranks order each monitor's exact rates.
fn setup() -> Vec<MutterMonitor> {
    vec![
        MutterMonitor {
            connector: "eDP-1".to_string(),
            modes: vec![
                mode("2560x1600@240.000", 2560, 1600, 240, 4, true),
                mode("2560x1600@59.972", 2560, 1600, 60, 1, false),
                mode("2560x1600@60.008", 2560, 1600, 60, 2, false),
                mode("1920x1200@240.000", 1920, 1200, 240, 4, false),
                mode("1920x1200@120.000", 1920, 1200, 120, 3, false),
                mode("2560x1600@48.000", 2560, 1600, 48, 0, false),
            ],
        },
        MutterMonitor {
            connector: "DP-2".to_string(),
            modes: vec![
                mode("3840x2160@144.000", 3840, 2160, 144, 1, false),
                mode("3840x2160@60.000", 3840, 2160, 60, 0, true),
            ],
        },
    ]
}

#[test]
fn mutter_info_reads_the_primary_monitor() {
    let monitors = setup();
    let layout = vec![logical(false, &["DP-2"]), logical(true, &["eDP-1"])];
    let info = mutter_info(&monitors, &layout).unwrap();
    assert!(info.supported);
    assert_eq!(info.output, "eDP-1");
    assert_eq!(info.resolution, "2560x1600");
    assert_eq!(info.current_hz, 240);
    assert_eq!(info.available_hz, vec![48, 60, 240]);
    assert_eq!(info.hint, "");
}

#[test]
fn mutter_info_falls_back_to_the_first_logical_monitor() {
    let monitors = setup();
    let layout = vec![logical(false, &["DP-2"]), logical(false, &["eDP-1"])];
    let info = mutter_info(&monitors, &layout).unwrap();
    assert_eq!(info.output, "DP-2");
    assert_eq!(info.resolution, "3840x2160");
    assert_eq!(info.current_hz, 60);
    assert_eq!(info.available_hz, vec![60, 144]);
    assert!(mutter_info(&monitors, &vec![]).is_none());
    assert!(mutter_info(&monitors, &vec![logical(true, &["HDMI-1"])]).is_none());
}

#[test]
fn mutter_plan_picks_the_highest_exact_rate_and_keeps_other_monitors() {
    let monitors = setup();
    let layout = vec![logical(true, &["eDP-1"]), logical(false, &["DP-2", "HDMI-1"])];
    let plan = mutter_plan(&monitors, &layout, 60).unwrap();
    assert_eq!(
        plan,
        vec![
            vec![("eDP-1".to_string(), "2560x1600@60.008".to_string())],
            vec![("DP-2".to_string(), "3840x2160@60.000".to_string())],
        ]
    );
}

#[test]
fn mutter_plan_refusals() {
    let monitors = setup();
    assert_eq!(mutter_plan(&monitors, &vec![], 60), Err("no active monitor".to_string()));
    assert_eq!(
        mutter_plan(&monitors, &vec![logical(true, &["HDMI-1"])], 60),
        Err("target monitor vanished".to_string())
    );
    let no_current = vec![MutterMonitor {
        connector: "eDP-1".to_string(),
        modes: vec![mode("a", 2560, 1600, 60, 0, false)],
    }];
    assert_eq!(
        mutter_plan(&no_current, &vec![logical(true, &["eDP-1"])], 60),
        Err("no current mode".to_string())
    );
    // 120 Hz exists only at another resolution.
    assert_eq!(
        mutter_plan(&monitors, &vec![logical(true, &["eDP-1"])], 120),
        Err("120 Hz not available on eDP-1".to_string())
    );
}
