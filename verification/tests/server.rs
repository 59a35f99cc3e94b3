use fang::api::{Command, FanMode, GpuMode, Request};
use fang::server::{clock_jumped, incompatible_message, is_blank, route, Route};

#[test]
fn mutating_requests_need_the_current_api_version() {
    let old = Request { id: 2, api_version: 0, cmd: Command::SetFan { fan: FanMode::Auto } };
    match route(&old) {
        Route::Refuse(m) => {
            assert_eq!(m, "incompatible Fang API: client 0, daemon 1; update both packages");
            assert!(m.contains("incompatible"));
        }
        _ => panic!("an old client must not change state"),
    }
    let read = Request { id: 1, api_version: 0, cmd: Command::GetStatus };
    assert!(matches!(route(&read), Route::Status));
}

#[test]
fn commands_are_routed_to_their_handlers() {
    let r = |cmd| route(&Request { id: 9, api_version: 1, cmd });
    assert!(matches!(r(Command::Ping), Route::Pong));
    assert!(matches!(r(Command::Subscribe), Route::Subscribe));
    assert!(matches!(r(Command::SetGpuMode { gpu_mode: GpuMode::Dedicated }), Route::Gpu(GpuMode::Dedicated)));
    assert!(matches!(r(Command::SetColorPreset { value: 4 }), Route::ColorPreset(4)));
    assert!(matches!(r(Command::SetMonitorBrightness { value: 40 }), Route::MonitorBrightness(40)));
    assert!(matches!(r(Command::SetBho { enabled: true, threshold: 80 }), Route::Core));
}

#[test]
fn blank_lines_and_resume_detection() {
    assert!(is_blank("  \t"));
    assert!(!is_blank(" {} "));
    assert!(clock_jumped(1_000, 30_000));
    assert!(!clock_jumped(1_000, 21_000));
    assert!(!clock_jumped(30_000, 1_000));
    assert_eq!(incompatible_message(7), "incompatible Fang API: client 7, daemon 1; update both packages");
}
