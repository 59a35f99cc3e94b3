use fang::api::GpuMode;
use fang::gpu::{open, parse_mode, GpuBackend, GpuSwitch, PrimeTool, Tool};
use fang::runner::{CommandRunner, Runs};

#[test]
fn parses_supported_backend_names() {
    assert_eq!(parse_mode("on-demand\n"), Some(GpuMode::Hybrid));
    assert_eq!(parse_mode("integrated"), Some(GpuMode::Integrated));
    assert_eq!(parse_mode("nvidia"), Some(GpuMode::Dedicated));
    assert_eq!(parse_mode("unknown"), None);
}

#[test]
fn parse_mode_ignores_case_and_spaces() {
    assert_eq!(parse_mode("  NVIDIA  "), Some(GpuMode::Dedicated));
    assert_eq!(parse_mode("Intel"), Some(GpuMode::Integrated));
    assert_eq!(parse_mode("Hybrid\n"), Some(GpuMode::Hybrid));
}

struct Scripted {
    calls: Vec<(String, Vec<String>)>,
    replies: Vec<Result<String, String>>,
}

impl CommandRunner for Scripted {
    fn run(&mut self, program: &str, args: &Vec<String>) -> Result<String, String> {
        self.calls.push((program.to_string(), args.clone()));
        if self.replies.is_empty() {
            Err("not found".to_string())
        } else {
            self.replies.remove(0)
        }
    }
}

fn runs(replies: Vec<Result<String, String>>) -> Runs<Scripted> {
    Runs::new(Scripted { calls: Vec::new(), replies })
}

#[test]
fn detect_prefers_prime_select_then_envycontrol() {
    let mut r = runs(vec![Err("no prime-select".into()), Ok("hybrid\n".into())]);
    let tool = PrimeTool::detect(&mut r).unwrap();
    assert_eq!(tool.tool, Tool::EnvyControl);
    assert_eq!(tool.mode, GpuMode::Hybrid);
    assert_eq!(r.runner.calls[0].0, "prime-select");
    assert_eq!(r.runner.calls[0].1, vec!["query"]);
    assert_eq!(r.runner.calls[1].0, "envycontrol");
    assert_eq!(r.runner.calls[1].1, vec!["--query"]);

    let mut none = runs(vec![Ok("weird".into()), Err("missing".into())]);
    assert!(PrimeTool::detect(&mut none).is_none());
}

#[test]
fn switching_runs_the_tool_and_marks_a_reboot_pending() {
    let mut r = runs(vec![Ok("intel".into()), Ok(String::new())]);
    let mut g = open(false, &mut r);
    assert_eq!(g.current(), Some(GpuMode::Integrated));
    assert!(!g.pending());
    g.set(&mut r, GpuMode::Dedicated).unwrap();
    assert_eq!(r.runner.calls[1].0, "prime-select");
    assert_eq!(r.runner.calls[1].1, vec!["nvidia"]);
    assert_eq!(g.current(), Some(GpuMode::Dedicated));
    assert!(g.pending());
}

#[test]
fn failed_switch_keeps_the_mode_and_reports_the_tool_error() {
    let mut r = runs(vec![Err("x".into()), Ok("integrated".into()), Err("envycontrol -s hybrid: denied".into())]);
    let mut g = open(false, &mut r);
    let err = g.set(&mut r, GpuMode::Hybrid).unwrap_err();
    assert_eq!(err, "envycontrol -s hybrid: denied");
    assert_eq!(r.runner.calls[2].1, vec!["-s", "hybrid"]);
    assert_eq!(g.current(), Some(GpuMode::Integrated));
    assert!(!g.pending());
}

#[test]
fn mock_switches_without_tools_and_no_tool_refuses() {
    let mut r = runs(vec![]);
    let mut m = open(true, &mut r);
    assert_eq!(m.current(), Some(GpuMode::Hybrid));
    m.set(&mut r, GpuMode::Hybrid).unwrap();
    assert!(!m.pending());
    m.set(&mut r, GpuMode::Dedicated).unwrap();
    assert!(m.pending());
    assert!(r.runner.calls.is_empty());

    let mut u = open(false, &mut r);
    assert!(matches!(u, GpuBackend::Unsupported(_)));
    assert_eq!(u.current(), None);
    assert!(u.set(&mut r, GpuMode::Dedicated).unwrap_err().contains("no supported GPU switching tool"));
}
