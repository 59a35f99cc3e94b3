use fang::args::{group_id, parse_args, ArgStop};

fn argv(a: &[&str]) -> Vec<String> {
    a.iter().map(|s| s.to_string()).collect()
}

#[test]
fn options_are_read_in_order() {
    let a = parse_args(&argv(&["--mock", "--tcp", "127.0.0.1:7331", "--state", "/tmp/s.json"]), false).unwrap();
    assert!(a.mock);
    assert!(!a.restore_auto);
    assert_eq!(a.tcp.as_deref(), Some("127.0.0.1:7331"));
    assert_eq!(a.state.as_deref(), Some("/tmp/s.json"));
    assert_eq!(a.socket, None);
    let b = parse_args(&argv(&["--restore-auto", "--socket"]), true).unwrap();
    assert!(b.mock && b.restore_auto);
    assert_eq!(b.socket, None);
}

#[test]
fn help_and_unknown_arguments_stop() {
    assert!(matches!(parse_args(&argv(&["-h"]), false), Err(ArgStop::Help)));
    match parse_args(&argv(&["--mock", "--frobnicate"]), false) {
        Err(ArgStop::Unknown(a)) => assert_eq!(a, "--frobnicate"),
        _ => panic!("unknown argument accepted"),
    }
}

#[test]
fn socket_group_is_looked_up_by_name() {
    let groups = "root:x:0:\nfangs:x:12:\nfang:x:bad:\nfang:x:987:alice,bob\n";
    assert_eq!(group_id(groups, "fang"), Some(987));
    assert_eq!(group_id(groups, "root"), Some(0));
    assert_eq!(group_id(groups, "wheel"), None);
}
