use fang::socket::{bind_step, BindAction, BindEvent, BindStage, ErrKind};

const PATH: &str = "/run/fangd.sock";

fn failed(kind: ErrKind, msg: &str) -> BindEvent {
    BindEvent::Failed(kind, msg.to_string())
}

#[test]
fn free_path_is_bound_at_once() {
    assert_eq!(bind_step(BindStage::FirstBind, PATH, &BindEvent::Done), BindAction::Listen);
    assert_eq!(
        bind_step(BindStage::FirstBind, PATH, &failed(ErrKind::Other, "Permission denied")),
        BindAction::Fail(false, "bind /run/fangd.sock: Permission denied".to_string())
    );
}

#[test]
fn live_daemon_is_never_replaced() {
    assert_eq!(
        bind_step(BindStage::FirstBind, PATH, &failed(ErrKind::AddrInUse, "in use")),
        BindAction::Then(BindStage::Probe)
    );
    assert_eq!(
        bind_step(BindStage::Probe, PATH, &BindEvent::Done),
        BindAction::Fail(true, "another fangd instance is listening on /run/fangd.sock".to_string())
    );
    assert_eq!(
        bind_step(BindStage::Probe, PATH, &failed(ErrKind::Other, "timed out")),
        BindAction::Fail(false, "cannot prove that existing socket /run/fangd.sock is stale: timed out".to_string())
    );
}

#[test]
fn stale_socket_is_inspected_removed_and_rebound() {
    assert_eq!(
        bind_step(BindStage::Probe, PATH, &failed(ErrKind::ConnectionRefused, "refused")),
        BindAction::Then(BindStage::Inspect)
    );
    assert_eq!(bind_step(BindStage::Inspect, PATH, &BindEvent::Done), BindAction::Then(BindStage::Remove));
    assert_eq!(bind_step(BindStage::Remove, PATH, &BindEvent::Done), BindAction::Then(BindStage::FinalBind));
    assert_eq!(bind_step(BindStage::FinalBind, PATH, &BindEvent::Done), BindAction::Listen);
    assert_eq!(
        bind_step(BindStage::FinalBind, PATH, &failed(ErrKind::AddrInUse, "in use")),
        BindAction::Fail(false, "bind /run/fangd.sock after removing stale socket: in use".to_string())
    );
    assert_eq!(
        bind_step(BindStage::Remove, PATH, &failed(ErrKind::Other, "busy")),
        BindAction::Fail(false, "remove stale socket /run/fangd.sock: busy".to_string())
    );
    assert_eq!(
        bind_step(BindStage::Inspect, PATH, &failed(ErrKind::NotFound, "gone")),
        BindAction::Fail(false, "inspect existing socket /run/fangd.sock: gone".to_string())
    );
}

#[test]
fn non_socket_path_is_refused_and_races_rebind() {
    assert_eq!(
        bind_step(BindStage::Inspect, PATH, &BindEvent::NotSocket),
        BindAction::Fail(true, "refusing to replace non-socket path /run/fangd.sock".to_string())
    );
    assert_eq!(
        bind_step(BindStage::Probe, PATH, &failed(ErrKind::NotFound, "gone")),
        BindAction::Then(BindStage::RaceBind)
    );
    assert_eq!(bind_step(BindStage::RaceBind, PATH, &BindEvent::Done), BindAction::Listen);
    assert_eq!(
        bind_step(BindStage::RaceBind, PATH, &failed(ErrKind::AddrInUse, "in use")),
        BindAction::Fail(false, "bind /run/fangd.sock after startup race: in use".to_string())
    );
}
