use sysinfo_mcp::api::Resp;
use sysinfo_mcp::config::McpMode;
use sysinfo_mcp::orchestrator::{
    launch_plan, on_listener_event, LaunchPlan, ListenerAction, ListenerEvent, Supervisor, Unit,
    UnitExit,
};

#[test]
fn each_mode_has_its_units() {
    assert_eq!(launch_plan(McpMode::Stdio), LaunchPlan { rest: false, mcp_http: false, mcp_stdio: true });
    assert_eq!(launch_plan(McpMode::Http), LaunchPlan { rest: false, mcp_http: true, mcp_stdio: false });
    assert_eq!(launch_plan(McpMode::Both), LaunchPlan { rest: true, mcp_http: true, mcp_stdio: false });
    assert_eq!(launch_plan(McpMode::RestOnly), LaunchPlan { rest: true, mcp_http: false, mcp_stdio: false });
    assert!(launch_plan(McpMode::Both).includes(Unit::McpHttp));
    assert!(!launch_plan(McpMode::RestOnly).includes(Unit::McpHttp));
}

#[test]
fn first_unit_to_end_decides_the_run() {
    let mut s = Supervisor::new(launch_plan(McpMode::Both));
    assert!(!s.is_finished());
    assert!(s.unit_ended(Unit::McpHttp, UnitExit::Failed("bind failed".to_string())));
    assert!(s.unit_ended(Unit::Rest, UnitExit::Completed));
    assert_eq!(s.outcome, Some(Err("bind failed".to_string())));
}

#[test]
fn successful_end_completes_the_run() {
    let mut s = Supervisor::new(launch_plan(McpMode::Both));
    assert!(s.unit_ended(Unit::Rest, UnitExit::Completed));
    assert!(s.unit_ended(Unit::McpHttp, UnitExit::Failed("late".to_string())));
    assert_eq!(s.outcome, Some(Ok(())));
}

#[test]
fn units_outside_the_plan_are_ignored() {
    let mut s = Supervisor::new(launch_plan(McpMode::RestOnly));
    assert!(!s.unit_ended(Unit::McpStdio, UnitExit::Completed));
    assert_eq!(s.outcome, None);
    assert!(s.unit_ended(Unit::Rest, UnitExit::Failed("io".to_string())));
    assert_eq!(s.outcome, Some(Err("io".to_string())));
}

#[test]
fn listener_decisions() {
    assert!(matches!(on_listener_event(ListenerEvent::Accepted), ListenerAction::Serve));
    assert!(matches!(on_listener_event(ListenerEvent::Interrupted), ListenerAction::Stop));
    match on_listener_event(ListenerEvent::AcceptFailed("reset".to_string())) {
        ListenerAction::Fail(e) => assert_eq!(e, "reset"),
        _ => panic!("expected a failure"),
    }
}

#[test]
fn success_envelope() {
    let r = Resp::success(7u32);
    assert_eq!(r.code, 0);
    assert_eq!(r.msg, "Success");
    assert_eq!(r.data, Some(7));
}

#[test]
fn error_envelope() {
    let r: Resp<u32> = Resp::error(500, "probe failed".to_string());
    assert_eq!(r.code, 500);
    assert_eq!(r.msg, "probe failed");
    assert_eq!(r.data, None);
}
