use openclaw_manager::service::start_timeout_log_line;
use openclaw_manager::service::{
    debug_numbers_chars, gateway_err_log_file, gateway_log_files, get_logs, kill_args,
    slash_join_str, start_poll_step, start_service_precheck, start_spawn_error,
    stop_service_step, taskkill_args, PollDecision, StopAction, StopPhase, DEFAULT_LOG_LINES,
    SERVICE_PORT, START_POLL_ATTEMPTS,
};

fn s(v: &[&str]) -> Vec<String> {
    v.iter().map(|x| x.to_string()).collect()
}

#[test]
fn service_constants() {
    assert_eq!(SERVICE_PORT, 18789);
    assert_eq!(START_POLL_ATTEMPTS, 15);
    assert_eq!(DEFAULT_LOG_LINES, 100);
}

#[test]
fn stop_without_processes_reports_not_running() {
    match stop_service_step(StopPhase::Start, vec![]) {
        StopAction::Finish(Ok(m)) => assert_eq!(m, "服务未在运行"),
        other => panic!("unexpected {:?}", other),
    }
}

#[test]
fn stop_first_terminates_gracefully() {
    match stop_service_step(StopPhase::Start, vec![10, 11]) {
        StopAction::Kill { pids, force, wait_secs, next } => {
            assert_eq!(pids, vec![10, 11]);
            assert!(!force);
            assert_eq!(wait_secs, 2);
            assert_eq!(next, StopPhase::Terminated);
        }
        other => panic!("unexpected {:?}", other),
    }
}

#[test]
fn stop_after_terminate() {
    match stop_service_step(StopPhase::Terminated, vec![]) {
        StopAction::Finish(Ok(m)) => assert_eq!(m, "服务已停止"),
        other => panic!("unexpected {:?}", other),
    }
    match stop_service_step(StopPhase::Terminated, vec![11]) {
        StopAction::Kill { pids, force, wait_secs, next } => {
            assert_eq!(pids, vec![11]);
            assert!(force);
            assert_eq!(wait_secs, 1);
            assert_eq!(next, StopPhase::Killed);
        }
        other => panic!("unexpected {:?}", other),
    }
}

#[test]
fn stop_after_kill() {
    match stop_service_step(StopPhase::Killed, vec![]) {
        StopAction::Finish(Ok(m)) => assert_eq!(m, "服务已停止"),
        other => panic!("unexpected {:?}", other),
    }
    match stop_service_step(StopPhase::Killed, vec![11, 12]) {
        StopAction::Finish(Err(e)) => assert_eq!(e, "无法停止服务，仍有进程: [11, 12]"),
        other => panic!("unexpected {:?}", other),
    }
}

#[test]
fn stop_protocol_ends_within_three_listings() {
    let mut phase = StopPhase::Start;
    let mut steps = 0;
    loop {
        steps += 1;
        match stop_service_step(phase, vec![5]) {
            StopAction::Kill { next, .. } => phase = next,
            StopAction::Finish(r) => {
                assert!(r.is_err());
                break;
            }
        }
    }
    assert_eq!(steps, 3);
}

#[test]
fn debug_text_of_pids() {
    let v: String = debug_numbers_chars(&vec![]).into_iter().collect();
    assert_eq!(v, format!("{:?}", Vec::<u32>::new()));
    let v: String = debug_numbers_chars(&vec![1, 22, 4294967295]).into_iter().collect();
    assert_eq!(v, format!("{:?}", vec![1u32, 22, 4294967295]));
}

#[test]
fn kill_arguments() {
    assert_eq!(kill_args(42, false), s(&["-TERM", "42"]));
    assert_eq!(kill_args(42, true), s(&["-9", "42"]));
    assert_eq!(taskkill_args(7, false), s(&["/PID", "7"]));
    assert_eq!(taskkill_args(7, true), s(&["/F", "/PID", "7"]));
}

#[test]
fn start_prechecks() {
    assert_eq!(start_service_precheck(true, true), Err("服务已在运行中".to_string()));
    assert_eq!(start_service_precheck(true, false), Err("服务已在运行中".to_string()));
    assert_eq!(
        start_service_precheck(false, false),
        Err("找不到 openclaw 命令，请先通过 npm install -g openclaw 安装".to_string())
    );
    assert_eq!(start_service_precheck(false, true), Ok(()));
    assert_eq!(start_spawn_error("boom"), "启动服务失败: boom");
}

#[test]
fn start_poll_decisions() {
    match start_poll_step(3, Some(999)) {
        PollDecision::Started(m) => assert_eq!(m, "服务已启动，PID: 999"),
        other => panic!("unexpected {:?}", other),
    }
    assert!(matches!(start_poll_step(1, None), PollDecision::Wait));
    assert!(matches!(start_poll_step(14, None), PollDecision::Wait));
    match start_poll_step(15, None) {
        PollDecision::TimedOut(e) => assert_eq!(e, "服务启动超时（15秒），请检查 openclaw 日志"),
        other => panic!("unexpected {:?}", other),
    }
    assert!(matches!(start_poll_step(15, Some(1)), PollDecision::Started(_)));
}

#[test]
fn log_file_paths() {
    assert_eq!(slash_join_str("a", "b"), "a/b");
    assert_eq!(
        gateway_log_files("/home/u/.openclaw"),
        s(&["/home/u/.openclaw/logs/gateway.log", "/home/u/.openclaw/logs/gateway.err.log"])
    );
    assert_eq!(gateway_err_log_file("/c"), "/c/logs/gateway.err.log");
}

#[test]
fn logs_are_trimmed_sorted_deduplicated() {
    let raw = s(&["b", "  a  ", "", "b", "c", "   "]);
    assert_eq!(get_logs(&raw, None), s(&["a", "b", "c"]));
}

#[test]
fn logs_keep_the_last_n() {
    let raw = s(&["3", "1", "2", "4"]);
    assert_eq!(get_logs(&raw, Some(2)), s(&["3", "4"]));
    assert_eq!(get_logs(&raw, Some(0)), Vec::<String>::new());
    assert_eq!(get_logs(&raw, Some(10)), s(&["1", "2", "3", "4"]));
}

#[test]
fn logs_default_keeps_one_hundred() {
    let raw: Vec<String> = (0..150).map(|i| format!("line {:03}", i)).collect();
    let r = get_logs(&raw, None);
    assert_eq!(r.len(), 100);
    assert_eq!(r[0], "line 050");
    assert_eq!(r[99], "line 149");
}

#[test]
fn logs_order_matches_string_order() {
    let raw = s(&["日志", "Zeta", "alpha", "Alpha", "é"]);
    let mut expected = raw.clone();
    expected.sort();
    expected.dedup();
    assert_eq!(get_logs(&raw, None), expected);
}

#[test]
fn start_timeout_is_logged_with_its_time() {
    assert_eq!(
        start_timeout_log_line("2024-01-01T12:00:00"),
        "[2024-01-01T12:00:00] 服务启动超时（15秒），请检查配置"
    );
}

#[test]
fn lines_left_out_come_before_those_shown() {
    let raw = s(&["d", "a", "c", "b", "a"]);
    let shown = get_logs(&raw, Some(2));
    assert_eq!(shown, s(&["c", "d"]));
    for x in ["a", "b"] {
        for y in &shown {
            assert!(x < y.as_str());
        }
    }
}
