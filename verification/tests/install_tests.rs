use claude_code_launch::install::{
    check_prereqs, classify_install_error, classify_verify_error, detect_claude_version, ensure_npm_available,
    format_output, install_start_event, registry_path_value, run_install, run_verify, setup_accepts_event,
    to_attempt, NpmSetupAction, NpmSetupEvent, NpmSetupState, VersionOutput,
};
use claude_code_launch::process_log::CommandRunResult;

fn run(success: bool, code: Option<i32>, out: &str, err: &str) -> CommandRunResult {
    CommandRunResult { success, exit_code: code, stdout: out.to_string(), stderr: err.to_string() }
}

#[test]
fn install_errors_are_classified() {
    assert_eq!(classify_install_error("命令执行超时(600s): npm".to_string()), "命令执行超时: 命令执行超时(600s): npm");
    assert_eq!(classify_install_error("启动命令失败: x".to_string()), "命令启动失败: 启动命令失败: x");
    assert_eq!(classify_install_error("other".to_string()), "other");
    assert_eq!(classify_verify_error("命令执行超时(30s)".to_string()), "执行超时: 命令执行超时(30s)");
    assert_eq!(classify_verify_error("启动命令失败: y".to_string()), "启动失败: 启动命令失败: y");
    assert_eq!(classify_verify_error("boom".to_string()), "执行异常: boom");
}

#[test]
fn attempts_record_runs() {
    let ok = to_attempt("npm", Ok(run(true, Some(0), "done", "")));
    assert!(ok.success && ok.error_summary.is_none());
    assert_eq!(ok.stdout, "done");
    let failed = to_attempt("npm", Ok(run(false, Some(-2), "", "e")));
    assert_eq!(failed.error_summary.as_deref(), Some("命令执行失败，退出码: -2"));
    let killed = to_attempt("npm", Ok(run(false, None, "", "")));
    assert_eq!(killed.error_summary.as_deref(), Some("命令执行失败，退出码: unknown"));
    let err = to_attempt("npm", Err("启动命令失败: nf".to_string()));
    assert!(!err.success && err.exit_code.is_none());
    assert_eq!(err.error_summary.as_deref(), Some("命令启动失败: 启动命令失败: nf"));
}

#[test]
fn install_results() {
    let ok = run_install(Some(Ok(run(true, Some(0), "", ""))));
    assert_eq!(ok.status, "success");
    assert_eq!(ok.selected_method.as_deref(), Some("npm"));
    assert_eq!(ok.summary, "已通过 npm 全局安装完成安装。");
    let no_npm = run_install(None);
    assert_eq!(no_npm.status, "failed");
    assert!(no_npm.selected_method.is_none());
    assert_eq!(no_npm.attempts[0].error_summary.as_deref(), Some("npm 不可用且 Node.js 自动安装失败"));
    assert_eq!(no_npm.summary, "npm 安装失败，请复制日志进行排查。");
    let failed = run_install(Some(Ok(run(false, Some(1), "", ""))));
    assert_eq!(failed.status, "failed");
    assert_eq!(failed.attempts.len(), 1);
    let start = install_start_event(5);
    assert_eq!(start.message, "开始安装策略: npm");
}

#[test]
fn verify_results() {
    let missing = run_verify("agent", None);
    assert!(!missing.success);
    assert_eq!(missing.error_summary.as_deref(), Some("未找到 agent 命令，请先完成安装并检查 PATH"));
    let ok = run_verify("agent", Some(Ok(run(true, Some(0), "1.0.0", ""))));
    assert!(ok.success);
    assert_eq!(ok.version_output, "1.0.0");
    assert!(ok.error_summary.is_none());
    let bad = run_verify("agent", Some(Ok(run(false, Some(3), "o", "e"))));
    assert_eq!(bad.version_output, "o\ne");
    assert_eq!(bad.error_summary.as_deref(), Some("agent --version 执行失败，退出码: 3"));
    let err = run_verify("agent", Some(Err("命令执行超时(30s): agent --version".to_string())));
    assert_eq!(err.error_summary.as_deref(), Some("agent --version 执行超时: 命令执行超时(30s): agent --version"));
    assert_eq!(format_output("a".to_string(), " ".to_string()), "a");
    assert_eq!(format_output("\n".to_string(), "b".to_string()), "b");
}

#[test]
fn version_detection_and_prereqs() {
    let v = |success: bool, out: &str, err: &str| VersionOutput { success, stdout: out.as_bytes().to_vec(), stderr: err.as_bytes().to_vec() };
    assert_eq!(detect_claude_version(Some(v(true, " 1.2.3\n", ""))), (true, Some("1.2.3".to_string())));
    assert_eq!(detect_claude_version(Some(v(true, "  ", ""))), (true, Some("已安装（无版本输出）".to_string())));
    assert_eq!(detect_claude_version(Some(v(false, "", "bad"))), (false, Some("版本检查失败: bad".to_string())));
    assert_eq!(detect_claude_version(Some(v(false, "", ""))), (false, None));
    assert_eq!(detect_claude_version(None), (false, None));
    let r = check_prereqs("windows".to_string(), true, None, false, true, "Agent");
    assert_eq!(r.items.len(), 2);
    assert_eq!(r.items[0].severity, "blocker");
    assert_eq!(r.items[1].message, "建议安装 Git for Windows，Agent 在 Windows 依赖 Git Bash");
    let r = check_prereqs("linux".to_string(), false, None, true, false, "Agent");
    assert_eq!(r.items.len(), 1);
    assert!(r.items[0].available);
}

#[test]
fn registry_path_values() {
    let out = "\r\nHKEY_LOCAL_MACHINE\\SYSTEM\\Environment\r\n    Path    REG_EXPAND_SZ    C:\\Windows;C:\\Tools\r\n\r\n";
    assert_eq!(registry_path_value(out).as_deref(), Some("C:\\Windows;C:\\Tools"));
    assert_eq!(registry_path_value("    Path    REG_SZ    C:\\B  \r\n").as_deref(), Some("C:\\B"));
    assert_eq!(registry_path_value("Path    REG_SZ    C:\\A").as_deref(), Some("C:\\A"));
    assert_eq!(registry_path_value("nothing here"), None);
}

fn step(state: NpmSetupState, event: NpmSetupEvent) -> (NpmSetupState, NpmSetupAction, Vec<(String, String)>) {
    assert!(setup_accepts_event(&state, &event));
    let s = ensure_npm_available(state, event, 9);
    let logs = s.logs.iter().map(|e| (e.level.clone(), e.message.clone())).collect();
    (s.state, s.action, logs)
}

#[test]
fn npm_present_goes_straight_to_the_mirror() {
    let (st, action, logs) = step(NpmSetupState::Start, NpmSetupEvent::Started { npm_on_path: true, is_windows: false });
    assert_eq!(logs[0].1, "npm 已存在，跳过 Node.js 安装");
    assert_eq!(logs[1].1, "设置 npm 镜像: https://registry.npmmirror.com");
    match action {
        NpmSetupAction::RunCommand { program, args, timeout_secs } => {
            assert_eq!(program, "npm");
            assert_eq!(args, vec!["config", "set", "registry", "https://registry.npmmirror.com"]);
            assert_eq!(timeout_secs, 30);
        }
        _ => panic!("mirror command expected"),
    }
    let (st, action, logs) = step(st, NpmSetupEvent::CommandFinished(Err("x".to_string())));
    assert_eq!(logs, vec![("warn".to_string(), "npm 镜像设置失败，将使用默认源".to_string())]);
    assert!(matches!(action, NpmSetupAction::Done(Some(ref n)) if n == "npm"));
    assert!(matches!(st, NpmSetupState::Finished(Some(_))));
}

#[test]
fn missing_npm_off_windows_ends_setup() {
    let (_, action, logs) = step(NpmSetupState::Start, NpmSetupEvent::Started { npm_on_path: false, is_windows: false });
    assert!(matches!(action, NpmSetupAction::Done(None)));
    assert_eq!(logs[0].0, "error");
}

#[test]
fn windows_installs_node_then_finds_npm() {
    let (st, action, _) = step(NpmSetupState::Start, NpmSetupEvent::Started { npm_on_path: false, is_windows: true });
    assert!(matches!(action, NpmSetupAction::PrepareInstaller));
    let (st, action, _) = step(st, NpmSetupEvent::InstallerReady(Ok("C:\\t\\node-setup.msi".to_string())));
    match action {
        NpmSetupAction::RunCommand { program, args, timeout_secs } => {
            assert_eq!(program, "msiexec");
            assert_eq!(args, vec!["/i", "C:\\t\\node-setup.msi", "/qn", "/norestart"]);
            assert_eq!(timeout_secs, 300);
        }
        _ => panic!("installer run expected"),
    }
    let (st, action, logs) = step(st, NpmSetupEvent::CommandFinished(Ok(run(true, Some(0), "", ""))));
    assert!(matches!(action, NpmSetupAction::QueryPath));
    assert_eq!(logs.len(), 2);
    let (st, action, logs) = step(st, NpmSetupEvent::PathQueried { registry_output: None, current_path: "C:\\x".to_string() });
    assert!(matches!(action, NpmSetupAction::ResolveNpm { ref path } if path == "C:\\Program Files\\nodejs;C:\\x"));
    assert_eq!(logs[0].0, "warn");
    let (st, action, logs) = step(st, NpmSetupEvent::NpmLookedUp { on_path: false, default_cmd_exists: true });
    assert_eq!(logs[0].1, "npm 已就绪: C:\\Program Files\\nodejs\\npm.cmd");
    assert!(matches!(action, NpmSetupAction::RunCommand { .. }));
    let (st, action, logs) = step(st, NpmSetupEvent::CommandFinished(Ok(run(true, Some(0), "", ""))));
    assert_eq!(logs[0].1, "npm 镜像设置成功");
    assert!(matches!(action, NpmSetupAction::Done(Some(ref n)) if n == "C:\\Program Files\\nodejs\\npm.cmd"));
    assert!(matches!(st, NpmSetupState::Finished(_)));
}

#[test]
fn installer_failures_end_setup() {
    let (_, action, logs) = step(NpmSetupState::PreparingInstaller, NpmSetupEvent::InstallerReady(Err("HTTP 状态码: 404".to_string())));
    assert!(matches!(action, NpmSetupAction::Done(None)));
    assert_eq!(logs[0].1, "Node.js 安装失败: HTTP 状态码: 404");
    let long = "e".repeat(600);
    let (_, _, logs) = step(NpmSetupState::RunningInstaller, NpmSetupEvent::CommandFinished(Ok(run(false, Some(1603), "", &long))));
    assert_eq!(logs[0].1, format!("Node.js 安装失败: msiexec 退出码: 1603，stderr: {}", "e".repeat(500)));
    let (_, action, logs) = step(NpmSetupState::ResolvingNpm, NpmSetupEvent::NpmLookedUp { on_path: false, default_cmd_exists: false });
    assert!(matches!(action, NpmSetupAction::Done(None)));
    assert_eq!(logs[0].1, "Node.js 安装完成但未找到 npm，请检查安装路径");
    let (_, action, logs) = step(
        NpmSetupState::RefreshingPath,
        NpmSetupEvent::PathQueried {
            registry_output: Some("    Path    REG_SZ    C:\\Sys\r\n".to_string()),
            current_path: "C:\\Cur".to_string(),
        },
    );
    assert!(matches!(action, NpmSetupAction::ResolveNpm { ref path } if path == "C:\\Sys;C:\\Cur"));
    assert_eq!(logs[0].1, "PATH 已刷新");
    assert!(!setup_accepts_event(&NpmSetupState::Start, &NpmSetupEvent::PathQueried { registry_output: None, current_path: String::new() }));
}
