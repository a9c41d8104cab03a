//! Installing and checking the coding agent's command: the prerequisite report, the npm
//! installation attempt and its result, and the verification of the
//! installed command. The commands themselves run outside; these functions
//! decide what their outcomes mean.
use vstd::prelude::*;
use crate::process_log::{CommandRunResult, LogEvent};
use crate::text::{
    contains, contains_str, is_blank, is_blank_str, push_signed_decimal, push_str, signed_decimal,
    string_from_chars, trim, trim_str,
};
use crate::transcript::{utf8_lossy, utf8_lossy_string};
use crate::text::{text_lines, chars_of};
use crate::path_env::{reg_value, registry_value};

verus! {

broadcast use vstd::string::group_string_axioms;

/// One prerequisite of the installation.
#[derive(Debug)]
pub struct PrereqItem {
    pub name: String,
    pub available: bool,
    pub severity: String,
    pub message: String,
}

/// The prerequisites found on this machine.
#[derive(Debug)]
pub struct PrereqResult {
    pub platform: String,
    pub claude_installed: bool,
    pub claude_version: Option<String>,
    pub items: Vec<PrereqItem>,
}

/// One way of installing that was tried.
#[derive(Debug)]
pub struct InstallAttempt {
    pub method: String,
    pub success: bool,
    pub exit_code: Option<i32>,
    pub stdout: String,
    pub stderr: String,
    pub error_summary: Option<String>,
}

/// The outcome of an installation.
#[derive(Debug)]
pub struct InstallResult {
    pub status: String,
    pub selected_method: Option<String>,
    pub summary: String,
    pub attempts: Vec<InstallAttempt>,
}

/// The outcome of checking the installed command.
#[derive(Debug)]
pub struct VerifyResult {
    pub success: bool,
    pub version_output: String,
    pub doctor_output: String,
    pub error_summary: Option<String>,
}

/// The views of an optional string.
pub open spec fn opt_text(s: Option<String>) -> Option<Seq<char>> {
    match s {
        Some(x) => Some(x@),
        None => None,
    }
}

// ---------------------------------------------------------------------
// Installation
// ---------------------------------------------------------------------

/// The exit code as printed in messages, `unknown` when there is none.
pub open spec fn exit_code_text(code: Option<i32>) -> Seq<char> {
    match code {
        Some(c) => signed_decimal(c as int),
        None => "unknown"@,
    }
}

fn push_exit_code(v: &mut Vec<char>, code: Option<i32>)
    ensures
        final(v)@ == old(v)@ + exit_code_text(code),
{
    match code {
        Some(c) => push_signed_decimal(v, c as i64),
        None => push_str(v, "unknown"),
    }
}

/// The summary of a command that could not run: timeouts and failed starts
/// are named as such, other errors are kept as they are.
pub open spec fn install_error_summary(err: Seq<char>) -> Seq<char> {
    if contains(err, "命令执行超时"@) {
        "命令执行超时: "@ + err
    } else if contains(err, "启动命令失败"@) {
        "命令启动失败: "@ + err
    } else {
        err
    }
}

/// Classifies the error of an installation command.
pub fn classify_install_error(err: String) -> (r: String)
    ensures
        r@ == install_error_summary(err@),
{
    if contains_str(err.as_str(), "命令执行超时") {
        let mut v: Vec<char> = Vec::new();
        push_str(&mut v, "命令执行超时: ");
        push_str(&mut v, err.as_str());
        string_from_chars(&v)
    } else if contains_str(err.as_str(), "启动命令失败") {
        let mut v: Vec<char> = Vec::new();
        push_str(&mut v, "命令启动失败: ");
        push_str(&mut v, err.as_str());
        string_from_chars(&v)
    } else {
        err
    }
}

/// `a` records what running an installation command by `method` gave:
/// the run's status and output, with a summary of a failed exit; or, when
/// the command could not run, no output and the classified error.
pub open spec fn is_attempt_of(a: InstallAttempt, method: Seq<char>, result: Result<CommandRunResult, String>) -> bool {
    &&& a.method@ == method
    &&& match result {
        Ok(run) => {
            &&& a.success == run.success
            &&& a.exit_code == run.exit_code
            &&& a.stdout@ == run.stdout@
            &&& a.stderr@ == run.stderr@
            &&& opt_text(a.error_summary) == if run.success {
                None
            } else {
                Some("命令执行失败，退出码: "@ + exit_code_text(run.exit_code))
            }
        },
        Err(e) => {
            &&& !a.success
            &&& a.exit_code is None
            &&& a.stdout@.len() == 0
            &&& a.stderr@.len() == 0
            &&& opt_text(a.error_summary) == Some(install_error_summary(e@))
        },
    }
}

/// The attempt recorded for running an installation command by `method`.
pub fn to_attempt(method: &str, result: Result<CommandRunResult, String>) -> (a: InstallAttempt)
    ensures
        is_attempt_of(a, method@, result),
{
    match result {
        Ok(run) => {
            let summary = if run.success {
                None
            } else {
                let mut v: Vec<char> = Vec::new();
                push_str(&mut v, "命令执行失败，退出码: ");
                push_exit_code(&mut v, run.exit_code);
                Some(string_from_chars(&v))
            };
            InstallAttempt {
                method: method.to_string(),
                success: run.success,
                exit_code: run.exit_code,
                stdout: run.stdout,
                stderr: run.stderr,
                error_summary: summary,
            }
        }
        Err(err) => InstallAttempt {
            method: method.to_string(),
            success: false,
            exit_code: None,
            stdout: String::new(),
            stderr: String::new(),
            error_summary: Some(classify_install_error(err)),
        },
    }
}

/// How long the npm installation may run, in seconds.
pub const NPM_INSTALL_TIMEOUT_SECS: u64 = 600;

/// The event announcing the installation strategy.
pub fn install_start_event(timestamp: u64) -> (e: LogEvent)
    ensures
        e.step@ == "install"@,
        e.level@ == "info"@,
        e.message@ == "开始安装策略: npm"@,
        e.raw is None,
        e.timestamp == timestamp,
{
    LogEvent {
        step: "install".to_string(),
        level: "info".to_string(),
        message: "开始安装策略: npm".to_string(),
        raw: None,
        timestamp,
    }
}

/// The result of installing the agent with npm. `npm_run` is `None` when
/// npm could not be made available; otherwise it is what running
/// `npm install -g <package>` gave.
pub fn run_install(npm_run: Option<Result<CommandRunResult, String>>) -> (r: InstallResult)
    ensures
        r.attempts@.len() == 1,
        match npm_run {
            None => {
                &&& r.attempts@[0].method@ == "npm"@
                &&& !r.attempts@[0].success
                &&& r.attempts@[0].exit_code is None
                &&& r.attempts@[0].stdout@.len() == 0
                &&& r.attempts@[0].stderr@.len() == 0
                &&& opt_text(r.attempts@[0].error_summary) == Some("npm 不可用且 Node.js 自动安装失败"@)
            },
            Some(result) => is_attempt_of(r.attempts@[0], "npm"@, result),
        },
        r.attempts@[0].success ==> {
            &&& r.status@ == "success"@
            &&& opt_text(r.selected_method) == Some("npm"@)
            &&& r.summary@ == "已通过 npm 全局安装完成安装。"@
        },
        !r.attempts@[0].success ==> {
            &&& r.status@ == "failed"@
            &&& r.selected_method is None
            &&& r.summary@ == "npm 安装失败，请复制日志进行排查。"@
        },
{
    let mut attempts: Vec<InstallAttempt> = Vec::new();
    match npm_run {
        Some(result) => {
            let attempt = to_attempt("npm", result);
            let success = attempt.success;
            attempts.push(attempt);
            if success {
                return InstallResult {
                    status: "success".to_string(),
                    selected_method: Some("npm".to_string()),
                    summary: "已通过 npm 全局安装完成安装。".to_string(),
                    attempts,
                };
            }
        }
        None => {
            attempts.push(InstallAttempt {
                method: "npm".to_string(),
                success: false,
                exit_code: None,
                stdout: String::new(),
                stderr: String::new(),
                error_summary: Some("npm 不可用且 Node.js 自动安装失败".to_string()),
            });
        }
    }
    InstallResult {
        status: "failed".to_string(),
        selected_method: None,
        summary: "npm 安装失败，请复制日志进行排查。".to_string(),
        attempts,
    }
}

// ---------------------------------------------------------------------
// Verification
// ---------------------------------------------------------------------

/// The output shown for a command: standard output, standard error, or
/// both separated by a newline when both hold more than white space.
pub open spec fn combined_output(stdout: Seq<char>, stderr: Seq<char>) -> Seq<char> {
    if is_blank(stderr) {
        stdout
    } else if is_blank(stdout) {
        stderr
    } else {
        stdout + "\n"@ + stderr
    }
}

/// Combines the output streams of a command.
pub fn format_output(stdout: String, stderr: String) -> (r: String)
    ensures
        r@ == combined_output(stdout@, stderr@),
{
    if is_blank_str(stderr.as_str()) {
        stdout
    } else if is_blank_str(stdout.as_str()) {
        stderr
    } else {
        let mut v: Vec<char> = Vec::new();
        push_str(&mut v, stdout.as_str());
        push_str(&mut v, "\n");
        push_str(&mut v, stderr.as_str());
        string_from_chars(&v)
    }
}

/// The summary of a verification command that could not run.
pub open spec fn verify_error_summary(err: Seq<char>) -> Seq<char> {
    if contains(err, "命令执行超时"@) {
        "执行超时: "@ + err
    } else if contains(err, "启动命令失败"@) {
        "启动失败: "@ + err
    } else {
        "执行异常: "@ + err
    }
}

/// Classifies the error of a verification command.
pub fn classify_verify_error(err: String) -> (r: String)
    ensures
        r@ == verify_error_summary(err@),
{
    let mut v: Vec<char> = Vec::new();
    if contains_str(err.as_str(), "命令执行超时") {
        push_str(&mut v, "执行超时: ");
    } else if contains_str(err.as_str(), "启动命令失败") {
        push_str(&mut v, "启动失败: ");
    } else {
        push_str(&mut v, "执行异常: ");
    }
    push_str(&mut v, err.as_str());
    string_from_chars(&v)
}

/// How long `<command> --version` may run, in seconds.
pub const VERSION_CHECK_TIMEOUT_SECS: u64 = 30;

/// The result of checking the installed `command`. `version_run` is `None`
/// when the command is not found; otherwise it is what running
/// `<command> --version` gave.
pub fn run_verify(command: &str, version_run: Option<Result<CommandRunResult, String>>) -> (r: VerifyResult)
    ensures
        r.doctor_output@.len() == 0,
        match version_run {
            None => {
                &&& !r.success
                &&& r.version_output@.len() == 0
                &&& opt_text(r.error_summary) == Some("未找到 "@ + command@ + " 命令，请先完成安装并检查 PATH"@)
            },
            Some(Ok(run)) => {
                &&& r.success == run.success
                &&& r.version_output@ == combined_output(run.stdout@, run.stderr@)
                &&& opt_text(r.error_summary) == if run.success {
                    None
                } else {
                    Some(command@ + " --version 执行失败，退出码: "@ + exit_code_text(run.exit_code))
                }
            },
            Some(Err(e)) => {
                &&& !r.success
                &&& r.version_output@.len() == 0
                &&& opt_text(r.error_summary) == Some(command@ + " --version "@ + verify_error_summary(e@))
            },
        },
{
    match version_run {
        None => {
            let mut v: Vec<char> = Vec::new();
            push_str(&mut v, "未找到 ");
            push_str(&mut v, command);
            push_str(&mut v, " 命令，请先完成安装并检查 PATH");
            VerifyResult {
                success: false,
                version_output: String::new(),
                doctor_output: String::new(),
                error_summary: Some(string_from_chars(&v)),
            }
        }
        Some(Ok(run)) => {
            let error_summary = if run.success {
                None
            } else {
                let mut v: Vec<char> = Vec::new();
                push_str(&mut v, command);
                push_str(&mut v, " --version 执行失败，退出码: ");
                push_exit_code(&mut v, run.exit_code);
                Some(string_from_chars(&v))
            };
            VerifyResult {
                success: run.success,
                version_output: format_output(run.stdout, run.stderr),
                doctor_output: String::new(),
                error_summary,
            }
        }
        Some(Err(e)) => {
            let classified = classify_verify_error(e);
            let mut v: Vec<char> = Vec::new();
            push_str(&mut v, command);
            push_str(&mut v, " --version ");
            push_str(&mut v, classified.as_str());
            VerifyResult {
                success: false,
                version_output: String::new(),
                doctor_output: String::new(),
                error_summary: Some(string_from_chars(&v)),
            }
        }
    }
}

// ---------------------------------------------------------------------
// Prerequisites
// ---------------------------------------------------------------------

/// What running the agent's `--version` printed, when it ran.
#[derive(Debug)]
pub struct VersionOutput {
    pub success: bool,
    pub stdout: Vec<u8>,
    pub stderr: Vec<u8>,
}

/// Whether the agent is installed, and the version text shown for it.
pub open spec fn claude_version_model(output: Option<VersionOutput>) -> (bool, Option<Seq<char>>) {
    match output {
        None => (false, None),
        Some(o) => if o.success {
            let out = trim(utf8_lossy(o.stdout@));
            if out.len() == 0 { (true, Some("已安装（无版本输出）"@)) } else { (true, Some(out)) }
        } else {
            let err = trim(utf8_lossy(o.stderr@));
            if err.len() == 0 { (false, None) } else { (false, Some("版本检查失败: "@ + err)) }
        },
    }
}

/// Interprets the run of the agent's `--version` (`None` when it could not run).
pub fn detect_claude_version(output: Option<VersionOutput>) -> (r: (bool, Option<String>))
    ensures
        (r.0, opt_text(r.1)) == claude_version_model(output),
{
    match output {
        None => (false, None),
        Some(o) => {
            if o.success {
                let text = utf8_lossy_string(o.stdout.as_slice());
                let out = trim_str(text.as_str());
                if out.as_str().is_empty() {
                    (true, Some("已安装（无版本输出）".to_string()))
                } else {
                    (true, Some(out))
                }
            } else {
                let text = utf8_lossy_string(o.stderr.as_slice());
                let err = trim_str(text.as_str());
                if err.as_str().is_empty() {
                    (false, None)
                } else {
                    let mut v: Vec<char> = Vec::new();
                    push_str(&mut v, "版本检查失败: ");
                    push_str(&mut v, err.as_str());
                    (false, Some(string_from_chars(&v)))
                }
            }
        }
    }
}

/// The prerequisite report: npm is a blocker everywhere; on Windows Git is
/// recommended too, since `product` needs Git Bash there.
pub fn check_prereqs(
    platform: String,
    is_windows: bool,
    version: Option<VersionOutput>,
    npm_available: bool,
    git_available: bool,
    product: &str,
) -> (r: PrereqResult)
    ensures
        r.platform@ == platform@,
        (r.claude_installed, opt_text(r.claude_version)) == claude_version_model(version),
        r.items@.len() == if is_windows { 2int } else { 1int },
        r.items@[0].name@ == "npm"@,
        r.items@[0].available == npm_available,
        r.items@[0].severity@ == "blocker"@,
        r.items@[0].message@ == if is_windows {
            "需要可用的 npm 以执行全局安装（不可用时将自动安装 Node.js）"@
        } else {
            "需要可用的 npm 以执行全局安装，请先安装 Node.js"@
        },
        is_windows ==> {
            &&& r.items@[1].name@ == "git_for_windows"@
            &&& r.items@[1].available == git_available
            &&& r.items@[1].severity@ == "warning"@
            &&& r.items@[1].message@ == "建议安装 Git for Windows，"@ + product@ + " 在 Windows 依赖 Git Bash"@
        },
{
    let (claude_installed, claude_version) = detect_claude_version(version);
    let mut items: Vec<PrereqItem> = Vec::new();
    items.push(PrereqItem {
        name: "npm".to_string(),
        available: npm_available,
        severity: "blocker".to_string(),
        message: if is_windows {
            "需要可用的 npm 以执行全局安装（不可用时将自动安装 Node.js）".to_string()
        } else {
            "需要可用的 npm 以执行全局安装，请先安装 Node.js".to_string()
        },
    });
    if is_windows {
        let mut m: Vec<char> = Vec::new();
        push_str(&mut m, "建议安装 Git for Windows，");
        push_str(&mut m, product);
        push_str(&mut m, " 在 Windows 依赖 Git Bash");
        items.push(PrereqItem {
            name: "git_for_windows".to_string(),
            available: git_available,
            severity: "warning".to_string(),
            message: string_from_chars(&m),
        });
    }
    PrereqResult { platform, claude_installed, claude_version, items }
}

// ---------------------------------------------------------------------
// Making npm available
// ---------------------------------------------------------------------

/// The npm registry mirror configured after setup.
pub open spec fn npm_mirror() -> Seq<char> {
    "https://registry.npmmirror.com"@
}

/// Where the Node.js installer puts Node.js on Windows.
pub open spec fn nodejs_default_dir() -> Seq<char> {
    "C:\\Program Files\\nodejs"@
}

/// The npm command of a default Node.js installation on Windows.
pub open spec fn nodejs_default_npm() -> Seq<char> {
    "C:\\Program Files\\nodejs\\npm.cmd"@
}

/// Where the Node.js installer comes from.
pub fn node_msi_url() -> (r: &'static str)
    ensures
        r@ == "https://nodejs.org/dist/v22.14.0/node-v22.14.0-x64.msi"@,
{
    "https://nodejs.org/dist/v22.14.0/node-v22.14.0-x64.msi"
}

/// The system `PATH` that `reg query ... /v Path` printed: the value of its
/// first line that names a string type (`REG_SZ`, else `REG_EXPAND_SZ`),
/// that is the text after the type and the following four spaces, trimmed,
/// when not empty.
pub open spec fn registry_path(output: Seq<char>) -> Option<Seq<char>> {
    reg_value(text_lines(output))
}

/// Reads the `Path` value out of the output of `reg query`.
pub fn registry_path_value(output: &str) -> (r: Option<String>)
    ensures
        opt_text(r) == registry_path(output@),
{
    match registry_value(output) {
        Some(v) => Some(string_from_chars(&v)),
        None => None,
    }
}

/// Where the setup of npm stands.
#[derive(Debug)]
pub enum NpmSetupState {
    /// Nothing checked yet.
    Start,
    /// The Node.js installer is being downloaded.
    PreparingInstaller,
    /// The Node.js installer runs.
    RunningInstaller,
    /// The system `PATH` is being read.
    RefreshingPath,
    /// npm is being looked for with the new `PATH`.
    ResolvingNpm,
    /// The registry mirror is being configured for this npm command.
    SettingMirror(String),
    /// Setup is over, with the npm command to use if any.
    Finished(Option<String>),
}

/// What the outside work reported.
#[derive(Debug)]
pub enum NpmSetupEvent {
    /// Whether `npm` is on the `PATH`, and whether this is Windows.
    Started { npm_on_path: bool, is_windows: bool },
    /// The installer was downloaded to this path, or why it was not.
    InstallerReady(Result<String, String>),
    /// The requested command finished.
    CommandFinished(Result<CommandRunResult, String>),
    /// What `reg query` printed (if it ran) and the current `PATH`.
    PathQueried { registry_output: Option<String>, current_path: String },
    /// Whether `npm` is now on the `PATH`, and whether the default `npm.cmd` exists.
    NpmLookedUp { on_path: bool, default_cmd_exists: bool },
}

/// What to do next.
#[derive(Debug)]
pub enum NpmSetupAction {
    /// Create a temporary directory and download the installer into it.
    PrepareInstaller,
    /// Run a command with a timeout.
    RunCommand { program: String, args: Vec<String>, timeout_secs: u64 },
    /// Read the system `PATH` from the registry and the current `PATH`.
    QueryPath,
    /// Set the process `PATH` to `path`, then look for npm.
    ResolveNpm { path: String },
    /// Setup is over: the npm command to use, if any.
    Done(Option<String>),
}

/// One step of the setup: the new state, the next action, and the log
/// events to show.
#[derive(Debug)]
pub struct NpmSetupStep {
    pub state: NpmSetupState,
    pub action: NpmSetupAction,
    pub logs: Vec<LogEvent>,
}

/// The model of a setup state.
pub enum SetupStage {
    Start,
    PreparingInstaller,
    RunningInstaller,
    RefreshingPath,
    ResolvingNpm,
    SettingMirror(Seq<char>),
    Finished(Option<Seq<char>>),
}

/// The model of a setup action.
pub enum SetupOrder {
    PrepareInstaller,
    RunCommand(Seq<char>, Seq<Seq<char>>, u64),
    QueryPath,
    ResolveNpm(Seq<char>),
    Done(Option<Seq<char>>),
}

impl View for NpmSetupState {
    type V = SetupStage;

    open spec fn view(&self) -> SetupStage {
        match self {
            NpmSetupState::Start => SetupStage::Start,
            NpmSetupState::PreparingInstaller => SetupStage::PreparingInstaller,
            NpmSetupState::RunningInstaller => SetupStage::RunningInstaller,
            NpmSetupState::RefreshingPath => SetupStage::RefreshingPath,
            NpmSetupState::ResolvingNpm => SetupStage::ResolvingNpm,
            NpmSetupState::SettingMirror(npm) => SetupStage::SettingMirror(npm@),
            NpmSetupState::Finished(npm) => SetupStage::Finished(opt_text(*npm)),
        }
    }
}

impl View for NpmSetupAction {
    type V = SetupOrder;

    open spec fn view(&self) -> SetupOrder {
        match self {
            NpmSetupAction::PrepareInstaller => SetupOrder::PrepareInstaller,
            NpmSetupAction::RunCommand { program, args, timeout_secs } => SetupOrder::RunCommand(
                program@,
                Seq::new(args@.len(), |i: int| args@[i]@),
                *timeout_secs,
            ),
            NpmSetupAction::QueryPath => SetupOrder::QueryPath,
            NpmSetupAction::ResolveNpm { path } => SetupOrder::ResolveNpm(path@),
            NpmSetupAction::Done(npm) => SetupOrder::Done(opt_text(*npm)),
        }
    }
}

/// The event fits the state: it reports the work the state waits for.
pub open spec fn setup_accepts(stage: SetupStage, event: NpmSetupEvent) -> bool {
    match (stage, event) {
        (SetupStage::Start, NpmSetupEvent::Started { .. }) => true,
        (SetupStage::PreparingInstaller, NpmSetupEvent::InstallerReady(_)) => true,
        (SetupStage::RunningInstaller, NpmSetupEvent::CommandFinished(_)) => true,
        (SetupStage::RefreshingPath, NpmSetupEvent::PathQueried { .. }) => true,
        (SetupStage::ResolvingNpm, NpmSetupEvent::NpmLookedUp { .. }) => true,
        (SetupStage::SettingMirror(_), NpmSetupEvent::CommandFinished(_)) => true,
        _ => false,
    }
}

/// The command that sets the registry mirror.
pub open spec fn mirror_command(npm: Seq<char>) -> SetupOrder {
    SetupOrder::RunCommand(npm, seq!["config"@, "set"@, "registry"@, npm_mirror()], 30)
}

/// The log line announcing the mirror.
pub open spec fn mirror_log() -> (Seq<char>, Seq<char>) {
    ("info"@, "设置 npm 镜像: "@ + npm_mirror())
}

/// The first `n` characters of `s` (all of them when it is shorter).
pub open spec fn take_chars(s: Seq<char>, n: int) -> Seq<char> {
    if s.len() <= n { s } else { s.take(n) }
}

/// Why the Node.js installer failed, from its finished run.
pub open spec fn msi_failure(run: CommandRunResult) -> Seq<char> {
    "msiexec 退出码: "@ + exit_code_text(run.exit_code) + "，stderr: "@ + take_chars(run.stderr@, 500)
}

/// The new `PATH` after Node.js was installed, and its log line: the
/// system `PATH` from the registry before the current one, or else the
/// default Node.js directory.
pub open spec fn refreshed_path(registry_output: Option<String>, current: Seq<char>) -> (Seq<char>, (Seq<char>, Seq<char>)) {
    let found = match registry_output {
        Some(out) => registry_path(out@),
        None => None,
    };
    match found {
        Some(sys) => (sys + ";"@ + current, ("info"@, "PATH 已刷新"@)),
        None => (
            nodejs_default_dir() + ";"@ + current,
            ("warn"@, "注册表读取失败，已将 "@ + nodejs_default_dir() + " 追加到 PATH"@),
        ),
    }
}

/// One step of making npm available: from the stage and what the outside
/// work reported, the next stage, the next action, and the (level, message)
/// lines to log.
pub open spec fn setup_transition(stage: SetupStage, event: NpmSetupEvent) -> (SetupStage, SetupOrder, Seq<(Seq<char>, Seq<char>)>) {
    match event {
        NpmSetupEvent::Started { npm_on_path, is_windows } => if npm_on_path {
            (
                SetupStage::SettingMirror("npm"@),
                mirror_command("npm"@),
                seq![("info"@, "npm 已存在，跳过 Node.js 安装"@), mirror_log()],
            )
        } else if !is_windows {
            (
                SetupStage::Finished(None),
                SetupOrder::Done(None),
                seq![("error"@, "未检测到 npm，请先手动安装 Node.js（https://nodejs.org）"@)],
            )
        } else {
            (
                SetupStage::PreparingInstaller,
                SetupOrder::PrepareInstaller,
                seq![("info"@, "未检测到 npm，开始自动安装 Node.js ..."@)],
            )
        },
        NpmSetupEvent::InstallerReady(ready) => match ready {
            Err(e) => (
                SetupStage::Finished(None),
                SetupOrder::Done(None),
                seq![("error"@, "Node.js 安装失败: "@ + e@)],
            ),
            Ok(msi) => (
                SetupStage::RunningInstaller,
                SetupOrder::RunCommand("msiexec"@, seq!["/i"@, msi@, "/qn"@, "/norestart"@], 300),
                seq![("info"@, "开始静默安装 Node.js（msiexec /i ... /qn）..."@)],
            ),
        },
        NpmSetupEvent::CommandFinished(result) => match stage {
            SetupStage::SettingMirror(npm) => (
                SetupStage::Finished(Some(npm)),
                SetupOrder::Done(Some(npm)),
                if result matches Ok(run) && run.success {
                    seq![("info"@, "npm 镜像设置成功"@)]
                } else {
                    seq![("warn"@, "npm 镜像设置失败，将使用默认源"@)]
                },
            ),
            _ => match result {
                Ok(run) => if run.success {
                    (
                        SetupStage::RefreshingPath,
                        SetupOrder::QueryPath,
                        seq![("info"@, "Node.js MSI 安装完成"@), ("info"@, "刷新 PATH 环境变量 ..."@)],
                    )
                } else {
                    (
                        SetupStage::Finished(None),
                        SetupOrder::Done(None),
                        seq![("error"@, "Node.js 安装失败: "@ + msi_failure(run))],
                    )
                },
                Err(e) => (
                    SetupStage::Finished(None),
                    SetupOrder::Done(None),
                    seq![("error"@, "Node.js 安装失败: "@ + e@)],
                ),
            },
        },
        NpmSetupEvent::PathQueried { registry_output, current_path } => {
            let (path, line) = refreshed_path(registry_output, current_path@);
            (SetupStage::ResolvingNpm, SetupOrder::ResolveNpm(path), seq![line])
        },
        NpmSetupEvent::NpmLookedUp { on_path, default_cmd_exists } => {
            if on_path || default_cmd_exists {
                let npm = if on_path { "npm"@ } else { nodejs_default_npm() };
                (
                    SetupStage::SettingMirror(npm),
                    mirror_command(npm),
                    seq![("info"@, "npm 已就绪: "@ + npm), mirror_log()],
                )
            } else {
                (
                    SetupStage::Finished(None),
                    SetupOrder::Done(None),
                    seq![("error"@, "Node.js 安装完成但未找到 npm，请检查安装路径"@)],
                )
            }
        },
    }
}

/// The mirror command as run: `<npm> config set registry https://registry.npmmirror.com`, 30 s.
proof fn lemma_mirror_command_text(npm: Seq<char>)
    ensures
        mirror_command(npm) == SetupOrder::RunCommand(
            npm,
            seq!["config"@, "set"@, "registry"@, "https://registry.npmmirror.com"@],
            30,
        ),
{
}

/// Law: npm already on the `PATH` is used as it is, on every platform: the
/// setup goes straight to configuring its registry mirror and never installs
/// Node.js. Without npm, only Windows downloads the Node.js installer;
/// elsewhere the setup ends at once with no npm.
pub proof fn lemma_setup_starts_from_npm(npm_on_path: bool, is_windows: bool)
    ensures
        npm_on_path ==> setup_transition(SetupStage::Start, NpmSetupEvent::Started { npm_on_path, is_windows }) == (
            SetupStage::SettingMirror("npm"@),
            SetupOrder::RunCommand("npm"@, seq!["config"@, "set"@, "registry"@, "https://registry.npmmirror.com"@], 30),
            seq![("info"@, "npm 已存在，跳过 Node.js 安装"@), ("info"@, "设置 npm 镜像: https://registry.npmmirror.com"@)],
        ),
        !npm_on_path && is_windows ==> {
            &&& setup_transition(SetupStage::Start, NpmSetupEvent::Started { npm_on_path, is_windows }).0 == SetupStage::PreparingInstaller
            &&& setup_transition(SetupStage::Start, NpmSetupEvent::Started { npm_on_path, is_windows }).1 == SetupOrder::PrepareInstaller
        },
        !npm_on_path && !is_windows ==> {
            &&& setup_transition(SetupStage::Start, NpmSetupEvent::Started { npm_on_path, is_windows }).0 == SetupStage::Finished(None)
            &&& setup_transition(SetupStage::Start, NpmSetupEvent::Started { npm_on_path, is_windows }).1 == SetupOrder::Done(None)
        },
{
    lemma_mirror_command_text("npm"@);
    reveal_strlit("设置 npm 镜像: ");
    reveal_strlit("https://registry.npmmirror.com");
    reveal_strlit("设置 npm 镜像: https://registry.npmmirror.com");
    assert("设置 npm 镜像: "@ + "https://registry.npmmirror.com"@ =~= "设置 npm 镜像: https://registry.npmmirror.com"@);
}

/// Law: whichever npm is found after Node.js was installed gets the mirror
/// configured (`npm` on the `PATH` first, else the default `npm.cmd`), and
/// once the mirror command finished, successfully or not, the setup ends with
/// that npm.
pub proof fn lemma_setup_keeps_found_npm(on_path: bool, default_cmd_exists: bool, npm: Seq<char>, result: Result<CommandRunResult, String>)
    ensures
        on_path ==> setup_transition(SetupStage::ResolvingNpm, NpmSetupEvent::NpmLookedUp { on_path, default_cmd_exists }).1
            == SetupOrder::RunCommand("npm"@, seq!["config"@, "set"@, "registry"@, "https://registry.npmmirror.com"@], 30),
        !on_path && default_cmd_exists ==> setup_transition(SetupStage::ResolvingNpm, NpmSetupEvent::NpmLookedUp { on_path, default_cmd_exists }).0
            == SetupStage::SettingMirror("C:\\Program Files\\nodejs\\npm.cmd"@),
        !on_path && !default_cmd_exists ==> setup_transition(SetupStage::ResolvingNpm, NpmSetupEvent::NpmLookedUp { on_path, default_cmd_exists }).1
            == SetupOrder::Done(None),
        setup_transition(SetupStage::SettingMirror(npm), NpmSetupEvent::CommandFinished(result)).1 == SetupOrder::Done(Some(npm)),
{
    lemma_mirror_command_text("npm"@);
}

/// Law: on Windows without npm, the downloaded installer is run silently
/// (`msiexec /i <installer> /qn /norestart`, 5 min); a failed download or
/// installation ends the setup with no npm; a successful installation goes
/// on to refresh the `PATH`, which becomes the registry's system `PATH`
/// followed by the current one (the default Node.js directory when the
/// registry gives none), before npm is looked for again.
pub proof fn lemma_setup_installs_node(
    ready: Result<String, String>,
    msi: String,
    result: Result<CommandRunResult, String>,
    registry_output: Option<String>,
    current_path: String,
    sys: Seq<char>,
)
    ensures
        ready == Ok::<String, String>(msi) ==> setup_transition(SetupStage::PreparingInstaller, NpmSetupEvent::InstallerReady(ready)).1
            == SetupOrder::RunCommand("msiexec"@, seq!["/i"@, msi@, "/qn"@, "/norestart"@], 300),
        ready is Err ==> setup_transition(SetupStage::PreparingInstaller, NpmSetupEvent::InstallerReady(ready)).1 == SetupOrder::Done(None),
        (result matches Ok(run) && run.success) ==> setup_transition(SetupStage::RunningInstaller, NpmSetupEvent::CommandFinished(result)).1
            == SetupOrder::QueryPath,
        !(result matches Ok(run) && run.success) ==> setup_transition(SetupStage::RunningInstaller, NpmSetupEvent::CommandFinished(result)).1
            == SetupOrder::Done(None),
        (registry_output matches Some(out) && registry_path(out@) == Some(sys)) ==> setup_transition(
            SetupStage::RefreshingPath,
            NpmSetupEvent::PathQueried { registry_output, current_path },
        ).1 == SetupOrder::ResolveNpm(sys + ";"@ + current_path@),
        (registry_output is None || (registry_output matches Some(out) && registry_path(out@) is None)) ==> setup_transition(
            SetupStage::RefreshingPath,
            NpmSetupEvent::PathQueried { registry_output, current_path },
        ).1 == SetupOrder::ResolveNpm("C:\\Program Files\\nodejs;"@ + current_path@),
{
    reveal_strlit("C:\\Program Files\\nodejs");
    reveal_strlit(";");
    reveal_strlit("C:\\Program Files\\nodejs;");
    assert(nodejs_default_dir() + ";"@ =~= "C:\\Program Files\\nodejs;"@);
}

/// The (level, message) lines of log events.
pub open spec fn log_lines(logs: Seq<LogEvent>) -> Seq<(Seq<char>, Seq<char>)> {
    Seq::new(logs.len(), |i: int| (logs[i].level@, logs[i].message@))
}

/// Every event belongs to the install step, carries no raw text, and has this timestamp.
pub open spec fn install_logs(logs: Seq<LogEvent>, timestamp: u64) -> bool {
    forall|i: int| 0 <= i < logs.len() ==> {
        &&& (#[trigger] logs[i]).step@ == "install"@
        &&& logs[i].raw is None
        &&& logs[i].timestamp == timestamp
    }
}

fn install_log(level: &str, message: String, timestamp: u64) -> (e: LogEvent)
    ensures
        e.step@ == "install"@,
        e.level@ == level@,
        e.message@ == message@,
        e.raw is None,
        e.timestamp == timestamp,
{
    LogEvent { step: "install".to_string(), level: level.to_string(), message, raw: None, timestamp }
}

fn concat(a: &str, b: &str) -> (r: String)
    ensures
        r@ == a@ + b@,
{
    let mut v: Vec<char> = Vec::new();
    push_str(&mut v, a);
    push_str(&mut v, b);
    string_from_chars(&v)
}

fn mirror_action(npm: &str) -> (a: NpmSetupAction)
    ensures
        a@ == mirror_command(npm@),
{
    let mut args: Vec<String> = Vec::new();
    args.push("config".to_string());
    args.push("set".to_string());
    args.push("registry".to_string());
    args.push("https://registry.npmmirror.com".to_string());
    let a = NpmSetupAction::RunCommand { program: npm.to_string(), args, timeout_secs: 30 };
    assert(a@ == mirror_command(npm@)) by {
        assert(Seq::new(args@.len(), |i: int| args@[i]@) =~= seq!["config"@, "set"@, "registry"@, npm_mirror()]);
    }
    a
}

fn mirror_start_log(timestamp: u64) -> (e: LogEvent)
    ensures
        (e.level@, e.message@) == mirror_log(),
        e.step@ == "install"@,
        e.raw is None,
        e.timestamp == timestamp,
{
    proof {
        reveal_strlit("设置 npm 镜像: https://registry.npmmirror.com");
        reveal_strlit("设置 npm 镜像: ");
        reveal_strlit("https://registry.npmmirror.com");
    }
    install_log("info", "设置 npm 镜像: https://registry.npmmirror.com".to_string(), timestamp)
}

/// The message of a failed installer run.
fn msi_failure_text(run: &CommandRunResult) -> (r: String)
    ensures
        r@ == msi_failure(*run),
{
    let mut v: Vec<char> = Vec::new();
    push_str(&mut v, "msiexec 退出码: ");
    push_exit_code(&mut v, run.exit_code);
    push_str(&mut v, "，stderr: ");
    let err = chars_of(run.stderr.as_str());
    let n: usize = if err.len() <= 500 { err.len() } else { 500 };
    let ghost before = v@;
    let mut i: usize = 0;
    while i < n
        invariant
            i <= n <= err@.len(),
            n == if err@.len() <= 500 { err@.len() } else { 500 },
            v@ == before + err@.take(i as int),
        decreases n - i,
    {
        v.push(err[i]);
        i = i + 1;
        assert(v@ =~= before + err@.take(i as int));
    }
    assert(err@.take(n as int) =~= take_chars(run.stderr@, 500));
    string_from_chars(&v)
}

/// Tells whether an event reports the work a state waits for.
pub fn setup_accepts_event(state: &NpmSetupState, event: &NpmSetupEvent) -> (r: bool)
    ensures
        r == setup_accepts(state@, *event),
{
    match (state, event) {
        (NpmSetupState::Start, NpmSetupEvent::Started { .. }) => true,
        (NpmSetupState::PreparingInstaller, NpmSetupEvent::InstallerReady(_)) => true,
        (NpmSetupState::RunningInstaller, NpmSetupEvent::CommandFinished(_)) => true,
        (NpmSetupState::RefreshingPath, NpmSetupEvent::PathQueried { .. }) => true,
        (NpmSetupState::ResolvingNpm, NpmSetupEvent::NpmLookedUp { .. }) => true,
        (NpmSetupState::SettingMirror(_), NpmSetupEvent::CommandFinished(_)) => true,
        _ => false,
    }
}

/// One step of making npm available: npm already on the `PATH` is used as
/// it is; elsewhere than on Windows its absence ends the setup; on Windows
/// Node.js is downloaded and installed, the `PATH` refreshed and npm looked
/// for again. Whichever npm is found gets the registry mirror configured.
pub fn ensure_npm_available(state: NpmSetupState, event: NpmSetupEvent, timestamp: u64) -> (r: NpmSetupStep)
    requires
        setup_accepts(state@, event),
    ensures
        (r.state@, r.action@, log_lines(r.logs@)) == setup_transition(state@, event),
        install_logs(r.logs@, timestamp),
{
    let ghost stage = state@;
    let ghost ev = event;
    let mut logs: Vec<LogEvent> = Vec::new();
    let (next, action): (NpmSetupState, NpmSetupAction) = match event {
        NpmSetupEvent::Started { npm_on_path, is_windows } => {
            if npm_on_path {
                logs.push(install_log("info", "npm 已存在，跳过 Node.js 安装".to_string(), timestamp));
                logs.push(mirror_start_log(timestamp));
                (NpmSetupState::SettingMirror("npm".to_string()), mirror_action("npm"))
            } else if !is_windows {
                logs.push(install_log("error", "未检测到 npm，请先手动安装 Node.js（https://nodejs.org）".to_string(), timestamp));
                (NpmSetupState::Finished(None), NpmSetupAction::Done(None))
            } else {
                logs.push(install_log("info", "未检测到 npm，开始自动安装 Node.js ...".to_string(), timestamp));
                (NpmSetupState::PreparingInstaller, NpmSetupAction::PrepareInstaller)
            }
        }
        NpmSetupEvent::InstallerReady(ready) => match ready {
            Err(e) => {
                logs.push(install_log("error", concat("Node.js 安装失败: ", e.as_str()), timestamp));
                (NpmSetupState::Finished(None), NpmSetupAction::Done(None))
            }
            Ok(msi) => {
                logs.push(install_log("info", "开始静默安装 Node.js（msiexec /i ... /qn）...".to_string(), timestamp));
                let mut args: Vec<String> = Vec::new();
                args.push("/i".to_string());
                args.push(msi);
                args.push("/qn".to_string());
                args.push("/norestart".to_string());
                let ghost argv = args@;
                let a = NpmSetupAction::RunCommand { program: "msiexec".to_string(), args, timeout_secs: 300 };
                assert(Seq::new(argv.len(), |i: int| argv[i]@) =~= seq!["/i"@, argv[1]@, "/qn"@, "/norestart"@]);
                (NpmSetupState::RunningInstaller, a)
            }
        },
        NpmSetupEvent::CommandFinished(result) => match state {
            NpmSetupState::SettingMirror(npm) => {
                let ok = match &result {
                    Ok(run) => run.success,
                    Err(_) => false,
                };
                if ok {
                    logs.push(install_log("info", "npm 镜像设置成功".to_string(), timestamp));
                } else {
                    logs.push(install_log("warn", "npm 镜像设置失败，将使用默认源".to_string(), timestamp));
                }
                let npm2 = npm.clone();
                (NpmSetupState::Finished(Some(npm)), NpmSetupAction::Done(Some(npm2)))
            }
            _ => match result {
                Ok(run) => {
                    if run.success {
                        logs.push(install_log("info", "Node.js MSI 安装完成".to_string(), timestamp));
                        logs.push(install_log("info", "刷新 PATH 环境变量 ...".to_string(), timestamp));
                        (NpmSetupState::RefreshingPath, NpmSetupAction::QueryPath)
                    } else {
                        let why = msi_failure_text(&run);
                        logs.push(install_log("error", concat("Node.js 安装失败: ", why.as_str()), timestamp));
                        (NpmSetupState::Finished(None), NpmSetupAction::Done(None))
                    }
                }
                Err(e) => {
                    logs.push(install_log("error", concat("Node.js 安装失败: ", e.as_str()), timestamp));
                    (NpmSetupState::Finished(None), NpmSetupAction::Done(None))
                }
            },
        },
        NpmSetupEvent::PathQueried { registry_output, current_path } => {
            let found = match &registry_output {
                Some(out) => registry_path_value(out.as_str()),
                None => None,
            };
            let mut v: Vec<char> = Vec::new();
            match found {
                Some(sys) => {
                    push_str(&mut v, sys.as_str());
                    push_str(&mut v, ";");
                    push_str(&mut v, current_path.as_str());
                    logs.push(install_log("info", "PATH 已刷新".to_string(), timestamp));
                }
                None => {
                    push_str(&mut v, "C:\\Program Files\\nodejs");
                    push_str(&mut v, ";");
                    push_str(&mut v, current_path.as_str());
                    logs.push(install_log("warn", "注册表读取失败，已将 C:\\Program Files\\nodejs 追加到 PATH".to_string(), timestamp));
                }
            }
            proof {
                reveal_strlit("注册表读取失败，已将 C:\\Program Files\\nodejs 追加到 PATH");
                reveal_strlit("注册表读取失败，已将 ");
                reveal_strlit(" 追加到 PATH");
                reveal_strlit("C:\\Program Files\\nodejs");
                assert("注册表读取失败，已将 C:\\Program Files\\nodejs 追加到 PATH"@
                    =~= "注册表读取失败，已将 "@ + "C:\\Program Files\\nodejs"@ + " 追加到 PATH"@);
            }
            (NpmSetupState::ResolvingNpm, NpmSetupAction::ResolveNpm { path: string_from_chars(&v) })
        }
        NpmSetupEvent::NpmLookedUp { on_path, default_cmd_exists } => {
            if on_path || default_cmd_exists {
                let npm: &str = if on_path { "npm" } else { "C:\\Program Files\\nodejs\\npm.cmd" };
                logs.push(install_log("info", concat("npm 已就绪: ", npm), timestamp));
                logs.push(mirror_start_log(timestamp));
                (NpmSetupState::SettingMirror(npm.to_string()), mirror_action(npm))
            } else {
                logs.push(install_log("error", "Node.js 安装完成但未找到 npm，请检查安装路径".to_string(), timestamp));
                (NpmSetupState::Finished(None), NpmSetupAction::Done(None))
            }
        }
    };
    let r = NpmSetupStep { state: next, action, logs };
    assert(log_lines(r.logs@) =~= setup_transition(stage, ev).2);
    r
}

} // verus!
