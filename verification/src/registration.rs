//! Registering and removing the system service, one step at a time.
//!
//! Installing the background service alternates file operations and system
//! commands with decisions on their outcome: fall back to an elevated command
//! when the direct way fails, clean up the staged file, report refusal. The
//! decisions live here as a transition function; the caller performs each
//! action and hands back what came of it.

use crate::error::{error_view, Error, ErrorView};
use crate::paths::{join_path, path_join};
use crate::service::{
    launchdaemon_path, linux_elevated_install, linux_elevated_install_text, linux_systemd, linux_systemd_text,
    macos_install_script, macos_install_script_text, macos_plist, macos_plist_text, macos_remove_script,
    macos_remove_script_text, service_logs, systemd_path, windows_elevated_create, windows_elevated_create_text,
    windows_task_command, windows_task_command_text, TargetOs, get_launchdaemon_path, get_systemd_path,
};
use vstd::prelude::*;

verus! {

/// What the registration is asked to do, and where.
#[derive(Clone, Debug)]
pub struct ServiceRequest {
    pub os: TargetOs,
    /// Install (`true`) or remove (`false`) the service.
    pub enabled: bool,
    pub server_exe: String,
    pub config_path: String,
    /// The application's base directory; logs go to its `logs` directory.
    pub base_dir: String,
    /// The system's directory for temporary files.
    pub temp_dir: String,
}

/// Where a registration run stands: the action last handed out is the one
/// whose outcome the next step reads.
#[derive(Clone, Copy, Debug, PartialEq, Eq, Structural)]
pub enum ServiceStage {
    Begin,
    LogDirCreated,
    MacStaged,
    MacCopied,
    MacLoaded,
    MacCleaned,
    MacElevated,
    MacCleanedAfterGrant,
    MacCleanedAfterRefusal,
    MacChecked,
    MacUnloaded,
    MacRemoved,
    MacElevatedRemove,
    WinCreated,
    WinElevated,
    WinStarted,
    WinEnded,
    WinDeleted,
    WinElevatedDelete,
    LinStaged,
    LinCopied,
    LinReloaded,
    LinEnabled,
    LinCleaned,
    LinElevated,
    LinCleanedAfterGrant,
    LinCleanedAfterRefusal,
    LinChecked,
    LinDisabled,
    LinRemoved,
    LinReloadedAfterRemove,
    Finished,
}

/// What the caller is to do next.
#[derive(Debug)]
pub enum ServiceAction {
    /// Create a directory and its parents; the outcome does not matter.
    CreateDir(String),
    /// Write a file: path, content.
    WriteFile(String, String),
    /// Copy a file: from, to.
    CopyFile(String, String),
    RemoveFile(String),
    /// Report whether a path exists: `Succeeded` if it does.
    CheckExists(String),
    /// Run a program with arguments and wait for it.
    Run(String, Vec<String>),
    /// The run is over, with this result.
    Finish(Result<(), Error>),
}

/// What came of an action.
#[derive(Clone, Debug)]
pub enum ActionOutcome {
    /// The file operation succeeded, the command ran and exited with success,
    /// or the path exists.
    Succeeded,
    /// The command ran and exited with failure, or the path does not exist.
    Failed,
    /// The file operation failed, or the command could not be started; the
    /// system's message.
    Error(String),
}


/// `ServiceAction` over plain values.
pub enum ActionView {
    CreateDir(Seq<char>),
    WriteFile(Seq<char>, Seq<char>),
    CopyFile(Seq<char>, Seq<char>),
    RemoveFile(Seq<char>),
    CheckExists(Seq<char>),
    Run(Seq<char>, Seq<Seq<char>>),
    Finish(Option<ErrorView>),
}

/// `ActionOutcome` over plain values.
pub enum OutcomeView {
    Succeeded,
    Failed,
    Error(Seq<char>),
}

/// The texts of a list of arguments.
pub open spec fn arg_texts(args: Seq<String>) -> Seq<Seq<char>> {
    args.map_values(|s: String| s@)
}


pub open spec fn action_view(a: ServiceAction) -> ActionView {
    match a {
        ServiceAction::CreateDir(p) => ActionView::CreateDir(p@),
        ServiceAction::WriteFile(p, c) => ActionView::WriteFile(p@, c@),
        ServiceAction::CopyFile(f, t) => ActionView::CopyFile(f@, t@),
        ServiceAction::RemoveFile(p) => ActionView::RemoveFile(p@),
        ServiceAction::CheckExists(p) => ActionView::CheckExists(p@),
        ServiceAction::Run(p, args) => ActionView::Run(p@, arg_texts(args@)),
        ServiceAction::Finish(r) => ActionView::Finish(
            match r {
                Ok(_) => None,
                Err(e) => Some(error_view(e)),
            },
        ),
    }
}

pub open spec fn outcome_view(o: ActionOutcome) -> OutcomeView {
    match o {
        ActionOutcome::Succeeded => OutcomeView::Succeeded,
        ActionOutcome::Failed => OutcomeView::Failed,
        ActionOutcome::Error(m) => OutcomeView::Error(m@),
    }
}

/// A request over plain values: system, install or remove, executable,
/// configuration file, base directory, temporary directory.
pub struct RequestView {
    pub os: TargetOs,
    pub enabled: bool,
    pub exe: Seq<char>,
    pub config: Seq<char>,
    pub base: Seq<char>,
    pub temp: Seq<char>,
}

pub open spec fn request_view(r: ServiceRequest) -> RequestView {
    RequestView {
        os: r.os,
        enabled: r.enabled,
        exe: r.server_exe@,
        config: r.config_path@,
        base: r.base_dir@,
        temp: r.temp_dir@,
    }
}

/// Where the plist is staged before it is copied into place.
pub open spec fn staged_plist(q: RequestView) -> Seq<char> {
    path_join(q.temp, "mailbackup_service.plist"@)
}

/// Where the systemd unit is staged before it is copied into place.
pub open spec fn staged_unit(q: RequestView) -> Seq<char> {
    path_join(q.temp, "mailbackup.service"@)
}

/// PowerShell command that deletes the startup task with administrator rights.
pub open spec fn windows_elevated_delete() -> Seq<char> {
    "Start-Process schtasks -ArgumentList '/Delete /TN \""@ + "MailBackupService"@ + "\" /F' -Verb RunAs -Wait"@
}

pub open spec fn finish_ok() -> ActionView {
    ActionView::Finish(None)
}

pub open spec fn finish_config(m: Seq<char>) -> ActionView {
    ActionView::Finish(Some(ErrorView::Config(m)))
}

pub open spec fn mac_elevate(q: RequestView) -> (ServiceStage, ActionView) {
    (
        ServiceStage::MacElevated,
        ActionView::Run("osascript"@, seq!["-e"@, macos_install_script(staged_plist(q), launchdaemon_path())]),
    )
}

pub open spec fn win_elevate(q: RequestView) -> (ServiceStage, ActionView) {
    (
        ServiceStage::WinElevated,
        ActionView::Run("powershell"@, seq!["-Command"@, windows_elevated_create(q.exe, q.config)]),
    )
}

pub open spec fn win_start() -> (ServiceStage, ActionView) {
    (ServiceStage::WinStarted, ActionView::Run("schtasks"@, seq!["/Run"@, "/TN"@, "MailBackupService"@]))
}

pub open spec fn lin_elevate(q: RequestView) -> (ServiceStage, ActionView) {
    (
        ServiceStage::LinElevated,
        ActionView::Run("pkexec"@, seq!["sh"@, "-c"@, linux_elevated_install(staged_unit(q), systemd_path())]),
    )
}

/// Where the run goes from the first step on, by system and request.
pub open spec fn first_real_step(q: RequestView) -> (ServiceStage, ActionView) {
    match q.os {
        TargetOs::MacOs => if q.enabled {
            let (out_log, err_log) = service_logs(q.base);
            (
                ServiceStage::MacStaged,
                ActionView::WriteFile(staged_plist(q), macos_plist(q.exe, q.config, out_log, err_log)),
            )
        } else {
            (ServiceStage::MacChecked, ActionView::CheckExists(launchdaemon_path()))
        },
        TargetOs::Windows => if q.enabled {
            (
                ServiceStage::WinCreated,
                ActionView::Run(
                    "schtasks"@,
                    seq![
                        "/Create"@,
                        "/TN"@,
                        "MailBackupService"@,
                        "/TR"@,
                        windows_task_command(q.exe, q.config),
                        "/SC"@,
                        "ONSTART"@,
                        "/RU"@,
                        "SYSTEM"@,
                        "/RL"@,
                        "HIGHEST"@,
                        "/F"@,
                    ],
                ),
            )
        } else {
            (ServiceStage::WinEnded, ActionView::Run("schtasks"@, seq!["/End"@, "/TN"@, "MailBackupService"@]))
        },
        TargetOs::Linux => if q.enabled {
            let (out_log, err_log) = service_logs(q.base);
            (
                ServiceStage::LinStaged,
                ActionView::WriteFile(staged_unit(q), linux_systemd(q.exe, q.config, out_log, err_log)),
            )
        } else {
            (ServiceStage::LinChecked, ActionView::CheckExists(systemd_path()))
        },
        TargetOs::Other => (
            ServiceStage::Finished,
            finish_config("System service registration not supported on this operating system"@),
        ),
    }
}

/// The next stage and action of a registration run, from the stage it
/// stands at and what came of the last action.
///
/// Installing stages the descriptor in the temporary directory, copies it
/// into place and loads it; when that fails it runs the elevated command
/// instead, and reports refusal as an error. Removing unloads and deletes the
/// descriptor if there is one. Only the outcomes that the procedure looks at
/// matter: a failed `launchctl unload` or `systemctl` call on removal is
/// passed over.
pub open spec fn service_transition(q: RequestView, stage: ServiceStage, o: OutcomeView) -> (
    ServiceStage,
    ActionView,
) {
    let ok = o is Succeeded;
    let errored = o is Error;
    match stage {
        ServiceStage::Begin => (ServiceStage::LogDirCreated, ActionView::CreateDir(path_join(q.base, "logs"@))),
        ServiceStage::LogDirCreated => first_real_step(q),
        // macOS: install
        ServiceStage::MacStaged => match o {
            OutcomeView::Error(m) => (ServiceStage::Finished, ActionView::Finish(Some(ErrorView::Io(m)))),
            _ => (ServiceStage::MacCopied, ActionView::CopyFile(staged_plist(q), launchdaemon_path())),
        },
        ServiceStage::MacCopied => if errored {
            mac_elevate(q)
        } else {
            (ServiceStage::MacLoaded, ActionView::Run("launchctl"@, seq!["load"@, "-w"@, launchdaemon_path()]))
        },
        ServiceStage::MacLoaded => if ok {
            (ServiceStage::MacCleaned, ActionView::RemoveFile(staged_plist(q)))
        } else {
            mac_elevate(q)
        },
        ServiceStage::MacCleaned => (ServiceStage::Finished, finish_ok()),
        ServiceStage::MacElevated => match o {
            OutcomeView::Error(m) => (ServiceStage::Finished, finish_config("Failed to run elevation script: "@ + m)),
            OutcomeView::Succeeded => (ServiceStage::MacCleanedAfterGrant, ActionView::RemoveFile(staged_plist(q))),
            OutcomeView::Failed => (ServiceStage::MacCleanedAfterRefusal, ActionView::RemoveFile(staged_plist(q))),
        },
        ServiceStage::MacCleanedAfterGrant => (ServiceStage::Finished, finish_ok()),
        ServiceStage::MacCleanedAfterRefusal => (
            ServiceStage::Finished,
            finish_config("Administrator authorization was cancelled or failed to register LaunchDaemon"@),
        ),
        // macOS: remove
        ServiceStage::MacChecked => if ok {
            (ServiceStage::MacUnloaded, ActionView::Run("launchctl"@, seq!["unload"@, "-w"@, launchdaemon_path()]))
        } else {
            (ServiceStage::Finished, finish_ok())
        },
        ServiceStage::MacUnloaded => (ServiceStage::MacRemoved, ActionView::RemoveFile(launchdaemon_path())),
        ServiceStage::MacRemoved => if errored {
            (
                ServiceStage::MacElevatedRemove,
                ActionView::Run("osascript"@, seq!["-e"@, macos_remove_script(launchdaemon_path())]),
            )
        } else {
            (ServiceStage::Finished, finish_ok())
        },
        ServiceStage::MacElevatedRemove => match o {
            OutcomeView::Error(m) => (ServiceStage::Finished, finish_config("Failed to run elevation script: "@ + m)),
            OutcomeView::Succeeded => (ServiceStage::Finished, finish_ok()),
            OutcomeView::Failed => (
                ServiceStage::Finished,
                finish_config("Administrator authorization was cancelled or failed to remove LaunchDaemon"@),
            ),
        },
        // Windows: install
        ServiceStage::WinCreated => if ok {
            win_start()
        } else {
            win_elevate(q)
        },
        ServiceStage::WinElevated => match o {
            OutcomeView::Error(m) => (
                ServiceStage::Finished,
                finish_config("Failed to invoke elevated PowerShell: "@ + m),
            ),
            OutcomeView::Succeeded => win_start(),
            OutcomeView::Failed => (
                ServiceStage::Finished,
                finish_config("Administrator authorization failed to create Windows startup task"@),
            ),
        },
        ServiceStage::WinStarted => (ServiceStage::Finished, finish_ok()),
        // Windows: remove
        ServiceStage::WinEnded => (
            ServiceStage::WinDeleted,
            ActionView::Run("schtasks"@, seq!["/Delete"@, "/TN"@, "MailBackupService"@, "/F"@]),
        ),
        ServiceStage::WinDeleted => if ok {
            (ServiceStage::Finished, finish_ok())
        } else {
            (
                ServiceStage::WinElevatedDelete,
                ActionView::Run("powershell"@, seq!["-Command"@, windows_elevated_delete()]),
            )
        },
        ServiceStage::WinElevatedDelete => (ServiceStage::Finished, finish_ok()),
        // Linux: install
        ServiceStage::LinStaged => match o {
            OutcomeView::Error(m) => (ServiceStage::Finished, ActionView::Finish(Some(ErrorView::Io(m)))),
            _ => (ServiceStage::LinCopied, ActionView::CopyFile(staged_unit(q), systemd_path())),
        },
        ServiceStage::LinCopied => if errored {
            lin_elevate(q)
        } else {
            (ServiceStage::LinReloaded, ActionView::Run("systemctl"@, seq!["daemon-reload"@]))
        },
        ServiceStage::LinReloaded => if errored {
            lin_elevate(q)
        } else {
            (
                ServiceStage::LinEnabled,
                ActionView::Run("systemctl"@, seq!["enable"@, "--now"@, "mailbackup.service"@]),
            )
        },
        ServiceStage::LinEnabled => if errored {
            lin_elevate(q)
        } else {
            (ServiceStage::LinCleaned, ActionView::RemoveFile(staged_unit(q)))
        },
        ServiceStage::LinCleaned => (ServiceStage::Finished, finish_ok()),
        ServiceStage::LinElevated => match o {
            OutcomeView::Error(m) => (ServiceStage::Finished, finish_config("Elevation via pkexec failed: "@ + m)),
            OutcomeView::Succeeded => (ServiceStage::LinCleanedAfterGrant, ActionView::RemoveFile(staged_unit(q))),
            OutcomeView::Failed => (ServiceStage::LinCleanedAfterRefusal, ActionView::RemoveFile(staged_unit(q))),
        },
        ServiceStage::LinCleanedAfterGrant => (ServiceStage::Finished, finish_ok()),
        ServiceStage::LinCleanedAfterRefusal => (
            ServiceStage::Finished,
            finish_config("Administrator authorization failed to install systemd service"@),
        ),
        // Linux: remove
        ServiceStage::LinChecked => if ok {
            (
                ServiceStage::LinDisabled,
                ActionView::Run("systemctl"@, seq!["disable"@, "--now"@, "mailbackup.service"@]),
            )
        } else {
            (ServiceStage::Finished, finish_ok())
        },
        ServiceStage::LinDisabled => (ServiceStage::LinRemoved, ActionView::RemoveFile(systemd_path())),
        ServiceStage::LinRemoved => (
            ServiceStage::LinReloadedAfterRemove,
            ActionView::Run("systemctl"@, seq!["daemon-reload"@]),
        ),
        ServiceStage::LinReloadedAfterRemove => (ServiceStage::Finished, finish_ok()),
        ServiceStage::Finished => (ServiceStage::Finished, finish_ok()),
    }
}

/// How many steps at most a run still takes from a stage.
pub open spec fn steps_left(s: ServiceStage) -> nat {
    match s {
        ServiceStage::Finished => 0,
        ServiceStage::MacCleaned | ServiceStage::MacCleanedAfterGrant | ServiceStage::MacCleanedAfterRefusal
        | ServiceStage::MacElevatedRemove | ServiceStage::WinStarted | ServiceStage::WinElevatedDelete
        | ServiceStage::LinCleaned | ServiceStage::LinCleanedAfterGrant | ServiceStage::LinCleanedAfterRefusal
        | ServiceStage::LinReloadedAfterRemove => 1,
        ServiceStage::MacElevated | ServiceStage::MacRemoved | ServiceStage::WinElevated | ServiceStage::WinDeleted
        | ServiceStage::LinElevated | ServiceStage::LinRemoved => 2,
        ServiceStage::MacLoaded | ServiceStage::MacUnloaded | ServiceStage::WinCreated | ServiceStage::WinEnded
        | ServiceStage::LinEnabled | ServiceStage::LinDisabled => 3,
        ServiceStage::MacCopied | ServiceStage::MacChecked | ServiceStage::LinReloaded
        | ServiceStage::LinChecked => 4,
        ServiceStage::MacStaged | ServiceStage::LinCopied => 5,
        ServiceStage::LinStaged => 6,
        ServiceStage::LogDirCreated => 7,
        ServiceStage::Begin => 8,
    }
}

/// A registration run always ends: whatever its actions come to, each step
/// brings it closer to `Finished`, so a run started at `Begin` hands out at
/// most eight actions before its `Finish`; and the run hands out `Finish`
/// exactly when it reaches `Finished`.
pub proof fn law_registration_ends(q: RequestView, stage: ServiceStage, o: OutcomeView)
    requires
        stage != ServiceStage::Finished,
    ensures
        steps_left(service_transition(q, stage, o).0) < steps_left(stage),
        (service_transition(q, stage, o).0 == ServiceStage::Finished) <==> (service_transition(
            q,
            stage,
            o,
        ).1 is Finish),
{
}

pub(crate) fn no_args() -> (r: Vec<String>)
    ensures
        arg_texts(r@) == Seq::<Seq<char>>::empty(),
{
    let r: Vec<String> = Vec::new();
    assert(arg_texts(r@) =~= Seq::<Seq<char>>::empty());
    r
}

pub(crate) fn push_arg(args: &mut Vec<String>, a: &str)
    ensures
        arg_texts(final(args)@) == arg_texts(old(args)@).push(a@),
{
    args.push(String::from_str(a));
    assert(arg_texts(args@) =~= arg_texts(old(args)@).push(a@));
}

pub(crate) fn args1(a: &str) -> (r: Vec<String>)
    ensures
        arg_texts(r@) == seq![a@],
{
    let mut r = no_args();
    push_arg(&mut r, a);
    assert(arg_texts(r@) =~= seq![a@]);
    r
}

pub(crate) fn args2(a: &str, b: &str) -> (r: Vec<String>)
    ensures
        arg_texts(r@) == seq![a@, b@],
{
    let mut r = no_args();
    push_arg(&mut r, a);
    push_arg(&mut r, b);
    assert(arg_texts(r@) =~= seq![a@, b@]);
    r
}

pub(crate) fn args3(a: &str, b: &str, c: &str) -> (r: Vec<String>)
    ensures
        arg_texts(r@) == seq![a@, b@, c@],
{
    let mut r = no_args();
    push_arg(&mut r, a);
    push_arg(&mut r, b);
    push_arg(&mut r, c);
    assert(arg_texts(r@) =~= seq![a@, b@, c@]);
    r
}

pub(crate) fn args4(a: &str, b: &str, c: &str, d: &str) -> (r: Vec<String>)
    ensures
        arg_texts(r@) == seq![a@, b@, c@, d@],
{
    let mut r = no_args();
    push_arg(&mut r, a);
    push_arg(&mut r, b);
    push_arg(&mut r, c);
    push_arg(&mut r, d);
    assert(arg_texts(r@) =~= seq![a@, b@, c@, d@]);
    r
}

/// Arguments of `schtasks` that create the startup task running `tr`.
fn create_task_args(tr: &str) -> (r: Vec<String>)
    ensures
        arg_texts(r@) == seq![
            "/Create"@,
            "/TN"@,
            "MailBackupService"@,
            "/TR"@,
            tr@,
            "/SC"@,
            "ONSTART"@,
            "/RU"@,
            "SYSTEM"@,
            "/RL"@,
            "HIGHEST"@,
            "/F"@,
        ],
{
    let mut r = no_args();
    push_arg(&mut r, "/Create");
    push_arg(&mut r, "/TN");
    push_arg(&mut r, "MailBackupService");
    push_arg(&mut r, "/TR");
    push_arg(&mut r, tr);
    push_arg(&mut r, "/SC");
    push_arg(&mut r, "ONSTART");
    push_arg(&mut r, "/RU");
    push_arg(&mut r, "SYSTEM");
    push_arg(&mut r, "/RL");
    push_arg(&mut r, "HIGHEST");
    push_arg(&mut r, "/F");
    assert(arg_texts(r@) =~= seq![
        "/Create"@,
        "/TN"@,
        "MailBackupService"@,
        "/TR"@,
        tr@,
        "/SC"@,
        "ONSTART"@,
        "/RU"@,
        "SYSTEM"@,
        "/RL"@,
        "HIGHEST"@,
        "/F"@,
    ]);
    r
}

pub(crate) fn run(program: &str, args: Vec<String>) -> (r: ServiceAction)
    ensures
        action_view(r) == ActionView::Run(program@, arg_texts(args@)),
{
    ServiceAction::Run(String::from_str(program), args)
}

fn finish_config_action(m: String) -> (r: ServiceAction)
    ensures
        action_view(r) == finish_config(m@),
{
    ServiceAction::Finish(Err(Error::Config(m)))
}

fn staged_plist_path(req: &ServiceRequest) -> (r: String)
    ensures
        r@ == staged_plist(request_view(*req)),
{
    join_path(req.temp_dir.as_str(), "mailbackup_service.plist")
}

fn staged_unit_path(req: &ServiceRequest) -> (r: String)
    ensures
        r@ == staged_unit(request_view(*req)),
{
    join_path(req.temp_dir.as_str(), "mailbackup.service")
}

fn log_paths(req: &ServiceRequest) -> (r: (String, String))
    ensures
        (r.0@, r.1@) == service_logs(req.base_dir@),
{
    let d = join_path(req.base_dir.as_str(), "logs");
    (join_path(d.as_str(), "service.log"), join_path(d.as_str(), "service_err.log"))
}

fn mac_elevate_step(req: &ServiceRequest) -> (r: (ServiceStage, ServiceAction))
    ensures
        (r.0, action_view(r.1)) == mac_elevate(request_view(*req)),
{
    let script = macos_install_script_text(staged_plist_path(req).as_str(), get_launchdaemon_path().as_str());
    let args = args2("-e", script.as_str());
    (ServiceStage::MacElevated, run("osascript", args))
}

fn win_elevate_step(req: &ServiceRequest) -> (r: (ServiceStage, ServiceAction))
    ensures
        (r.0, action_view(r.1)) == win_elevate(request_view(*req)),
{
    let cmd = windows_elevated_create_text(req.server_exe.as_str(), req.config_path.as_str());
    let args = args2("-Command", cmd.as_str());
    (ServiceStage::WinElevated, run("powershell", args))
}

fn win_start_step() -> (r: (ServiceStage, ServiceAction))
    ensures
        (r.0, action_view(r.1)) == win_start(),
{
    let args = args3("/Run", "/TN", "MailBackupService");
    (ServiceStage::WinStarted, run("schtasks", args))
}

fn lin_elevate_step(req: &ServiceRequest) -> (r: (ServiceStage, ServiceAction))
    ensures
        (r.0, action_view(r.1)) == lin_elevate(request_view(*req)),
{
    let cmd = linux_elevated_install_text(staged_unit_path(req).as_str(), get_systemd_path().as_str());
    let args = args3("sh", "-c", cmd.as_str());
    (ServiceStage::LinElevated, run("pkexec", args))
}

fn first_step(req: &ServiceRequest) -> (r: (ServiceStage, ServiceAction))
    ensures
        (r.0, action_view(r.1)) == first_real_step(request_view(*req)),
{
    match req.os {
        TargetOs::MacOs => if req.enabled {
            let (out_log, err_log) = log_paths(req);
            let content = macos_plist_text(
                req.server_exe.as_str(),
                req.config_path.as_str(),
                out_log.as_str(),
                err_log.as_str(),
            );
            (ServiceStage::MacStaged, ServiceAction::WriteFile(staged_plist_path(req), content))
        } else {
            (ServiceStage::MacChecked, ServiceAction::CheckExists(get_launchdaemon_path()))
        },
        TargetOs::Windows => if req.enabled {
            let tr = windows_task_command_text(req.server_exe.as_str(), req.config_path.as_str());
            let args = create_task_args(tr.as_str());
            (ServiceStage::WinCreated, run("schtasks", args))
        } else {
            let args = args3("/End", "/TN", "MailBackupService");
            (ServiceStage::WinEnded, run("schtasks", args))
        },
        TargetOs::Linux => if req.enabled {
            let (out_log, err_log) = log_paths(req);
            let content = linux_systemd_text(
                req.server_exe.as_str(),
                req.config_path.as_str(),
                out_log.as_str(),
                err_log.as_str(),
            );
            (ServiceStage::LinStaged, ServiceAction::WriteFile(staged_unit_path(req), content))
        } else {
            (ServiceStage::LinChecked, ServiceAction::CheckExists(get_systemd_path()))
        },
        TargetOs::Other => (
            ServiceStage::Finished,
            finish_config_action(String::from_str("System service registration not supported on this operating system")),
        ),
    }
}

/// The next stage and action of a registration run (see
/// `service_transition`). A run starts at `Begin`, where the outcome is not
/// read, and goes on until the action is `Finish`.
pub fn service_step(req: &ServiceRequest, stage: ServiceStage, outcome: &ActionOutcome) -> (r: (
    ServiceStage,
    ServiceAction,
))
    requires
        stage != ServiceStage::Finished,
    ensures
        (r.0, action_view(r.1)) == service_transition(request_view(*req), stage, outcome_view(*outcome)),
{
    let ok = matches!(outcome, ActionOutcome::Succeeded);
    let errored = matches!(outcome, ActionOutcome::Error(_));
    match stage {
        ServiceStage::Begin => (
            ServiceStage::LogDirCreated,
            ServiceAction::CreateDir(join_path(req.base_dir.as_str(), "logs")),
        ),
        ServiceStage::LogDirCreated => first_step(req),
        ServiceStage::MacStaged => match outcome {
            ActionOutcome::Error(m) => (ServiceStage::Finished, ServiceAction::Finish(Err(Error::Io(m.clone())))),
            _ => (ServiceStage::MacCopied, ServiceAction::CopyFile(staged_plist_path(req), get_launchdaemon_path())),
        },
        ServiceStage::MacCopied => if errored {
            mac_elevate_step(req)
        } else {
            let args = args3("load", "-w", get_launchdaemon_path().as_str());
            (ServiceStage::MacLoaded, run("launchctl", args))
        },
        ServiceStage::MacLoaded => if ok {
            (ServiceStage::MacCleaned, ServiceAction::RemoveFile(staged_plist_path(req)))
        } else {
            mac_elevate_step(req)
        },
        ServiceStage::MacCleaned => (ServiceStage::Finished, ServiceAction::Finish(Ok(()))),
        ServiceStage::MacElevated => match outcome {
            ActionOutcome::Error(m) => (
                ServiceStage::Finished,
                finish_config_action(String::from_str("Failed to run elevation script: ").concat(m.as_str())),
            ),
            ActionOutcome::Succeeded => (
                ServiceStage::MacCleanedAfterGrant,
                ServiceAction::RemoveFile(staged_plist_path(req)),
            ),
            ActionOutcome::Failed => (
                ServiceStage::MacCleanedAfterRefusal,
                ServiceAction::RemoveFile(staged_plist_path(req)),
            ),
        },
        ServiceStage::MacCleanedAfterGrant => (ServiceStage::Finished, ServiceAction::Finish(Ok(()))),
        ServiceStage::MacCleanedAfterRefusal => (
            ServiceStage::Finished,
            finish_config_action(
                String::from_str("Administrator authorization was cancelled or failed to register LaunchDaemon"),
            ),
        ),
        ServiceStage::MacChecked => if ok {
            let args = args3("unload", "-w", get_launchdaemon_path().as_str());
            (ServiceStage::MacUnloaded, run("launchctl", args))
        } else {
            (ServiceStage::Finished, ServiceAction::Finish(Ok(())))
        },
        ServiceStage::MacUnloaded => (ServiceStage::MacRemoved, ServiceAction::RemoveFile(get_launchdaemon_path())),
        ServiceStage::MacRemoved => if errored {
            let script = macos_remove_script_text(get_launchdaemon_path().as_str());
            let args = args2("-e", script.as_str());
            (ServiceStage::MacElevatedRemove, run("osascript", args))
        } else {
            (ServiceStage::Finished, ServiceAction::Finish(Ok(())))
        },
        ServiceStage::MacElevatedRemove => match outcome {
            ActionOutcome::Error(m) => (
                ServiceStage::Finished,
                finish_config_action(String::from_str("Failed to run elevation script: ").concat(m.as_str())),
            ),
            ActionOutcome::Succeeded => (ServiceStage::Finished, ServiceAction::Finish(Ok(()))),
            ActionOutcome::Failed => (
                ServiceStage::Finished,
                finish_config_action(
                    String::from_str("Administrator authorization was cancelled or failed to remove LaunchDaemon"),
                ),
            ),
        },
        ServiceStage::WinCreated => if ok {
            win_start_step()
        } else {
            win_elevate_step(req)
        },
        ServiceStage::WinElevated => match outcome {
            ActionOutcome::Error(m) => (
                ServiceStage::Finished,
                finish_config_action(String::from_str("Failed to invoke elevated PowerShell: ").concat(m.as_str())),
            ),
            ActionOutcome::Succeeded => win_start_step(),
            ActionOutcome::Failed => (
                ServiceStage::Finished,
                finish_config_action(String::from_str("Administrator authorization failed to create Windows startup task")),
            ),
        },
        ServiceStage::WinStarted => (ServiceStage::Finished, ServiceAction::Finish(Ok(()))),
        ServiceStage::WinEnded => {
            let args = args4("/Delete", "/TN", "MailBackupService", "/F");
            (ServiceStage::WinDeleted, run("schtasks", args))
        },
        ServiceStage::WinDeleted => if ok {
            (ServiceStage::Finished, ServiceAction::Finish(Ok(())))
        } else {
            let args = args2("-Command", windows_elevated_delete_text().as_str());
            (ServiceStage::WinElevatedDelete, run("powershell", args))
        },
        ServiceStage::WinElevatedDelete => (ServiceStage::Finished, ServiceAction::Finish(Ok(()))),
        ServiceStage::LinStaged => match outcome {
            ActionOutcome::Error(m) => (ServiceStage::Finished, ServiceAction::Finish(Err(Error::Io(m.clone())))),
            _ => (ServiceStage::LinCopied, ServiceAction::CopyFile(staged_unit_path(req), get_systemd_path())),
        },
        ServiceStage::LinCopied => if errored {
            lin_elevate_step(req)
        } else {
            let args = args1("daemon-reload");
            (ServiceStage::LinReloaded, run("systemctl", args))
        },
        ServiceStage::LinReloaded => if errored {
            lin_elevate_step(req)
        } else {
            let args = args3("enable", "--now", "mailbackup.service");
            (ServiceStage::LinEnabled, run("systemctl", args))
        },
        ServiceStage::LinEnabled => if errored {
            lin_elevate_step(req)
        } else {
            (ServiceStage::LinCleaned, ServiceAction::RemoveFile(staged_unit_path(req)))
        },
        ServiceStage::LinCleaned => (ServiceStage::Finished, ServiceAction::Finish(Ok(()))),
        ServiceStage::LinElevated => match outcome {
            ActionOutcome::Error(m) => (
                ServiceStage::Finished,
                finish_config_action(String::from_str("Elevation via pkexec failed: ").concat(m.as_str())),
            ),
            ActionOutcome::Succeeded => (
                ServiceStage::LinCleanedAfterGrant,
                ServiceAction::RemoveFile(staged_unit_path(req)),
            ),
            ActionOutcome::Failed => (
                ServiceStage::LinCleanedAfterRefusal,
                ServiceAction::RemoveFile(staged_unit_path(req)),
            ),
        },
        ServiceStage::LinCleanedAfterGrant => (ServiceStage::Finished, ServiceAction::Finish(Ok(()))),
        ServiceStage::LinCleanedAfterRefusal => (
            ServiceStage::Finished,
            finish_config_action(String::from_str("Administrator authorization failed to install systemd service")),
        ),
        ServiceStage::LinChecked => if ok {
            let args = args3("disable", "--now", "mailbackup.service");
            (ServiceStage::LinDisabled, run("systemctl", args))
        } else {
            (ServiceStage::Finished, ServiceAction::Finish(Ok(())))
        },
        ServiceStage::LinDisabled => (ServiceStage::LinRemoved, ServiceAction::RemoveFile(get_systemd_path())),
        ServiceStage::LinRemoved => {
            let args = args1("daemon-reload");
            (ServiceStage::LinReloadedAfterRemove, run("systemctl", args))
        },
        ServiceStage::LinReloadedAfterRemove => (ServiceStage::Finished, ServiceAction::Finish(Ok(()))),
        ServiceStage::Finished => (ServiceStage::Finished, ServiceAction::Finish(Ok(()))),
    }
}

/// Builds `windows_elevated_delete`.
pub fn windows_elevated_delete_text() -> (r: String)
    ensures
        r@ == windows_elevated_delete(),
{
    String::from_str("Start-Process schtasks -ArgumentList '/Delete /TN \"").concat("MailBackupService").concat(
        "\" /F' -Verb RunAs -Wait",
    )
}

} // verus!
