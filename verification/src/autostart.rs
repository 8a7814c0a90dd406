//! Launch-at-login registration descriptors of the desktop application.

use crate::error::{Error, ErrorView};
use crate::paths::{home_dir, join_path, path_join};
use crate::registration::{
    action_view, arg_texts, args1, finish_config, no_args, outcome_view, push_arg, run, ActionOutcome, ActionView,
    OutcomeView, ServiceAction,
};
use crate::service::TargetOs;
use vstd::prelude::*;

verus! {

/// Whether launch-at-login registration exists for `os`.
pub fn is_autostart_supported(os: TargetOs) -> (r: bool)
    ensures
        r == (os == TargetOs::MacOs || os == TargetOs::Windows || os == TargetOs::Linux),
{
    match os {
        TargetOs::MacOs | TargetOs::Windows | TargetOs::Linux => true,
        TargetOs::Other => false,
    }
}

/// Path of the LaunchAgent plist under a home directory.
pub open spec fn plist_path_in(home: Seq<char>) -> Seq<char> {
    path_join(path_join(path_join(home, "Library"@), "LaunchAgents"@), "com.mailbackup.studio.plist"@)
}

/// Path of the XDG autostart entry under a home directory.
pub open spec fn desktop_path_in(home: Seq<char>) -> Seq<char> {
    path_join(path_join(path_join(home, ".config"@), "autostart"@), "com.mailbackup.studio.desktop"@)
}

/// Path of the LaunchAgent plist, when the home directory is known.
pub fn get_plist_path() -> (r: Option<String>)
    ensures
        match r {
            Some(p) => exists|h: Seq<char>| p@ == plist_path_in(h),
            None => true,
        },
{
    match home_dir() {
        Some(h) => {
            let a = join_path(h.as_str(), "Library");
            let b = join_path(a.as_str(), "LaunchAgents");
            let p = join_path(b.as_str(), "com.mailbackup.studio.plist");
            assert(p@ == plist_path_in(h@));
            Some(p)
        },
        None => None,
    }
}

/// Path of the XDG autostart entry, when the home directory is known.
pub fn get_desktop_path() -> (r: Option<String>)
    ensures
        match r {
            Some(p) => exists|h: Seq<char>| p@ == desktop_path_in(h),
            None => true,
        },
{
    match home_dir() {
        Some(h) => {
            let a = join_path(h.as_str(), ".config");
            let b = join_path(a.as_str(), "autostart");
            let p = join_path(b.as_str(), "com.mailbackup.studio.desktop");
            assert(p@ == desktop_path_in(h@));
            Some(p)
        },
        None => None,
    }
}

/// The LaunchAgent plist that starts the application at login.
pub open spec fn autostart_plist(exe: Seq<char>) -> Seq<char> {
    "<?xml version=\"1.0\" encoding=\"UTF-8\"?>\n<!DOCTYPE plist PUBLIC \"-//Apple//DTD PLIST 1.0//EN\" \"http://www.apple.com/DTDs/PropertyList-1.0.dtd\">\n<plist version=\"1.0\">\n<dict>\n    <key>Label</key>\n    <string>"@ + "com.mailbackup.studio"@ + "</string>\n    <key>ProgramArguments</key>\n    <array>\n        <string>"@ + exe + "</string>\n    </array>\n    <key>RunAtLoad</key>\n    <true/>\n    <key>ProcessType</key>\n    <string>Interactive</string>\n</dict>\n</plist>\n"@
}

/// Builds `autostart_plist`.
pub fn autostart_plist_text(exe: &str) -> (r: String)
    ensures
        r@ == autostart_plist(exe@),
{
    String::from_str("<?xml version=\"1.0\" encoding=\"UTF-8\"?>\n<!DOCTYPE plist PUBLIC \"-//Apple//DTD PLIST 1.0//EN\" \"http://www.apple.com/DTDs/PropertyList-1.0.dtd\">\n<plist version=\"1.0\">\n<dict>\n    <key>Label</key>\n    <string>").concat("com.mailbackup.studio").concat("</string>\n    <key>ProgramArguments</key>\n    <array>\n        <string>").concat(exe).concat("</string>\n    </array>\n    <key>RunAtLoad</key>\n    <true/>\n    <key>ProcessType</key>\n    <string>Interactive</string>\n</dict>\n</plist>\n")
}

/// The XDG desktop entry that starts the application at login.
pub open spec fn autostart_desktop_entry(exe: Seq<char>) -> Seq<char> {
    "[Desktop Entry]\nType=Application\nVersion=1.0\nName="@ + "MailBackup Studio"@ + "\nComment=MailBackup Studio Email Backup Utility\nExec=\""@ + exe + "\"\nStartupNotify=false\nTerminal=false\n"@
}

/// Builds `autostart_desktop_entry`.
pub fn autostart_desktop_entry_text(exe: &str) -> (r: String)
    ensures
        r@ == autostart_desktop_entry(exe@),
{
    String::from_str("[Desktop Entry]\nType=Application\nVersion=1.0\nName=").concat("MailBackup Studio").concat("\nComment=MailBackup Studio Email Backup Utility\nExec=\"").concat(exe).concat("\"\nStartupNotify=false\nTerminal=false\n")
}

/// The registry value that starts the application at login on Windows.
pub open spec fn autostart_registry_value(exe: Seq<char>) -> Seq<char> {
    "\""@ + exe + "\""@
}

/// Builds `autostart_registry_value`.
pub fn autostart_registry_value_text(exe: &str) -> (r: String)
    ensures
        r@ == autostart_registry_value(exe@),
{
    String::from_str("\"").concat(exe).concat("\"")
}

/// Registry key under which the application is started at login on Windows.
pub open spec fn run_key() -> Seq<char> {
    "HKCU\\Software\\Microsoft\\Windows\\CurrentVersion\\Run"@
}

/// What a launch-at-login change is asked to do: on which system, register
/// or remove, the home directory when it is known, and the application's
/// executable (or why it could not be found).
#[derive(Debug)]
pub struct AutostartRequest {
    pub os: TargetOs,
    pub enabled: bool,
    pub home: Option<String>,
    pub executable: Result<String, String>,
}

/// A launch-at-login request over plain values.
pub struct AutostartRequestView {
    pub os: TargetOs,
    pub enabled: bool,
    pub home: Option<Seq<char>>,
    pub executable: Result<Seq<char>, Seq<char>>,
}

pub open spec fn autostart_request_view(r: AutostartRequest) -> AutostartRequestView {
    AutostartRequestView {
        os: r.os,
        enabled: r.enabled,
        home: match r.home {
            Some(h) => Some(h@),
            None => None,
        },
        executable: match r.executable {
            Ok(e) => Ok(e@),
            Err(m) => Err(m@),
        },
    }
}

/// Where a launch-at-login change stands; the action last handed out is the
/// one whose outcome the next step reads.
#[derive(Clone, Copy, Debug, PartialEq, Eq, Structural)]
pub enum AutostartStage {
    Begin,
    DirCreated,
    Written,
    Checked,
    Removed,
    RegistryAdded,
    RegistryDeleted,
    Finished,
}

/// The entry file and its directory under a home directory, on macOS or Linux.
pub open spec fn entry_location(os: TargetOs, home: Seq<char>) -> (Seq<char>, Seq<char>) {
    if os == TargetOs::MacOs {
        (path_join(path_join(home, "Library"@), "LaunchAgents"@), plist_path_in(home))
    } else {
        (path_join(path_join(home, ".config"@), "autostart"@), desktop_path_in(home))
    }
}

/// The entry's content for an executable, on macOS or Linux.
pub open spec fn entry_content(os: TargetOs, exe: Seq<char>) -> Seq<char> {
    if os == TargetOs::MacOs {
        autostart_plist(exe)
    } else {
        autostart_desktop_entry(exe)
    }
}

pub open spec fn exe_failure(m: Seq<char>) -> ActionView {
    finish_config("Failed to get current executable path: "@ + m)
}

/// The next stage and action of a launch-at-login change, from the stage it
/// stands at and what came of the last action.
///
/// On macOS and Linux an entry file under the home directory is written (its
/// directory created first) or, if it exists, removed; on Windows a value
/// under the `Run` registry key is added or deleted. Failing to remove an
/// entry, or to delete the value, is passed over.
pub open spec fn autostart_transition(q: AutostartRequestView, stage: AutostartStage, o: OutcomeView) -> (
    AutostartStage,
    ActionView,
) {
    match stage {
        AutostartStage::Begin => match q.os {
            TargetOs::MacOs | TargetOs::Linux => match q.home {
                None => (AutostartStage::Finished, finish_config("Could not determine user home directory"@)),
                Some(h) => if q.enabled {
                    match q.executable {
                        Err(m) => (AutostartStage::Finished, exe_failure(m)),
                        Ok(_) => (AutostartStage::DirCreated, ActionView::CreateDir(entry_location(q.os, h).0)),
                    }
                } else {
                    (AutostartStage::Checked, ActionView::CheckExists(entry_location(q.os, h).1))
                },
            },
            TargetOs::Windows => if q.enabled {
                match q.executable {
                    Err(m) => (AutostartStage::Finished, exe_failure(m)),
                    Ok(e) => (
                        AutostartStage::RegistryAdded,
                        ActionView::Run(
                            "reg"@,
                            seq![
                                "add"@,
                                run_key(),
                                "/v"@,
                                "MailBackupStudio"@,
                                "/t"@,
                                "REG_SZ"@,
                                "/d"@,
                                autostart_registry_value(e),
                                "/f"@,
                            ],
                        ),
                    ),
                }
            } else {
                (
                    AutostartStage::RegistryDeleted,
                    ActionView::Run("reg"@, seq!["delete"@, run_key(), "/v"@, "MailBackupStudio"@, "/f"@]),
                )
            },
            TargetOs::Other => (AutostartStage::Finished, ActionView::Finish(None)),
        },
        AutostartStage::DirCreated => match o {
            OutcomeView::Error(m) => (AutostartStage::Finished, ActionView::Finish(Some(ErrorView::Io(m)))),
            _ => match (q.home, q.executable) {
                (Some(h), Ok(e)) => (
                    AutostartStage::Written,
                    ActionView::WriteFile(entry_location(q.os, h).1, entry_content(q.os, e)),
                ),
                _ => (AutostartStage::Finished, ActionView::Finish(None)),
            },
        },
        AutostartStage::Written => match o {
            OutcomeView::Error(m) => (AutostartStage::Finished, ActionView::Finish(Some(ErrorView::Io(m)))),
            _ => (AutostartStage::Finished, ActionView::Finish(None)),
        },
        AutostartStage::Checked => match (o, q.home) {
            (OutcomeView::Succeeded, Some(h)) => (
                AutostartStage::Removed,
                ActionView::RemoveFile(entry_location(q.os, h).1),
            ),
            _ => (AutostartStage::Finished, ActionView::Finish(None)),
        },
        AutostartStage::Removed => (AutostartStage::Finished, ActionView::Finish(None)),
        AutostartStage::RegistryAdded => match o {
            OutcomeView::Error(m) => (AutostartStage::Finished, finish_config("Failed to execute reg add: "@ + m)),
            OutcomeView::Failed => (AutostartStage::Finished, finish_config("reg add command failed"@)),
            OutcomeView::Succeeded => (AutostartStage::Finished, ActionView::Finish(None)),
        },
        AutostartStage::RegistryDeleted => (AutostartStage::Finished, ActionView::Finish(None)),
        AutostartStage::Finished => (AutostartStage::Finished, ActionView::Finish(None)),
    }
}

fn entry_paths(os: TargetOs, home: &str) -> (r: (String, String))
    ensures
        (r.0@, r.1@) == entry_location(os, home@),
{
    if os == TargetOs::MacOs {
        let a = join_path(home, "Library");
        let d = join_path(a.as_str(), "LaunchAgents");
        let p = join_path(d.as_str(), "com.mailbackup.studio.plist");
        (d, p)
    } else {
        let a = join_path(home, ".config");
        let d = join_path(a.as_str(), "autostart");
        let p = join_path(d.as_str(), "com.mailbackup.studio.desktop");
        (d, p)
    }
}

fn registry_add_args(value: &str) -> (r: Vec<String>)
    ensures
        arg_texts(r@) == seq![
            "add"@,
            run_key(),
            "/v"@,
            "MailBackupStudio"@,
            "/t"@,
            "REG_SZ"@,
            "/d"@,
            value@,
            "/f"@,
        ],
{
    let mut r = no_args();
    push_arg(&mut r, "add");
    push_arg(&mut r, "HKCU\\Software\\Microsoft\\Windows\\CurrentVersion\\Run");
    push_arg(&mut r, "/v");
    push_arg(&mut r, "MailBackupStudio");
    push_arg(&mut r, "/t");
    push_arg(&mut r, "REG_SZ");
    push_arg(&mut r, "/d");
    push_arg(&mut r, value);
    push_arg(&mut r, "/f");
    assert(arg_texts(r@) =~= seq![
        "add"@,
        run_key(),
        "/v"@,
        "MailBackupStudio"@,
        "/t"@,
        "REG_SZ"@,
        "/d"@,
        value@,
        "/f"@,
    ]);
    r
}

fn registry_delete_args() -> (r: Vec<String>)
    ensures
        arg_texts(r@) == seq!["delete"@, run_key(), "/v"@, "MailBackupStudio"@, "/f"@],
{
    let mut r = no_args();
    push_arg(&mut r, "delete");
    push_arg(&mut r, "HKCU\\Software\\Microsoft\\Windows\\CurrentVersion\\Run");
    push_arg(&mut r, "/v");
    push_arg(&mut r, "MailBackupStudio");
    push_arg(&mut r, "/f");
    assert(arg_texts(r@) =~= seq!["delete"@, run_key(), "/v"@, "MailBackupStudio"@, "/f"@]);
    r
}

fn finish_config_with(prefix: &str, m: &str) -> (r: ServiceAction)
    ensures
        action_view(r) == finish_config(prefix@ + m@),
{
    ServiceAction::Finish(Err(Error::Config(String::from_str(prefix).concat(m))))
}

fn finish_config_msg(m: &str) -> (r: ServiceAction)
    ensures
        action_view(r) == finish_config(m@),
{
    ServiceAction::Finish(Err(Error::Config(String::from_str(m))))
}

fn finish_ok() -> (r: ServiceAction)
    ensures
        action_view(r) == ActionView::Finish(None),
{
    ServiceAction::Finish(Ok(()))
}

/// The next stage and action of a launch-at-login change (see
/// `autostart_transition`). A change starts at `Begin`, where the outcome is
/// not read, and goes on until the action is `Finish`.
pub fn autostart_step(req: &AutostartRequest, stage: AutostartStage, outcome: &ActionOutcome) -> (r: (
    AutostartStage,
    ServiceAction,
))
    requires
        stage != AutostartStage::Finished,
    ensures
        (r.0, action_view(r.1)) == autostart_transition(autostart_request_view(*req), stage, outcome_view(*outcome)),
{
    match stage {
        AutostartStage::Begin => match req.os {
            TargetOs::MacOs | TargetOs::Linux => match &req.home {
                None => (AutostartStage::Finished, finish_config_msg("Could not determine user home directory")),
                Some(h) => if req.enabled {
                    match &req.executable {
                        Err(m) => (
                            AutostartStage::Finished,
                            finish_config_with("Failed to get current executable path: ", m.as_str()),
                        ),
                        Ok(_) => {
                            let (d, _) = entry_paths(req.os, h.as_str());
                            (AutostartStage::DirCreated, ServiceAction::CreateDir(d))
                        },
                    }
                } else {
                    let (_, p) = entry_paths(req.os, h.as_str());
                    (AutostartStage::Checked, ServiceAction::CheckExists(p))
                },
            },
            TargetOs::Windows => if req.enabled {
                match &req.executable {
                    Err(m) => (
                        AutostartStage::Finished,
                        finish_config_with("Failed to get current executable path: ", m.as_str()),
                    ),
                    Ok(e) => {
                        let value = autostart_registry_value_text(e.as_str());
                        (AutostartStage::RegistryAdded, run("reg", registry_add_args(value.as_str())))
                    },
                }
            } else {
                (AutostartStage::RegistryDeleted, run("reg", registry_delete_args()))
            },
            TargetOs::Other => (AutostartStage::Finished, finish_ok()),
        },
        AutostartStage::DirCreated => match outcome {
            ActionOutcome::Error(m) => (AutostartStage::Finished, ServiceAction::Finish(Err(Error::Io(m.clone())))),
            _ => match (&req.home, &req.executable) {
                (Some(h), Ok(e)) => {
                    let (_, p) = entry_paths(req.os, h.as_str());
                    let content = if req.os == TargetOs::MacOs {
                        autostart_plist_text(e.as_str())
                    } else {
                        autostart_desktop_entry_text(e.as_str())
                    };
                    (AutostartStage::Written, ServiceAction::WriteFile(p, content))
                },
                _ => (AutostartStage::Finished, finish_ok()),
            },
        },
        AutostartStage::Written => match outcome {
            ActionOutcome::Error(m) => (AutostartStage::Finished, ServiceAction::Finish(Err(Error::Io(m.clone())))),
            _ => (AutostartStage::Finished, finish_ok()),
        },
        AutostartStage::Checked => match (outcome, &req.home) {
            (ActionOutcome::Succeeded, Some(h)) => {
                let (_, p) = entry_paths(req.os, h.as_str());
                (AutostartStage::Removed, ServiceAction::RemoveFile(p))
            },
            _ => (AutostartStage::Finished, finish_ok()),
        },
        AutostartStage::Removed => (AutostartStage::Finished, finish_ok()),
        AutostartStage::RegistryAdded => match outcome {
            ActionOutcome::Error(m) => (AutostartStage::Finished, finish_config_with("Failed to execute reg add: ", m.as_str())),
            ActionOutcome::Failed => (AutostartStage::Finished, finish_config_msg("reg add command failed")),
            ActionOutcome::Succeeded => (AutostartStage::Finished, finish_ok()),
        },
        AutostartStage::RegistryDeleted => (AutostartStage::Finished, finish_ok()),
        AutostartStage::Finished => (AutostartStage::Finished, finish_ok()),
    }
}

/// How many steps at most a launch-at-login change still takes.
pub open spec fn autostart_steps_left(s: AutostartStage) -> nat {
    match s {
        AutostartStage::Finished => 0,
        AutostartStage::Written | AutostartStage::Removed | AutostartStage::RegistryAdded
        | AutostartStage::RegistryDeleted => 1,
        AutostartStage::DirCreated | AutostartStage::Checked => 2,
        AutostartStage::Begin => 3,
    }
}

/// A launch-at-login change always ends: each step brings it closer to
/// `Finished`, so at most two actions come before its `Finish`; and the
/// change hands out `Finish` exactly when it reaches `Finished`.
pub proof fn law_autostart_ends(q: AutostartRequestView, stage: AutostartStage, o: OutcomeView)
    requires
        stage != AutostartStage::Finished,
    ensures
        autostart_steps_left(autostart_transition(q, stage, o).0) < autostart_steps_left(stage),
        (autostart_transition(q, stage, o).0 == AutostartStage::Finished) <==> (autostart_transition(
            q,
            stage,
            o,
        ).1 is Finish),
{
}

} // verus!
