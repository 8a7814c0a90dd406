use mailbackup_core::autostart::{autostart_step, AutostartRequest, AutostartStage};
use mailbackup_core::error::Error;
use mailbackup_core::registration::{ActionOutcome, ServiceAction};
use mailbackup_core::service::TargetOs;

fn req(os: TargetOs, enabled: bool) -> AutostartRequest {
    AutostartRequest {
        os,
        enabled,
        home: Some("/home/ana".to_string()),
        executable: Ok("/opt/mb/mailbackup-gui".to_string()),
    }
}

/// Runs a change with the given outcomes, one per action; returns the
/// actions and the result.
fn drive(r: &AutostartRequest, outcomes: Vec<ActionOutcome>) -> (Vec<ServiceAction>, Result<(), Error>) {
    let mut stage = AutostartStage::Begin;
    let mut outcome = ActionOutcome::Succeeded;
    let mut rest = outcomes.into_iter();
    let mut asked = Vec::new();
    for _ in 0..5 {
        let (next, action) = autostart_step(r, stage, &outcome);
        if let ServiceAction::Finish(res) = action {
            assert_eq!(next, AutostartStage::Finished);
            return (asked, res);
        }
        asked.push(action);
        outcome = rest.next().unwrap_or(ActionOutcome::Succeeded);
        stage = next;
    }
    panic!("change did not finish");
}

#[test]
fn linux_autostart_writes_desktop_entry() {
    let (asked, r) = drive(&req(TargetOs::Linux, true), vec![]);
    assert!(r.is_ok());
    assert_eq!(asked.len(), 2);
    match &asked[0] {
        ServiceAction::CreateDir(d) => assert_eq!(d, "/home/ana/.config/autostart"),
        other => panic!("unexpected {:?}", other),
    }
    match &asked[1] {
        ServiceAction::WriteFile(p, c) => {
            assert_eq!(p, "/home/ana/.config/autostart/com.mailbackup.studio.desktop");
            assert!(c.starts_with("[Desktop Entry]\nType=Application\n"));
            assert!(c.contains("Exec=\"/opt/mb/mailbackup-gui\"\n"));
        }
        other => panic!("unexpected {:?}", other),
    }
}

#[test]
fn macos_autostart_write_failure_is_io_error() {
    let (asked, r) = drive(&req(TargetOs::MacOs, true), vec![ActionOutcome::Succeeded, ActionOutcome::Error("Read-only file system".to_string())]);
    match &asked[1] {
        ServiceAction::WriteFile(p, c) => {
            assert_eq!(p, "/home/ana/Library/LaunchAgents/com.mailbackup.studio.plist");
            assert!(c.contains("<string>/opt/mb/mailbackup-gui</string>"));
            assert!(c.contains("<string>Interactive</string>"));
        }
        other => panic!("unexpected {:?}", other),
    }
    match r {
        Err(Error::Io(m)) => assert_eq!(m, "Read-only file system"),
        other => panic!("unexpected {:?}", other),
    }
}

#[test]
fn autostart_without_home_is_refused() {
    let mut r = req(TargetOs::Linux, false);
    r.home = None;
    let (asked, res) = drive(&r, vec![]);
    assert!(asked.is_empty());
    match res {
        Err(Error::Config(m)) => assert_eq!(m, "Could not determine user home directory"),
        other => panic!("unexpected {:?}", other),
    }
}

#[test]
fn autostart_without_executable_is_refused() {
    let mut r = req(TargetOs::Windows, true);
    r.executable = Err("not found".to_string());
    let (_, res) = drive(&r, vec![]);
    match res {
        Err(Error::Config(m)) => assert_eq!(m, "Failed to get current executable path: not found"),
        other => panic!("unexpected {:?}", other),
    }
}

#[test]
fn autostart_removal_only_when_entry_exists() {
    let (asked, r) = drive(&req(TargetOs::Linux, false), vec![ActionOutcome::Failed]);
    assert!(r.is_ok());
    assert_eq!(asked.len(), 1);
    let (asked, r) = drive(&req(TargetOs::MacOs, false), vec![ActionOutcome::Succeeded, ActionOutcome::Error("busy".to_string())]);
    assert!(r.is_ok());
    match &asked[1] {
        ServiceAction::RemoveFile(p) => assert_eq!(p, "/home/ana/Library/LaunchAgents/com.mailbackup.studio.plist"),
        other => panic!("unexpected {:?}", other),
    }
}

#[test]
fn windows_autostart_registry_value() {
    let (asked, r) = drive(&req(TargetOs::Windows, true), vec![ActionOutcome::Failed]);
    match &asked[0] {
        ServiceAction::Run(p, args) => {
            assert_eq!(p, "reg");
            assert_eq!(
                args,
                &vec![
                    "add",
                    r"HKCU\Software\Microsoft\Windows\CurrentVersion\Run",
                    "/v",
                    "MailBackupStudio",
                    "/t",
                    "REG_SZ",
                    "/d",
                    "\"/opt/mb/mailbackup-gui\"",
                    "/f"
                ]
            );
        }
        other => panic!("unexpected {:?}", other),
    }
    match r {
        Err(Error::Config(m)) => assert_eq!(m, "reg add command failed"),
        other => panic!("unexpected {:?}", other),
    }
    let (asked, r) = drive(&req(TargetOs::Windows, false), vec![ActionOutcome::Failed]);
    assert!(r.is_ok());
    match &asked[0] {
        ServiceAction::Run(_, args) => assert_eq!(args[0], "delete"),
        other => panic!("unexpected {:?}", other),
    }
}

#[test]
fn autostart_on_other_systems_does_nothing() {
    let (asked, r) = drive(&req(TargetOs::Other, true), vec![]);
    assert!(asked.is_empty());
    assert!(r.is_ok());
}
