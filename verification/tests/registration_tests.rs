use mailbackup_core::error::Error;
use mailbackup_core::registration::{service_step, ActionOutcome, ServiceAction, ServiceRequest, ServiceStage};
use mailbackup_core::service::TargetOs;

fn request(os: TargetOs, enabled: bool) -> ServiceRequest {
    ServiceRequest {
        os,
        enabled,
        server_exe: "/opt/mb/mailbackup-server".to_string(),
        config_path: "/home/u/.mailbackup/config.yaml".to_string(),
        base_dir: "/home/u/.mailbackup".to_string(),
        temp_dir: "/tmp".to_string(),
    }
}

fn describe(a: &ServiceAction) -> String {
    match a {
        ServiceAction::CreateDir(p) => format!("mkdir {}", p),
        ServiceAction::WriteFile(p, _) => format!("write {}", p),
        ServiceAction::CopyFile(f, t) => format!("copy {} {}", f, t),
        ServiceAction::RemoveFile(p) => format!("rm {}", p),
        ServiceAction::CheckExists(p) => format!("exists {}", p),
        ServiceAction::Run(p, args) => format!("{} {}", p, args.join(" ")),
        ServiceAction::Finish(_) => "finish".to_string(),
    }
}

/// Runs a registration with the given outcomes, one per action handed out;
/// returns what was asked for and how the run ended.
fn drive(req: &ServiceRequest, outcomes: Vec<ActionOutcome>) -> (Vec<String>, Result<(), Error>) {
    let mut stage = ServiceStage::Begin;
    let mut outcome = ActionOutcome::Succeeded;
    let mut asked = Vec::new();
    let mut rest = outcomes.into_iter();
    for _ in 0..20 {
        let (next, action) = service_step(req, stage, &outcome);
        if let ServiceAction::Finish(r) = action {
            assert_eq!(next, ServiceStage::Finished);
            return (asked, r);
        }
        asked.push(describe(&action));
        outcome = rest.next().unwrap_or(ActionOutcome::Succeeded);
        stage = next;
    }
    panic!("registration did not finish");
}

#[test]
fn linux_install_direct_path() {
    let (asked, r) = drive(&request(TargetOs::Linux, true), vec![]);
    assert!(r.is_ok());
    assert_eq!(
        asked,
        vec![
            "mkdir /home/u/.mailbackup/logs",
            "write /tmp/mailbackup.service",
            "copy /tmp/mailbackup.service /etc/systemd/system/mailbackup.service",
            "systemctl daemon-reload",
            "systemctl enable --now mailbackup.service",
            "rm /tmp/mailbackup.service",
        ]
    );
}

#[test]
fn linux_unit_content_names_executable_and_logs() {
    let req = request(TargetOs::Linux, true);
    let (_, a) = service_step(&req, ServiceStage::LogDirCreated, &ActionOutcome::Succeeded);
    match a {
        ServiceAction::WriteFile(_, content) => {
            assert!(content.contains("ExecStart=\"/opt/mb/mailbackup-server\" --config \"/home/u/.mailbackup/config.yaml\""));
            assert!(content.contains("StandardOutput=append:/home/u/.mailbackup/logs/service.log"));
            assert!(content.contains("StandardError=append:/home/u/.mailbackup/logs/service_err.log"));
        }
        other => panic!("unexpected {:?}", other),
    }
}

#[test]
fn linux_install_falls_back_to_pkexec_and_reports_refusal() {
    let outcomes = vec![
        ActionOutcome::Succeeded,
        ActionOutcome::Succeeded,
        ActionOutcome::Error("Permission denied (os error 13)".to_string()),
        ActionOutcome::Failed,
        ActionOutcome::Succeeded,
    ];
    let (asked, r) = drive(&request(TargetOs::Linux, true), outcomes);
    assert_eq!(
        asked[3],
        "pkexec sh -c cp '/tmp/mailbackup.service' '/etc/systemd/system/mailbackup.service' && systemctl daemon-reload && systemctl enable --now mailbackup.service"
    );
    assert_eq!(asked[4], "rm /tmp/mailbackup.service");
    match r {
        Err(Error::Config(m)) => assert_eq!(m, "Administrator authorization failed to install systemd service"),
        other => panic!("unexpected {:?}", other),
    }
}

#[test]
fn linux_install_stops_when_staging_fails() {
    let outcomes = vec![ActionOutcome::Succeeded, ActionOutcome::Error("No space left on device".to_string())];
    let (asked, r) = drive(&request(TargetOs::Linux, true), outcomes);
    assert_eq!(asked.len(), 2);
    match r {
        Err(Error::Io(m)) => assert_eq!(m, "No space left on device"),
        other => panic!("unexpected {:?}", other),
    }
}

#[test]
fn linux_remove_without_unit_does_nothing_more() {
    let outcomes = vec![ActionOutcome::Succeeded, ActionOutcome::Failed];
    let (asked, r) = drive(&request(TargetOs::Linux, false), outcomes);
    assert!(r.is_ok());
    assert_eq!(asked, vec!["mkdir /home/u/.mailbackup/logs", "exists /etc/systemd/system/mailbackup.service"]);
}

#[test]
fn linux_remove_ignores_failing_commands() {
    let outcomes = vec![
        ActionOutcome::Succeeded,
        ActionOutcome::Succeeded,
        ActionOutcome::Failed,
        ActionOutcome::Error("gone".to_string()),
        ActionOutcome::Failed,
    ];
    let (asked, r) = drive(&request(TargetOs::Linux, false), outcomes);
    assert!(r.is_ok());
    assert_eq!(
        &asked[2..],
        &[
            "systemctl disable --now mailbackup.service".to_string(),
            "rm /etc/systemd/system/mailbackup.service".to_string(),
            "systemctl daemon-reload".to_string(),
        ]
    );
}

#[test]
fn macos_install_elevates_when_copy_fails() {
    let outcomes = vec![
        ActionOutcome::Succeeded,
        ActionOutcome::Succeeded,
        ActionOutcome::Error("Permission denied".to_string()),
        ActionOutcome::Succeeded,
        ActionOutcome::Succeeded,
    ];
    let (asked, r) = drive(&request(TargetOs::MacOs, true), outcomes);
    assert!(r.is_ok());
    assert_eq!(asked[1], "write /tmp/mailbackup_service.plist");
    assert_eq!(
        asked[3],
        "osascript -e do shell script \"cp '/tmp/mailbackup_service.plist' '/Library/LaunchDaemons/com.mailbackup.service.plist' && chown root:wheel '/Library/LaunchDaemons/com.mailbackup.service.plist' && chmod 644 '/Library/LaunchDaemons/com.mailbackup.service.plist' && launchctl load -w '/Library/LaunchDaemons/com.mailbackup.service.plist'\" with administrator privileges"
    );
    assert_eq!(asked[4], "rm /tmp/mailbackup_service.plist");
}

#[test]
fn macos_install_reports_unstartable_elevation() {
    let outcomes = vec![
        ActionOutcome::Succeeded,
        ActionOutcome::Succeeded,
        ActionOutcome::Succeeded,
        ActionOutcome::Failed,
        ActionOutcome::Error("No such file or directory (os error 2)".to_string()),
    ];
    let (asked, r) = drive(&request(TargetOs::MacOs, true), outcomes);
    assert_eq!(asked[3], "launchctl load -w /Library/LaunchDaemons/com.mailbackup.service.plist");
    assert_eq!(asked.len(), 5);
    match r {
        Err(Error::Config(m)) => assert_eq!(m, "Failed to run elevation script: No such file or directory (os error 2)"),
        other => panic!("unexpected {:?}", other),
    }
}

#[test]
fn macos_remove_refused() {
    let outcomes = vec![
        ActionOutcome::Succeeded,
        ActionOutcome::Succeeded,
        ActionOutcome::Succeeded,
        ActionOutcome::Error("Permission denied".to_string()),
        ActionOutcome::Failed,
    ];
    let (asked, r) = drive(&request(TargetOs::MacOs, false), outcomes);
    assert_eq!(asked[2], "launchctl unload -w /Library/LaunchDaemons/com.mailbackup.service.plist");
    assert_eq!(asked[3], "rm /Library/LaunchDaemons/com.mailbackup.service.plist");
    match r {
        Err(Error::Config(m)) => {
            assert_eq!(m, "Administrator authorization was cancelled or failed to remove LaunchDaemon")
        }
        other => panic!("unexpected {:?}", other),
    }
}

#[test]
fn windows_install_then_start() {
    let (asked, r) = drive(&request(TargetOs::Windows, true), vec![]);
    assert!(r.is_ok());
    assert_eq!(
        asked[1],
        "schtasks /Create /TN MailBackupService /TR \"/opt/mb/mailbackup-server\" --config \"/home/u/.mailbackup/config.yaml\" /SC ONSTART /RU SYSTEM /RL HIGHEST /F"
    );
    assert_eq!(asked[2], "schtasks /Run /TN MailBackupService");
    assert_eq!(asked.len(), 3);
}

#[test]
fn windows_install_elevation_refused() {
    let outcomes = vec![ActionOutcome::Succeeded, ActionOutcome::Failed, ActionOutcome::Failed];
    let (asked, r) = drive(&request(TargetOs::Windows, true), outcomes);
    assert!(asked[2].starts_with("powershell -Command Start-Process schtasks -ArgumentList '/Create /TN \"MailBackupService\""));
    match r {
        Err(Error::Config(m)) => assert_eq!(m, "Administrator authorization failed to create Windows startup task"),
        other => panic!("unexpected {:?}", other),
    }
}

#[test]
fn windows_remove_falls_back_and_succeeds() {
    let outcomes = vec![ActionOutcome::Succeeded, ActionOutcome::Failed, ActionOutcome::Failed, ActionOutcome::Failed];
    let (asked, r) = drive(&request(TargetOs::Windows, false), outcomes);
    assert!(r.is_ok());
    assert_eq!(asked[1], "schtasks /End /TN MailBackupService");
    assert_eq!(asked[2], "schtasks /Delete /TN MailBackupService /F");
    assert_eq!(
        asked[3],
        "powershell -Command Start-Process schtasks -ArgumentList '/Delete /TN \"MailBackupService\" /F' -Verb RunAs -Wait"
    );
}

#[test]
fn unsupported_system_is_refused_after_log_dir() {
    let (asked, r) = drive(&request(TargetOs::Other, true), vec![]);
    assert_eq!(asked, vec!["mkdir /home/u/.mailbackup/logs"]);
    match r {
        Err(Error::Config(m)) => assert_eq!(m, "System service registration not supported on this operating system"),
        other => panic!("unexpected {:?}", other),
    }
}

#[test]
fn every_run_ends_within_nine_steps() {
    let patterns = [ActionOutcome::Succeeded, ActionOutcome::Failed, ActionOutcome::Error("x".to_string())];
    for os in [TargetOs::MacOs, TargetOs::Windows, TargetOs::Linux, TargetOs::Other] {
        for enabled in [true, false] {
            for p in &patterns {
                let req = request(os, enabled);
                let mut stage = ServiceStage::Begin;
                let mut steps = 0;
                loop {
                    let (next, action) = service_step(&req, stage, p);
                    steps += 1;
                    if let ServiceAction::Finish(_) = action {
                        break;
                    }
                    stage = next;
                }
                assert!(steps <= 9);
            }
        }
    }
}
