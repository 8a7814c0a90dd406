use mailbackup_core::autostart::is_autostart_supported;
use mailbackup_core::config::AppConfig;
use mailbackup_core::service::{
    generate_linux_systemd, get_manual_install_command, get_manual_uninstall_command, linux_elevated_install_text,
    macos_install_script_text, service_status_from, windows_task_command_text, TargetOs,
};

#[test]
fn test_service_manual_commands_name_the_config() {
    let default_config = AppConfig::default();
    assert!(!default_config.settings.run_as_service);
    for os in [TargetOs::MacOs, TargetOs::Windows, TargetOs::Linux, TargetOs::Other] {
        let cmd = get_manual_install_command(os, "/usr/local/bin/mailbackup-server", "/custom/config.yaml");
        assert!(cmd.contains("config.yaml"));
        let uninst = get_manual_uninstall_command(os);
        assert!(!uninst.is_empty());
    }
    assert_eq!(
        get_manual_uninstall_command(TargetOs::Linux),
        "sudo systemctl disable --now mailbackup.service && sudo rm -f /etc/systemd/system/mailbackup.service && sudo systemctl daemon-reload"
    );
}

#[test]
fn status_from_what_the_system_reports() {
    let s = service_status_from(TargetOs::Linux, true, Some((true, b"active\n".to_vec())), "i".into(), "u".into());
    assert!(s.installed && s.running);
    assert_eq!(s.details.as_deref(), Some("systemd status: active"));
    assert_eq!(s.service_type, "Linux systemd Service");
    let s = service_status_from(TargetOs::Linux, true, Some((false, b"inactive\n".to_vec())), "i".into(), "u".into());
    assert!(s.installed && !s.running);
    let s = service_status_from(TargetOs::Linux, false, None, "i".into(), "u".into());
    assert!(!s.installed);
    assert_eq!(s.details.as_deref(), Some("systemd service file does not exist"));
    let s = service_status_from(TargetOs::Windows, false, Some((true, b"MailBackupService  Running".to_vec())), "i".into(), "u".into());
    assert!(s.installed && s.running);
    let s = service_status_from(TargetOs::Windows, false, Some((false, Vec::new())), "i".into(), "u".into());
    assert!(!s.installed);
    let s = service_status_from(TargetOs::MacOs, true, Some((false, Vec::new())), "i".into(), "u".into());
    assert!(s.installed && !s.running);
    let s = service_status_from(TargetOs::Other, true, None, "i".into(), "u".into());
    assert_eq!(s.service_type, "Unsupported");
    assert_eq!(s.manual_install_cmd, "i");
    assert_eq!(s.manual_uninstall_cmd, "u");
}

#[test]
fn elevation_commands_embed_the_paths() {
    assert_eq!(windows_task_command_text("C:\\mb.exe", "C:\\c.yaml"), "\"C:\\mb.exe\" --config \"C:\\c.yaml\"");
    assert_eq!(
        linux_elevated_install_text("/tmp/u", "/etc/systemd/system/mailbackup.service"),
        "cp '/tmp/u' '/etc/systemd/system/mailbackup.service' && systemctl daemon-reload && systemctl enable --now mailbackup.service"
    );
    assert!(macos_install_script_text("/tmp/p", "/L/p.plist").contains("launchctl load -w '/L/p.plist'"));
    let unit = generate_linux_systemd("/usr/bin/mb", "/etc/mb.yaml");
    assert!(unit.contains("ExecStart=\"/usr/bin/mb\" --config \"/etc/mb.yaml\""));
}

#[test]
fn test_autostart_config_defaults_in_library() {
    let default_config = AppConfig::default();
    assert!(!default_config.settings.autostart);
    assert!(!default_config.settings.run_as_service);
    assert!(is_autostart_supported(TargetOs::Linux));
    assert!(!is_autostart_supported(TargetOs::Other));
}
