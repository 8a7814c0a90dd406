//! System service registration descriptors: launchd plists, systemd units,
//! Windows scheduled tasks and the shell commands that install them.

use crate::config::{default_base_dir, is_base_dir};
use crate::paths::{join_path, path_join};
use crate::text::{chars_of, contains_chars, contains_seq, lossy_text, str_eq, trim, trim_str, utf8_lossy};
use vstd::prelude::*;

verus! {

/// launchd label of the background service.
pub open spec fn service_identifier() -> Seq<char> {
    "com.mailbackup.service"@
}

/// Windows scheduled-task name of the background service.
pub open spec fn service_task_name() -> Seq<char> {
    "MailBackupService"@
}

/// systemd unit name of the background service.
pub open spec fn systemd_service_name() -> Seq<char> {
    "mailbackup.service"@
}

/// The operating system a descriptor is made for.
#[derive(Clone, Copy, Debug, PartialEq, Eq, Structural)]
pub enum TargetOs {
    MacOs,
    Windows,
    Linux,
    Other,
}

/// State of the system service registration.
#[derive(Clone, Debug)]
pub struct ServiceStatus {
    pub installed: bool,
    pub running: bool,
    pub service_type: String,
    pub details: Option<String>,
    pub manual_install_cmd: String,
    pub manual_uninstall_cmd: String,
}

/// Path of the macOS LaunchDaemon plist.
pub open spec fn launchdaemon_path() -> Seq<char> {
    path_join("/Library/LaunchDaemons"@, "com.mailbackup.service.plist"@)
}

/// Path of the systemd unit file.
pub open spec fn systemd_path() -> Seq<char> {
    path_join("/etc/systemd/system"@, "mailbackup.service"@)
}

/// Path of the macOS LaunchDaemon plist.
pub fn get_launchdaemon_path() -> (r: String)
    ensures
        r@ == launchdaemon_path(),
{
    join_path("/Library/LaunchDaemons", "com.mailbackup.service.plist")
}

/// Path of the systemd unit file.
pub fn get_systemd_path() -> (r: String)
    ensures
        r@ == systemd_path(),
{
    join_path("/etc/systemd/system", "mailbackup.service")
}

/// The LaunchDaemon plist that runs the server with a configuration file and
/// the given log files.
pub open spec fn macos_plist(exe: Seq<char>, config: Seq<char>, out_log: Seq<char>, err_log: Seq<char>) -> Seq<char> {
    "<?xml version=\"1.0\" encoding=\"UTF-8\"?>\n<!DOCTYPE plist PUBLIC \"-//Apple//DTD PLIST 1.0//EN\" \"http://www.apple.com/DTDs/PropertyList-1.0.dtd\">\n<plist version=\"1.0\">\n<dict>\n    <key>Label</key>\n    <string>"@ + "com.mailbackup.service"@ + "</string>\n    <key>ProgramArguments</key>\n    <array>\n        <string>"@ + exe + "</string>\n        <string>--config</string>\n        <string>"@ + config + "</string>\n    </array>\n    <key>RunAtLoad</key>\n    <true/>\n    <key>KeepAlive</key>\n    <true/>\n    <key>StandardOutPath</key>\n    <string>"@ + out_log + "</string>\n    <key>StandardErrorPath</key>\n    <string>"@ + err_log + "</string>\n</dict>\n</plist>\n"@
}

/// Builds `macos_plist`.
pub fn macos_plist_text(exe: &str, config: &str, out_log: &str, err_log: &str) -> (r: String)
    ensures
        r@ == macos_plist(exe@, config@, out_log@, err_log@),
{
    String::from_str("<?xml version=\"1.0\" encoding=\"UTF-8\"?>\n<!DOCTYPE plist PUBLIC \"-//Apple//DTD PLIST 1.0//EN\" \"http://www.apple.com/DTDs/PropertyList-1.0.dtd\">\n<plist version=\"1.0\">\n<dict>\n    <key>Label</key>\n    <string>").concat("com.mailbackup.service").concat("</string>\n    <key>ProgramArguments</key>\n    <array>\n        <string>").concat(exe).concat("</string>\n        <string>--config</string>\n        <string>").concat(config).concat("</string>\n    </array>\n    <key>RunAtLoad</key>\n    <true/>\n    <key>KeepAlive</key>\n    <true/>\n    <key>StandardOutPath</key>\n    <string>").concat(out_log).concat("</string>\n    <key>StandardErrorPath</key>\n    <string>").concat(err_log).concat("</string>\n</dict>\n</plist>\n")
}

/// The systemd unit that runs the server with a configuration file and the
/// given log files.
pub open spec fn linux_systemd(exe: Seq<char>, config: Seq<char>, out_log: Seq<char>, err_log: Seq<char>) -> Seq<char> {
    "[Unit]\nDescription=MailBackup Studio Headless Service\nAfter=network.target\n\n[Service]\nType=simple\nExecStart=\""@ + exe + "\" --config \""@ + config + "\"\nRestart=always\nRestartSec=10\nStandardOutput=append:"@ + out_log + "\nStandardError=append:"@ + err_log + "\n\n[Install]\nWantedBy=multi-user.target\n"@
}

/// Builds `linux_systemd`.
pub fn linux_systemd_text(exe: &str, config: &str, out_log: &str, err_log: &str) -> (r: String)
    ensures
        r@ == linux_systemd(exe@, config@, out_log@, err_log@),
{
    String::from_str("[Unit]\nDescription=MailBackup Studio Headless Service\nAfter=network.target\n\n[Service]\nType=simple\nExecStart=\"").concat(exe).concat("\" --config \"").concat(config).concat("\"\nRestart=always\nRestartSec=10\nStandardOutput=append:").concat(out_log).concat("\nStandardError=append:").concat(err_log).concat("\n\n[Install]\nWantedBy=multi-user.target\n")
}

/// The service log files under a base directory.
pub open spec fn service_logs(base: Seq<char>) -> (Seq<char>, Seq<char>) {
    let d = path_join(base, "logs"@);
    (path_join(d, "service.log"@), path_join(d, "service_err.log"@))
}

fn service_log_paths() -> (r: (String, String))
    ensures
        exists|b: Seq<char>| is_base_dir(b) && (r.0@, r.1@) == service_logs(b),
{
    let b = default_base_dir();
    let d = join_path(b.as_str(), "logs");
    (join_path(d.as_str(), "service.log"), join_path(d.as_str(), "service_err.log"))
}

/// The LaunchDaemon plist for the server, logging under the base directory.
pub fn generate_macos_plist(server_exe: &str, config_path: &str) -> (r: String)
    ensures
        exists|b: Seq<char>|
            is_base_dir(b) && r@ == macos_plist(server_exe@, config_path@, service_logs(b).0, service_logs(b).1),
{
    let (out_log, err_log) = service_log_paths();
    macos_plist_text(server_exe, config_path, out_log.as_str(), err_log.as_str())
}

/// The systemd unit for the server, logging under the base directory.
pub fn generate_linux_systemd(server_exe: &str, config_path: &str) -> (r: String)
    ensures
        exists|b: Seq<char>|
            is_base_dir(b) && r@ == linux_systemd(server_exe@, config_path@, service_logs(b).0, service_logs(b).1),
{
    let (out_log, err_log) = service_log_paths();
    linux_systemd_text(server_exe, config_path, out_log.as_str(), err_log.as_str())
}

/// The shell command that installs the service on `os`, given the unit or
/// plist text for macOS and Linux.
pub open spec fn install_command(os: TargetOs, exe: Seq<char>, config: Seq<char>, unit: Seq<char>) -> Seq<char> {
    match os {
        TargetOs::MacOs => "sudo bash -c 'cat << \"EOF\" > "@ + launchdaemon_path() + "\n"@ + unit + "\nEOF\nchown root:wheel "@ + launchdaemon_path() + "\nchmod 644 "@ + launchdaemon_path() + "\nlaunchctl load -w "@ + launchdaemon_path() + "'"@,
        TargetOs::Windows => "schtasks /Create /TN \""@ + "MailBackupService"@ + "\" /TR \"\\\""@ + exe + "\\\" --config \\\""@ + config + "\\\"\" /SC ONSTART /RU SYSTEM /RL HIGHEST /F\nschtasks /Run /TN \""@ + "MailBackupService"@ + "\""@,
        TargetOs::Linux => "sudo bash -c 'cat << \"EOF\" > "@ + systemd_path() + "\n"@ + unit + "\nEOF\nsystemctl daemon-reload\nsystemctl enable --now "@ + "mailbackup.service"@ + "'"@,
        TargetOs::Other => exe + " --config "@ + config,
    }
}

/// The shell command that removes the service on `os`.
pub open spec fn uninstall_command(os: TargetOs) -> Seq<char> {
    match os {
        TargetOs::MacOs => "sudo launchctl unload -w "@ + launchdaemon_path() + " && sudo rm -f "@ + launchdaemon_path(),
        TargetOs::Windows => "schtasks /End /TN \""@ + "MailBackupService"@ + "\" & schtasks /Delete /TN \""@ + "MailBackupService"@ + "\" /F"@,
        TargetOs::Linux => "sudo systemctl disable --now "@ + "mailbackup.service"@ + " && sudo rm -f "@ + systemd_path() + " && sudo systemctl daemon-reload"@,
        TargetOs::Other => "echo Unsupported"@,
    }
}

/// The manual installation command shown to the user on `os`.
pub fn get_manual_install_command(os: TargetOs, server_exe: &str, config_path: &str) -> (r: String)
    ensures
        os == TargetOs::MacOs ==> exists|b: Seq<char>|
            is_base_dir(b) && r@ == install_command(
                os,
                server_exe@,
                config_path@,
                macos_plist(server_exe@, config_path@, service_logs(b).0, service_logs(b).1),
            ),
        os == TargetOs::Linux ==> exists|b: Seq<char>|
            is_base_dir(b) && r@ == install_command(
                os,
                server_exe@,
                config_path@,
                linux_systemd(server_exe@, config_path@, service_logs(b).0, service_logs(b).1),
            ),
        os == TargetOs::Windows || os == TargetOs::Other ==> r@ == install_command(
            os,
            server_exe@,
            config_path@,
            Seq::empty(),
        ),
{
    match os {
        TargetOs::MacOs => {
            let plist_path = get_launchdaemon_path();
            let unit = generate_macos_plist(server_exe, config_path);
            String::from_str("sudo bash -c 'cat << \"EOF\" > ").concat(plist_path.as_str()).concat("\n").concat(unit.as_str()).concat("\nEOF\nchown root:wheel ").concat(plist_path.as_str()).concat("\nchmod 644 ").concat(plist_path.as_str()).concat("\nlaunchctl load -w ").concat(plist_path.as_str()).concat("'")
        },
        TargetOs::Windows => {
            String::from_str("schtasks /Create /TN \"").concat("MailBackupService").concat("\" /TR \"\\\"").concat(server_exe).concat("\\\" --config \\\"").concat(config_path).concat("\\\"\" /SC ONSTART /RU SYSTEM /RL HIGHEST /F\nschtasks /Run /TN \"").concat("MailBackupService").concat("\"")
        },
        TargetOs::Linux => {
            let service_path = get_systemd_path();
            let unit = generate_linux_systemd(server_exe, config_path);
            String::from_str("sudo bash -c 'cat << \"EOF\" > ").concat(service_path.as_str()).concat("\n").concat(unit.as_str()).concat("\nEOF\nsystemctl daemon-reload\nsystemctl enable --now ").concat("mailbackup.service").concat("'")
        },
        TargetOs::Other => {
            String::from_str(server_exe).concat(" --config ").concat(config_path)
        },
    }
}

/// The manual removal command shown to the user on `os`.
pub fn get_manual_uninstall_command(os: TargetOs) -> (r: String)
    ensures
        r@ == uninstall_command(os),
{
    match os {
        TargetOs::MacOs => {
            let plist_path = get_launchdaemon_path();
            String::from_str("sudo launchctl unload -w ").concat(plist_path.as_str()).concat(" && sudo rm -f ").concat(plist_path.as_str())
        },
        TargetOs::Windows => {
            String::from_str("schtasks /End /TN \"").concat("MailBackupService").concat("\" & schtasks /Delete /TN \"").concat("MailBackupService").concat("\" /F")
        },
        TargetOs::Linux => {
            let service_path = get_systemd_path();
            String::from_str("sudo systemctl disable --now ").concat("mailbackup.service").concat(" && sudo rm -f ").concat(service_path.as_str()).concat(" && sudo systemctl daemon-reload")
        },
        TargetOs::Other => String::from_str("echo Unsupported"),
    }
}

/// AppleScript that copies the staged plist into place as root and loads it.
pub open spec fn macos_install_script(tmp: Seq<char>, p: Seq<char>) -> Seq<char> {
    "do shell script \"cp '"@ + tmp + "' '"@ + p + "' && chown root:wheel '"@ + p + "' && chmod 644 '"@ + p + "' && launchctl load -w '"@ + p + "'\" with administrator privileges"@
}

/// Builds `macos_install_script`.
pub fn macos_install_script_text(tmp: &str, p: &str) -> (r: String)
    ensures
        r@ == macos_install_script(tmp@, p@),
{
    String::from_str("do shell script \"cp '").concat(tmp).concat("' '").concat(p).concat("' && chown root:wheel '").concat(p).concat("' && chmod 644 '").concat(p).concat("' && launchctl load -w '").concat(p).concat("'\" with administrator privileges")
}

/// AppleScript that unloads and removes the LaunchDaemon as root.
pub open spec fn macos_remove_script(p: Seq<char>) -> Seq<char> {
    "do shell script \"launchctl unload -w '"@ + p + "' && rm -f '"@ + p + "'\" with administrator privileges"@
}

/// Builds `macos_remove_script`.
pub fn macos_remove_script_text(p: &str) -> (r: String)
    ensures
        r@ == macos_remove_script(p@),
{
    String::from_str("do shell script \"launchctl unload -w '").concat(p).concat("' && rm -f '").concat(p).concat("'\" with administrator privileges")
}

/// The command the startup task runs: the quoted server executable with its configuration file.
pub open spec fn windows_task_command(exe: Seq<char>, cfg: Seq<char>) -> Seq<char> {
    "\""@ + exe + "\" --config \""@ + cfg + "\""@
}

/// Builds `windows_task_command`.
pub fn windows_task_command_text(exe: &str, cfg: &str) -> (r: String)
    ensures
        r@ == windows_task_command(exe@, cfg@),
{
    String::from_str("\"").concat(exe).concat("\" --config \"").concat(cfg).concat("\"")
}

/// PowerShell command that creates the startup task with administrator rights.
pub open spec fn windows_elevated_create(exe: Seq<char>, cfg: Seq<char>) -> Seq<char> {
    "Start-Process schtasks -ArgumentList '/Create /TN \""@ + "MailBackupService"@ + "\" /TR \"\\\""@ + exe + "\\\" --config \\\""@ + cfg + "\\\"\" /SC ONSTART /RU SYSTEM /RL HIGHEST /F' -Verb RunAs -Wait"@
}

/// Builds `windows_elevated_create`.
pub fn windows_elevated_create_text(exe: &str, cfg: &str) -> (r: String)
    ensures
        r@ == windows_elevated_create(exe@, cfg@),
{
    String::from_str("Start-Process schtasks -ArgumentList '/Create /TN \"").concat("MailBackupService").concat("\" /TR \"\\\"").concat(exe).concat("\\\" --config \\\"").concat(cfg).concat("\\\"\" /SC ONSTART /RU SYSTEM /RL HIGHEST /F' -Verb RunAs -Wait")
}

/// Shell command that installs, enables and starts the systemd unit as root.
pub open spec fn linux_elevated_install(tmp: Seq<char>, p: Seq<char>) -> Seq<char> {
    "cp '"@ + tmp + "' '"@ + p + "' && systemctl daemon-reload && systemctl enable --now "@ + "mailbackup.service"@
}

/// Builds `linux_elevated_install`.
pub fn linux_elevated_install_text(tmp: &str, p: &str) -> (r: String)
    ensures
        r@ == linux_elevated_install(tmp@, p@),
{
    String::from_str("cp '").concat(tmp).concat("' '").concat(p).concat("' && systemctl daemon-reload && systemctl enable --now ").concat("mailbackup.service")
}

/// The kind of service registration on each system.
pub open spec fn service_type_name(os: TargetOs) -> Seq<char> {
    match os {
        TargetOs::MacOs => "macOS LaunchDaemon"@,
        TargetOs::Windows => "Windows Startup Task (SYSTEM)"@,
        TargetOs::Linux => "Linux systemd Service"@,
        TargetOs::Other => "Unsupported"@,
    }
}

/// Whether the service is installed and running, and the details shown,
/// from what the system reports: whether the descriptor file exists (macOS,
/// Linux), and the exit status and output of the status command, when it
/// ran (`launchctl list`, `schtasks /Query`, `systemctl is-active`).
pub open spec fn service_state(os: TargetOs, file_exists: bool, probe: Option<(bool, Seq<u8>)>) -> (
    bool,
    bool,
    Option<Seq<char>>,
) {
    match os {
        TargetOs::MacOs => if !file_exists {
            (false, false, Some("LaunchDaemon not installed. Run at boot without user login is disabled."@))
        } else {
            match probe {
                Some((ok, _)) => (
                    true,
                    ok,
                    Some(
                        if ok {
                            "Service registered and running via macOS launchd LaunchDaemon"@
                        } else {
                            "LaunchDaemon plist exists but service is not currently running"@
                        },
                    ),
                ),
                None => (true, false, None),
            }
        },
        TargetOs::Windows => match probe {
            Some((true, out)) => {
                let running = contains_seq(lossy_text(out), "Running"@);
                (
                    true,
                    running,
                    Some(
                        if running {
                            "Startup background task is active under SYSTEM account"@
                        } else {
                            "Startup background task is registered (Idle/Scheduled)"@
                        },
                    ),
                )
            },
            _ => (false, false, Some("Windows service background task is not registered"@)),
        },
        TargetOs::Linux => if !file_exists {
            (false, false, Some("systemd service file does not exist"@))
        } else {
            match probe {
                Some((_, out)) => {
                    let t = trim(lossy_text(out));
                    (true, t == "active"@, Some("systemd status: "@ + t))
                },
                None => (true, false, None),
            }
        },
        TargetOs::Other => (false, false, Some("System services are not supported on this OS"@)),
    }
}

fn service_state_exec(os: TargetOs, file_exists: bool, probe: Option<(bool, Vec<u8>)>) -> (r: (bool, bool, Option<String>))
    ensures
        (r.0, r.1, r.2.deep_view()) == service_state(os, file_exists, probe.deep_view()),
{
    match os {
        TargetOs::MacOs => {
            if !file_exists {
                return (false, false, Some(String::from_str("LaunchDaemon not installed. Run at boot without user login is disabled.")));
            }
            match probe {
                Some((ok, _)) => {
                    let d = if ok {
                        String::from_str("Service registered and running via macOS launchd LaunchDaemon")
                    } else {
                        String::from_str("LaunchDaemon plist exists but service is not currently running")
                    };
                    (true, ok, Some(d))
                },
                None => (true, false, None),
            }
        },
        TargetOs::Windows => {
            match probe {
                Some((ok, out)) => {
                    if !ok {
                        return (false, false, Some(String::from_str("Windows service background task is not registered")));
                    }
                    assert(out.deep_view() =~= out@);
                    let text = utf8_lossy(out.as_slice());
                    let running = contains_chars(&chars_of(text.as_str()), &chars_of("Running"));
                    let d = if running {
                        String::from_str("Startup background task is active under SYSTEM account")
                    } else {
                        String::from_str("Startup background task is registered (Idle/Scheduled)")
                    };
                    (true, running, Some(d))
                },
                None => (false, false, Some(String::from_str("Windows service background task is not registered"))),
            }
        },
        TargetOs::Linux => {
            if !file_exists {
                return (false, false, Some(String::from_str("systemd service file does not exist")));
            }
            match probe {
                Some((_, out)) => {
                    assert(out.deep_view() =~= out@);
                    let text = utf8_lossy(out.as_slice());
                    let trimmed = trim_str(text.as_str());
                    let running = str_eq(trimmed.as_str(), "active");
                    (true, running, Some(String::from_str("systemd status: ").concat(trimmed.as_str())))
                },
                None => (true, false, None),
            }
        },
        TargetOs::Other => (false, false, Some(String::from_str("System services are not supported on this OS"))),
    }
}

/// The service status from what the system reports (see `service_state`)
/// and the manual commands shown beside it.
pub fn service_status_from(
    os: TargetOs,
    file_exists: bool,
    probe: Option<(bool, Vec<u8>)>,
    manual_install_cmd: String,
    manual_uninstall_cmd: String,
) -> (r: ServiceStatus)
    ensures
        (r.installed, r.running, r.details.deep_view()) == service_state(os, file_exists, probe.deep_view()),
        r.service_type@ == service_type_name(os),
        r.manual_install_cmd == manual_install_cmd,
        r.manual_uninstall_cmd == manual_uninstall_cmd,
{
    let (installed, running, details) = service_state_exec(os, file_exists, probe);
    let service_type = match os {
        TargetOs::MacOs => String::from_str("macOS LaunchDaemon"),
        TargetOs::Windows => String::from_str("Windows Startup Task (SYSTEM)"),
        TargetOs::Linux => String::from_str("Linux systemd Service"),
        TargetOs::Other => String::from_str("Unsupported"),
    };
    ServiceStatus { installed, running, service_type, details, manual_install_cmd, manual_uninstall_cmd }
}

} // verus!
