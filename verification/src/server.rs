//! The decisions behind the web interface: sync status reports, settings
//! updates, service toggling and bulk account import.

use crate::config::{
    accounts_kept, default_excluded_folders, provider_for_name, provider_from_name, resolve_path_with_home, resolved_path,
    AccountConfig, AppConfig, AuthType, FolderFilter, GlobalSettings,
};
use crate::storage::{slug, StorageEngine};
use crate::text::lowercase;
use crate::event_log::LogEntry;
use crate::imap::SyncProgress;
use crate::paths::{path_eq, paths_equal};
use crate::service::ServiceStatus;
use crate::text::{decimal, decimal_text, str_eq, trim, trim_str};
use vstd::prelude::*;

verus! {

/// What the interface shows of an account's sync.
#[derive(Clone, Debug)]
pub struct SyncStatus {
    pub account_id: String,
    pub account_name: String,
    pub is_syncing: bool,
    pub current_folder: String,
    pub total_messages: u32,
    pub processed_messages: u32,
    pub downloaded_bytes: u64,
    pub status: String,
    pub error: Option<String>,
}

/// What happened to a sync.
pub enum SyncEvent {
    /// The sync was started and is connecting.
    Connecting,
    /// The sync reported progress.
    Progress(SyncProgress),
    /// The sync finished with this progress.
    Finished(SyncProgress),
    /// The sync failed with this message.
    Failed(String),
}

/// The status shown after an event of an account's sync.
pub open spec fn sync_status_spec(account_id: Seq<char>, account_name: Seq<char>, event: SyncEvent, s: SyncStatus) -> bool {
    &&& s.account_id@ == account_id
    &&& s.account_name@ == account_name
    &&& match event {
        SyncEvent::Connecting => s.is_syncing && s.current_folder@ == "Connecting to IMAP..."@ && s.total_messages == 0
            && s.processed_messages == 0 && s.downloaded_bytes == 0 && s.status@ == "connecting"@ && s.error is None,
        SyncEvent::Progress(p) => s.is_syncing && s.current_folder@ == p.current_folder@ && s.total_messages
            == p.total_messages && s.processed_messages == p.processed_messages && s.downloaded_bytes
            == p.downloaded_bytes && s.status@ == "syncing"@ && s.error is None,
        SyncEvent::Finished(p) => !s.is_syncing && s.current_folder@ == "Finished"@ && s.total_messages
            == p.total_messages && s.processed_messages == p.processed_messages && s.downloaded_bytes
            == p.downloaded_bytes && s.status@ == "completed"@ && s.error is None,
        SyncEvent::Failed(e) => !s.is_syncing && s.current_folder@ == "Failed"@ && s.total_messages == 0
            && s.processed_messages == 0 && s.downloaded_bytes == 0 && s.status@ == "failed"@ && s.error.deep_view()
            == Some(e@),
    }
}

/// The status shown after an event of an account's sync.
pub fn sync_status_for(account_id: &str, account_name: &str, event: SyncEvent) -> (r: SyncStatus)
    ensures
        sync_status_spec(account_id@, account_name@, event, r),
{
    let id = String::from_str(account_id);
    let name = String::from_str(account_name);
    match event {
        SyncEvent::Connecting => SyncStatus {
            account_id: id,
            account_name: name,
            is_syncing: true,
            current_folder: String::from_str("Connecting to IMAP..."),
            total_messages: 0,
            processed_messages: 0,
            downloaded_bytes: 0,
            status: String::from_str("connecting"),
            error: None,
        },
        SyncEvent::Progress(p) => SyncStatus {
            account_id: id,
            account_name: name,
            is_syncing: true,
            current_folder: p.current_folder,
            total_messages: p.total_messages,
            processed_messages: p.processed_messages,
            downloaded_bytes: p.downloaded_bytes,
            status: String::from_str("syncing"),
            error: None,
        },
        SyncEvent::Finished(p) => SyncStatus {
            account_id: id,
            account_name: name,
            is_syncing: false,
            current_folder: String::from_str("Finished"),
            total_messages: p.total_messages,
            processed_messages: p.processed_messages,
            downloaded_bytes: p.downloaded_bytes,
            status: String::from_str("completed"),
            error: None,
        },
        SyncEvent::Failed(e) => SyncStatus {
            account_id: id,
            account_name: name,
            is_syncing: false,
            current_folder: String::from_str("Failed"),
            total_messages: 0,
            processed_messages: 0,
            downloaded_bytes: 0,
            status: String::from_str("failed"),
            error: Some(e),
        },
    }
}

/// The status shown for a report of the backup scheduler: `started`,
/// `syncing` and `completed` (the latter two with the progress) and `error`
/// (with its message, if any); any other report changes nothing.
pub open spec fn scheduler_status_spec(
    account_id: Seq<char>,
    account_name: Seq<char>,
    status: Seq<char>,
    progress: Option<SyncProgress>,
    err: Option<Seq<char>>,
    r: Option<SyncStatus>,
) -> bool {
    if status == "started"@ {
        r matches Some(s) && s.account_id@ == account_id && s.account_name@ == account_name && s.is_syncing
            && s.current_folder@ == "Starting..."@ && s.total_messages == 0 && s.processed_messages == 0
            && s.downloaded_bytes == 0 && s.status@ == "syncing"@ && s.error is None
    } else if status == "syncing"@ {
        match progress {
            Some(p) => r matches Some(s) && sync_status_spec(account_id, account_name, SyncEvent::Progress(p), s),
            None => r is None,
        }
    } else if status == "completed"@ {
        match progress {
            Some(p) => r matches Some(s) && sync_status_spec(account_id, account_name, SyncEvent::Finished(p), s),
            None => r is None,
        }
    } else if status == "error"@ {
        r matches Some(s) && s.account_id@ == account_id && s.account_name@ == account_name && !s.is_syncing
            && s.current_folder@ == "Failed"@ && s.total_messages == 0 && s.processed_messages == 0
            && s.downloaded_bytes == 0 && s.status@ == "failed"@ && s.error.deep_view() == err
    } else {
        r is None
    }
}

fn copy_progress(p: &SyncProgress) -> (r: SyncProgress)
    ensures
        r == *p,
{
    SyncProgress {
        account_id: p.account_id.clone(),
        current_folder: p.current_folder.clone(),
        total_messages: p.total_messages,
        processed_messages: p.processed_messages,
        downloaded_bytes: p.downloaded_bytes,
    }
}

/// The status to show for a report of the backup scheduler, or `None` when
/// the report changes nothing.
pub fn scheduler_status(
    account_id: &str,
    account_name: &str,
    status: &str,
    progress: Option<&SyncProgress>,
    err: Option<&str>,
) -> (r: Option<SyncStatus>)
    ensures
        scheduler_status_spec(
            account_id@,
            account_name@,
            status@,
            match progress {
                Some(p) => Some(*p),
                None => None,
            },
            match err {
                Some(e) => Some(e@),
                None => None,
            },
            r,
        ),
{
    if str_eq(status, "started") {
        Some(
            SyncStatus {
                account_id: String::from_str(account_id),
                account_name: String::from_str(account_name),
                is_syncing: true,
                current_folder: String::from_str("Starting..."),
                total_messages: 0,
                processed_messages: 0,
                downloaded_bytes: 0,
                status: String::from_str("syncing"),
                error: None,
            },
        )
    } else if str_eq(status, "syncing") {
        match progress {
            Some(p) => Some(sync_status_for(account_id, account_name, SyncEvent::Progress(copy_progress(p)))),
            None => None,
        }
    } else if str_eq(status, "completed") {
        match progress {
            Some(p) => Some(sync_status_for(account_id, account_name, SyncEvent::Finished(copy_progress(p)))),
            None => None,
        }
    } else if str_eq(status, "error") {
        Some(
            SyncStatus {
                account_id: String::from_str(account_id),
                account_name: String::from_str(account_name),
                is_syncing: false,
                current_folder: String::from_str("Failed"),
                total_messages: 0,
                processed_messages: 0,
                downloaded_bytes: 0,
                status: String::from_str("failed"),
                error: match err {
                    Some(e) => Some(String::from_str(e)),
                    None => None,
                },
            },
        )
    } else {
        None
    }
}

/// The settings the interface shows.
#[derive(Clone, Debug)]
pub struct SettingsResponse {
    pub data_dir: String,
    pub db_path: String,
    pub default_schedule: String,
    pub default_retention_days: Option<u32>,
    pub notifications_enabled: bool,
    pub web_port: u16,
    pub close_to_tray: bool,
    pub autostart: bool,
    pub run_as_service: bool,
    pub service_status: ServiceStatus,
    pub default_export_dir: String,
    pub version: String,
}

/// A settings change asked for by the interface.
#[derive(Clone, Debug)]
pub struct UpdateSettingsPayload {
    pub data_dir: Option<String>,
    pub move_existing: Option<bool>,
    pub db_path: Option<String>,
    pub move_db_existing: Option<bool>,
    pub close_to_tray: Option<bool>,
    pub autostart: Option<bool>,
    pub run_as_service: Option<bool>,
}

/// The answer to a settings change.
#[derive(Clone, Debug)]
pub struct UpdateSettingsResponse {
    pub success: bool,
    pub data_dir: String,
    pub db_path: String,
    pub migrated_files: u64,
    pub close_to_tray: bool,
    pub autostart: bool,
    pub run_as_service: bool,
    pub service_status: ServiceStatus,
    pub message: String,
}

/// A request to install or remove the system service.
#[derive(Clone, Copy, Debug)]
pub struct ServiceTogglePayload {
    pub enabled: bool,
}

/// The answer to a service toggle.
#[derive(Clone, Debug)]
pub struct ServiceToggleResponse {
    pub success: bool,
    pub enabled: bool,
    pub service_status: ServiceStatus,
    pub message: String,
}

/// The event log as the interface shows it.
#[derive(Clone, Debug)]
pub struct LogsResponse {
    pub logs: Vec<LogEntry>,
    pub raw: String,
    pub path: String,
}

/// A move of the archive or of the catalogue: the target path, and whether
/// the existing files go along.
pub type Relocation = (String, bool);

/// The moves a settings change calls for.
pub struct SettingsPlan {
    pub storage_move: Option<Relocation>,
    pub db_move: Option<Relocation>,
}

/// The move a requested location calls for: none when the request is
/// absent or blank, or resolves to the current location.
pub open spec fn relocation_spec(
    requested: Option<Seq<char>>,
    move_existing: Option<bool>,
    current: Seq<char>,
    home: Option<Seq<char>>,
) -> Option<(Seq<char>, bool)> {
    match requested {
        Some(raw) => {
            let t = trim(raw);
            let target = resolved_path(t, home);
            if t.len() == 0 || path_eq(target, current) {
                None
            } else {
                Some(
                    (
                        target,
                        match move_existing {
                            Some(b) => b,
                            None => true,
                        },
                    ),
                )
            }
        },
        None => None,
    }
}

/// The view of a planned move.
pub open spec fn relocation_view(r: Option<Relocation>) -> Option<(Seq<char>, bool)> {
    match r {
        Some((p, b)) => Some((p@, b)),
        None => None,
    }
}

fn relocation(requested: &Option<String>, move_existing: Option<bool>, current: &str, home: &Option<String>) -> (r:
    Option<Relocation>)
    ensures
        relocation_view(r) == relocation_spec(requested.deep_view(), move_existing, current@, home.deep_view()),
{
    match requested {
        Some(raw) => {
            let t = trim_str(raw.as_str());
            if t.as_str().is_empty() {
                return None;
            }
            let target = resolve_path_with_home(raw.as_str(), home.clone());
            proof {
                crate::text::lemma_trim_idempotent(raw@);
            }
            if paths_equal(target.as_str(), current) {
                None
            } else {
                let m = match move_existing {
                    Some(b) => b,
                    None => true,
                };
                Some((target, m))
            }
        },
        None => None,
    }
}

/// Decides which moves a settings change calls for, given the current
/// archive and catalogue locations and the home directory that `~` stands
/// for. Existing files move along unless the change says otherwise.
pub fn plan_settings_update(
    payload: &UpdateSettingsPayload,
    current_data_dir: &str,
    current_db_path: &str,
    home: Option<String>,
) -> (r: SettingsPlan)
    ensures
        relocation_view(r.storage_move) == relocation_spec(
            payload.data_dir.deep_view(),
            payload.move_existing,
            current_data_dir@,
            home.deep_view(),
        ),
        relocation_view(r.db_move) == relocation_spec(
            payload.db_path.deep_view(),
            payload.move_db_existing,
            current_db_path@,
            home.deep_view(),
        ),
{
    let storage_move = relocation(&payload.data_dir, payload.move_existing, current_data_dir, &home);
    let db_move = relocation(&payload.db_path, payload.move_db_existing, current_db_path, &home);
    SettingsPlan { storage_move, db_move }
}

/// Applies a settings change to the configuration, once the moves it called
/// for are done (`moved_data_dir`, `moved_db_path`) and the system service
/// has been set up as asked. Settings the change leaves out stay as they are.
pub fn apply_settings_update(
    config: &mut AppConfig,
    payload: &UpdateSettingsPayload,
    moved_data_dir: Option<String>,
    moved_db_path: Option<String>,
)
    ensures
        final(config).data_dir@ == (match moved_data_dir {
            Some(d) => d@,
            None => old(config).data_dir@,
        }),
        final(config).db_path@ == (match moved_db_path {
            Some(d) => d@,
            None => old(config).db_path@,
        }),
        final(config).settings.close_to_tray == (match payload.close_to_tray {
            Some(b) => b,
            None => old(config).settings.close_to_tray,
        }),
        final(config).settings.autostart == (match payload.autostart {
            Some(b) => b,
            None => old(config).settings.autostart,
        }),
        final(config).settings.run_as_service == (match payload.run_as_service {
            Some(b) => b,
            None => old(config).settings.run_as_service,
        }),
        final(config).settings.default_schedule == old(config).settings.default_schedule,
        final(config).settings.default_retention_days == old(config).settings.default_retention_days,
        final(config).settings.max_attachment_size_mb == old(config).settings.max_attachment_size_mb,
        final(config).settings.rate_limit_kbps == old(config).settings.rate_limit_kbps,
        final(config).settings.notifications_enabled == old(config).settings.notifications_enabled,
        final(config).settings.web_port == old(config).settings.web_port,
        final(config).accounts == old(config).accounts,
{
    if let Some(d) = moved_data_dir {
        config.data_dir = d;
    }
    if let Some(d) = moved_db_path {
        config.db_path = d;
    }
    if let Some(b) = payload.close_to_tray {
        config.settings.close_to_tray = b;
    }
    if let Some(b) = payload.autostart {
        config.settings.autostart = b;
    }
    if let Some(b) = payload.run_as_service {
        config.settings.run_as_service = b;
    }
}

/// The message of a settings change: one sentence per move, or a plain
/// confirmation when nothing moved.
pub open spec fn settings_message(storage_moved_to: Option<Seq<char>>, migrated_files: u64, db_moved_to: Option<Seq<char>>) -> Seq<char> {
    let s = match storage_moved_to {
        Some(p) => Some("Storage moved to "@ + p + " ("@ + decimal(migrated_files as nat) + " files migrated)."@),
        None => None,
    };
    let d = match db_moved_to {
        Some(p) => Some("Database catalog relocated to "@ + p + "."@),
        None => None,
    };
    match (s, d) {
        (Some(a), Some(b)) => a + " "@ + b,
        (Some(a), None) => a,
        (None, Some(b)) => b,
        (None, None) => "Settings updated successfully."@,
    }
}

/// Builds `settings_message`.
pub fn settings_update_message(storage_moved_to: Option<&str>, migrated_files: u64, db_moved_to: Option<&str>) -> (r:
    String)
    ensures
        r@ == settings_message(
            match storage_moved_to {
                Some(p) => Some(p@),
                None => None,
            },
            migrated_files,
            match db_moved_to {
                Some(p) => Some(p@),
                None => None,
            },
        ),
{
    let s = match storage_moved_to {
        Some(p) => Some(
            String::from_str("Storage moved to ").concat(p).concat(" (").concat(
                decimal_text(migrated_files).as_str(),
            ).concat(" files migrated)."),
        ),
        None => None,
    };
    let d = match db_moved_to {
        Some(p) => Some(String::from_str("Database catalog relocated to ").concat(p).concat(".")),
        None => None,
    };
    match (s, d) {
        (Some(a), Some(b)) => a.concat(" ").concat(b.as_str()),
        (Some(a), None) => a,
        (None, Some(b)) => b,
        (None, None) => String::from_str("Settings updated successfully."),
    }
}

/// What the service toggle did, in words.
pub open spec fn service_action(enabled: bool) -> Seq<char> {
    if enabled {
        "installed and started"@
    } else {
        "uninstalled and stopped"@
    }
}

/// Words for what the service toggle did.
pub fn service_action_text(enabled: bool) -> (r: &'static str)
    ensures
        r@ == service_action(enabled),
{
    if enabled {
        "installed and started"
    } else {
        "uninstalled and stopped"
    }
}

/// The answer to a service toggle, given the outcome of setting the service
/// up (the error's message on failure) and the status afterwards. On
/// failure the service stays as it was, so `enabled` is the opposite of the
/// request.
pub fn service_toggle_response(enabled: bool, outcome: Result<(), String>, status: ServiceStatus) -> (r:
    ServiceToggleResponse)
    ensures
        r.service_status == status,
        match outcome {
            Ok(_) => r.success && r.enabled == enabled && r.message@ == "System service "@ + service_action(enabled)
                + " successfully"@,
            Err(e) => !r.success && r.enabled == !enabled && r.message@ == "Failed to configure service: "@ + e@,
        },
{
    match outcome {
        Ok(_) => ServiceToggleResponse {
            success: true,
            enabled,
            service_status: status,
            message: String::from_str("System service ").concat(service_action_text(enabled)).concat(" successfully"),
        },
        Err(e) => ServiceToggleResponse {
            success: false,
            enabled: !enabled,
            service_status: status,
            message: String::from_str("Failed to configure service: ").concat(e.as_str()),
        },
    }
}

/// What a bulk import does with its parsed rows.
#[derive(Clone, Copy, Debug, PartialEq, Eq, Structural)]
pub enum ImportDecision {
    /// A dry run: show what would be imported.
    Preview,
    /// No valid row: refuse.
    Rejected,
    /// Store the secrets and the accounts.
    Import,
}

/// A dry run only previews; otherwise an import needs one valid row at
/// least.
pub fn import_decision(dry_run: bool, valid_count: usize) -> (r: ImportDecision)
    ensures
        r == (if dry_run {
            ImportDecision::Preview
        } else if valid_count == 0 {
            ImportDecision::Rejected
        } else {
            ImportDecision::Import
        }),
{
    if dry_run {
        ImportDecision::Preview
    } else if valid_count == 0 {
        ImportDecision::Rejected
    } else {
        ImportDecision::Import
    }
}

/// The accounts after importing `new` in order: each imported account
/// replaces any account with its id and goes last.
pub open spec fn accounts_after_import(s: Seq<AccountConfig>, new: Seq<AccountConfig>) -> Seq<AccountConfig>
    decreases new.len(),
{
    if new.len() == 0 {
        s
    } else {
        let p = accounts_after_import(s, new.drop_last());
        accounts_kept(p, new.last().id@, false).push(new.last())
    }
}

/// Adds imported accounts to the configuration, each replacing any account
/// with its id.
pub fn import_accounts(config: &mut AppConfig, accounts: Vec<AccountConfig>)
    ensures
        final(config).accounts@ == accounts_after_import(old(config).accounts@, accounts@),
        final(config).data_dir == old(config).data_dir,
        final(config).db_path == old(config).db_path,
        final(config).settings == old(config).settings,
{
    let ghost start = config.accounts@;
    let ghost all = accounts@;
    let mut rest = accounts;
    let mut k: usize = 0;
    let n = rest.len();
    while rest.len() > 0
        invariant
            n == all.len(),
            k + rest.len() == n,
            rest@ =~= all.skip(k as int),
            config.accounts@ == accounts_after_import(start, all.take(k as int)),
            config.data_dir == old(config).data_dir,
            config.db_path == old(config).db_path,
            config.settings == old(config).settings,
        decreases rest.len(),
    {
        let a = rest.remove(0);
        assert(a == all[k as int]);
        assert(all.take(k + 1).drop_last() =~= all.take(k as int));
        config.upsert_account(a);
        k += 1;
        assert(rest@ =~= all.skip(k as int));
    }
    assert(all.take(n as int) =~= all);
}

/// An account as the web form adds it: identified by the slug of its
/// address, over TLS with a password, with the default folder filter.
pub fn account_from_form(
    provider: &str,
    name: String,
    email: String,
    server: String,
    port: u16,
    username: String,
    retention_days: Option<u32>,
    schedule: Option<String>,
) -> (r: AccountConfig)
    ensures
        r.id@ == slug(email@),
        r.name == name,
        r.email == email,
        r.provider == provider_for_name(lowercase(provider@)),
        r.imap_server == server,
        r.imap_port == port,
        r.use_tls,
        r.auth_type == AuthType::Password,
        r.username == username,
        r.schedule == schedule,
        r.retention_days == retention_days,
        r.folder_filter.included@.len() == 0,
        r.folder_filter.exclude.deep_view() == default_excluded_folders(),
        r.gmail_smart_labels,
        r.enabled,
{
    let id = StorageEngine::sanitize_slug(email.as_str());
    AccountConfig {
        id,
        name,
        email,
        provider: provider_from_name(provider),
        imap_server: server,
        imap_port: port,
        use_tls: true,
        auth_type: AuthType::Password,
        username,
        schedule,
        retention_days,
        folder_filter: FolderFilter::default(),
        gmail_smart_labels: true,
        enabled: true,
    }
}

/// A change to an account from the web form.
#[derive(Clone, Debug)]
pub struct AccountUpdate {
    pub name: Option<String>,
    pub server: Option<String>,
    pub port: Option<u16>,
    pub username: Option<String>,
    pub retention_days: Option<u32>,
    pub schedule: Option<String>,
    pub enabled: Option<bool>,
}

/// Applies a change to an account: fields the change leaves out stay as
/// they are, except the retention period, which the form always sends
/// (absent means keep forever).
pub fn apply_account_update(account: &mut AccountConfig, update: AccountUpdate)
    ensures
        final(account).name == (match update.name {
            Some(n) => n,
            None => old(account).name,
        }),
        final(account).imap_server == (match update.server {
            Some(s) => s,
            None => old(account).imap_server,
        }),
        final(account).imap_port == (match update.port {
            Some(p) => p,
            None => old(account).imap_port,
        }),
        final(account).username == (match update.username {
            Some(u) => u,
            None => old(account).username,
        }),
        final(account).retention_days == update.retention_days,
        final(account).schedule == (match update.schedule {
            Some(s) => Some(s),
            None => old(account).schedule,
        }),
        final(account).enabled == (match update.enabled {
            Some(e) => e,
            None => old(account).enabled,
        }),
        final(account).id == old(account).id,
        final(account).email == old(account).email,
        final(account).provider == old(account).provider,
        final(account).use_tls == old(account).use_tls,
        final(account).auth_type == old(account).auth_type,
        final(account).folder_filter == old(account).folder_filter,
        final(account).gmail_smart_labels == old(account).gmail_smart_labels,
{
    if let Some(n) = update.name {
        account.name = n;
    }
    if let Some(s) = update.server {
        account.imap_server = s;
    }
    if let Some(p) = update.port {
        account.imap_port = p;
    }
    if let Some(u) = update.username {
        account.username = u;
    }
    account.retention_days = update.retention_days;
    if let Some(sch) = update.schedule {
        account.schedule = Some(sch);
    }
    if let Some(e) = update.enabled {
        account.enabled = e;
    }
}

} // verus!
