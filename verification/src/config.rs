//! Application and account configuration model.

use crate::text::{ascii_lower, chars_of, is_ascii_text, lowercase, seq_eq, str_eq, to_lower, trim, trim_str};
use crate::paths::{
    file_name_of, home_dir, is_absolute_path, join_path, path_absolute, path_file_name, path_join, path_with_file_name,
    with_file_name,
};
use crate::text::{decimal, decimal_text, slice_chars, string_of};
use vstd::prelude::*;

verus! {

/// The mail provider of an account.
#[derive(Clone, Copy, Debug, PartialEq, Eq, Structural)]
pub enum ProviderType {
    GenericImap,
    Gmail,
    Outlook,
    ICloud,
    Yahoo,
}

impl ProviderType {
    /// Default IMAP host, port and TLS flag of the provider.
    pub fn default_server(&self) -> (r: (&'static str, u16, bool))
        ensures
            r.1 == 993,
            r.2,
            r.0@ == provider_host(*self),
    {
        match self {
            ProviderType::GenericImap => ("imap.example.com", 993, true),
            ProviderType::Gmail => ("imap.gmail.com", 993, true),
            ProviderType::Outlook => ("outlook.office365.com", 993, true),
            ProviderType::ICloud => ("imap.mail.me.com", 993, true),
            ProviderType::Yahoo => ("imap.mail.yahoo.com", 993, true),
        }
    }
}

/// Default IMAP host of each provider.
pub open spec fn provider_host(p: ProviderType) -> Seq<char> {
    match p {
        ProviderType::GenericImap => "imap.example.com"@,
        ProviderType::Gmail => "imap.gmail.com"@,
        ProviderType::Outlook => "outlook.office365.com"@,
        ProviderType::ICloud => "imap.mail.me.com"@,
        ProviderType::Yahoo => "imap.mail.yahoo.com"@,
    }
}

/// Provider named by a lower-cased provider name; unknown names are generic IMAP.
pub open spec fn provider_for_name(l: Seq<char>) -> ProviderType {
    if l == "gmail"@ {
        ProviderType::Gmail
    } else if l == "outlook"@ {
        ProviderType::Outlook
    } else if l == "icloud"@ {
        ProviderType::ICloud
    } else if l == "yahoo"@ {
        ProviderType::Yahoo
    } else {
        ProviderType::GenericImap
    }
}

/// The provider a user named (case-insensitively) when adding an account.
pub fn provider_from_name(name: &str) -> (r: ProviderType)
    ensures
        r == provider_for_name(lowercase(name@)),
        is_ascii_text(name@) ==> r == provider_for_name(name@.map_values(|c: char| ascii_lower(c))),
{
    let l = to_lower(name);
    let lc = chars_of(l.as_str());
    if seq_eq(&lc, &chars_of("gmail")) {
        ProviderType::Gmail
    } else if seq_eq(&lc, &chars_of("outlook")) {
        ProviderType::Outlook
    } else if seq_eq(&lc, &chars_of("icloud")) {
        ProviderType::ICloud
    } else if seq_eq(&lc, &chars_of("yahoo")) {
        ProviderType::Yahoo
    } else {
        ProviderType::GenericImap
    }
}

/// How an account authenticates.
#[derive(Clone, Copy, Debug, PartialEq, Eq, Structural)]
pub enum AuthType {
    Password,
    OAuth2,
}

/// Folder inclusion / exclusion patterns of an account.
#[derive(Clone, Debug)]
pub struct FolderFilter {
    pub included: Vec<String>,
    pub exclude: Vec<String>,
}

/// The folders that are skipped unless configured otherwise.
pub open spec fn default_excluded_folders() -> Seq<Seq<char>> {
    seq!["Trash"@, "[Gmail]/Trash"@, "[Gmail]/Spam"@, "Junk"@, "Spam"@]
}

impl Default for FolderFilter {
    fn default() -> (r: Self)
        ensures
            r.included@.len() == 0,
            r.exclude.deep_view() == default_excluded_folders(),
    {
        let mut exclude: Vec<String> = Vec::new();
        exclude.push(String::from_str("Trash"));
        exclude.push(String::from_str("[Gmail]/Trash"));
        exclude.push(String::from_str("[Gmail]/Spam"));
        exclude.push(String::from_str("Junk"));
        exclude.push(String::from_str("Spam"));
        assert(exclude.deep_view() =~= default_excluded_folders());
        FolderFilter { included: Vec::new(), exclude }
    }
}

/// One mail account to back up.
#[derive(Clone, Debug)]
pub struct AccountConfig {
    pub id: String,
    pub name: String,
    pub email: String,
    pub provider: ProviderType,
    pub imap_server: String,
    pub imap_port: u16,
    pub use_tls: bool,
    pub auth_type: AuthType,
    pub username: String,
    pub schedule: Option<String>,
    /// `None` keeps messages forever.
    pub retention_days: Option<u32>,
    pub folder_filter: FolderFilter,
    pub gmail_smart_labels: bool,
    pub enabled: bool,
}

/// Provider assumed when a configuration names none.
pub fn default_provider() -> (r: ProviderType)
    ensures
        r == ProviderType::GenericImap,
{
    ProviderType::GenericImap
}

/// IMAP port assumed when a configuration names none.
pub fn default_port() -> (r: u16)
    ensures
        r == 993,
{
    993
}

/// Value of the flags that default to on.
pub fn default_true() -> (r: bool)
    ensures
        r,
{
    true
}

/// Authentication assumed when a configuration names none.
pub fn default_auth_type() -> (r: AuthType)
    ensures
        r == AuthType::Password,
{
    AuthType::Password
}

/// Settings shared by all accounts.
#[derive(Clone, Debug)]
pub struct GlobalSettings {
    pub default_schedule: String,
    pub default_retention_days: Option<u32>,
    pub max_attachment_size_mb: Option<u64>,
    pub rate_limit_kbps: Option<u64>,
    pub notifications_enabled: bool,
    pub web_port: u16,
    pub close_to_tray: bool,
    pub autostart: bool,
    pub run_as_service: bool,
}

/// Schedule used by accounts that name none: daily at midnight.
pub fn default_schedule() -> (r: String)
    ensures
        r@ == "0 0 * * *"@,
{
    String::from_str("0 0 * * *")
}

/// Port of the embedded web server when none is configured.
pub fn default_server_port() -> (r: u16)
    ensures
        r == 8765,
{
    8765
}

impl Default for GlobalSettings {
    fn default() -> (r: Self)
        ensures
            r.default_schedule@ == "0 0 * * *"@,
            r.default_retention_days.is_none(),
            r.max_attachment_size_mb.is_none(),
            r.rate_limit_kbps.is_none(),
            r.notifications_enabled,
            r.web_port == 8765,
            r.close_to_tray,
            !r.autostart,
            !r.run_as_service,
    {
        GlobalSettings {
            default_schedule: default_schedule(),
            default_retention_days: None,
            max_attachment_size_mb: None,
            rate_limit_kbps: None,
            notifications_enabled: true,
            web_port: default_server_port(),
            close_to_tray: true,
            autostart: false,
            run_as_service: false,
        }
    }
}

/// The whole configuration file.
#[derive(Clone, Debug)]
pub struct AppConfig {
    pub data_dir: String,
    pub db_path: String,
    pub settings: GlobalSettings,
    pub accounts: Vec<AccountConfig>,
}

/// The base directory for a given home directory: `<home>/.mailbackup`, or
/// `.mailbackup` when no home directory is known.
pub open spec fn base_dir_for(home: Option<Seq<char>>) -> Seq<char> {
    match home {
        Some(h) => path_join(h, ".mailbackup"@),
        None => ".mailbackup"@,
    }
}

/// `b` is the base directory for some home directory.
pub open spec fn is_base_dir(b: Seq<char>) -> bool {
    exists|h: Option<Seq<char>>| b == base_dir_for(h)
}

/// Base directory of the application for a known home directory.
pub fn base_dir_from_home(home: Option<String>) -> (r: String)
    ensures
        r@ == base_dir_for(home.deep_view()),
{
    match home {
        Some(h) => join_path(h.as_str(), ".mailbackup"),
        None => String::from_str(".mailbackup"),
    }
}

/// Base directory of the application (`~/.mailbackup`).
pub fn default_base_dir() -> (r: String)
    ensures
        is_base_dir(r@),
{
    let home = home_dir();
    let ghost h = home.deep_view();
    let r = base_dir_from_home(home);
    assert(r@ == base_dir_for(h));
    r
}

/// Path of the configuration file inside the base directory.
pub fn default_config_path() -> (r: String)
    ensures
        exists|b: Seq<char>| is_base_dir(b) && r@ == path_join(b, "config.yaml"@),
{
    let b = default_base_dir();
    join_path(b.as_str(), "config.yaml")
}

impl Default for AppConfig {
    fn default() -> (r: Self)
        ensures
            exists|b: Seq<char>|
                is_base_dir(b) && r.data_dir@ == path_join(b, "data"@) && r.db_path@
                    == path_join(b, "mailbackup.db"@),
            r.accounts@.len() == 0,
            r.settings.close_to_tray,
            !r.settings.autostart,
            !r.settings.run_as_service,
            r.settings.web_port == 8765,
            r.settings.default_schedule@ == "0 0 * * *"@,
    {
        let base_dir = default_base_dir();
        let data_dir = join_path(base_dir.as_str(), "data");
        let db_path = join_path(base_dir.as_str(), "mailbackup.db");
        AppConfig {
            data_dir,
            db_path,
            settings: GlobalSettings::default(),
            accounts: Vec::new(),
        }
    }
}

/// What `resolve_path` gives for a trimmed input and a known home directory:
/// `~` and `~/rest` are taken relative to the home directory.
pub open spec fn resolved_path(t: Seq<char>, home: Option<Seq<char>>) -> Seq<char> {
    if t == "~"@ && home is Some {
        home->0
    } else if t.len() >= 2 && t[0] == '~' && t[1] == '/' && home is Some {
        path_join(home->0, t.skip(2))
    } else {
        t
    }
}

/// Resolves a user-entered path against a known home directory.
pub fn resolve_path_with_home(input: &str, home: Option<String>) -> (r: String)
    ensures
        r@ == resolved_path(trim(input@), home.deep_view()),
{
    let t = trim_str(input);
    let tc = chars_of(t.as_str());
    let tilde = chars_of("~");
    proof {
        reveal_strlit("~");
    }
    let is_home = seq_eq(&tc, &tilde);
    let is_sub = tc.len() >= 2 && tc[0] == '~' && tc[1] == '/';
    if is_home || is_sub {
        match home {
            Some(h) => {
                if is_home {
                    return h;
                } else {
                    let rest = crate::text::slice_chars(&tc, 2, tc.len());
                    let rest_s = crate::text::string_of(&rest);
                    assert(rest@ =~= tc@.skip(2));
                    return join_path(h.as_str(), rest_s.as_str());
                }
            },
            None => {},
        }
    }
    t
}

/// Resolves a user-entered path; `~` stands for the home directory.
pub fn resolve_path(input: &str) -> (r: String)
    ensures
        exists|h: Option<Seq<char>>| r@ == resolved_path(trim(input@), h),
{
    let home = home_dir();
    let ghost h = home.deep_view();
    let r = resolve_path_with_home(input, home);
    assert(r@ == resolved_path(trim(input@), h));
    r
}

/// The account is named by `key`, through its id or its e-mail address.
pub open spec fn account_matches(a: AccountConfig, key: Seq<char>) -> bool {
    a.id@ == key || a.email@ == key
}

/// Index of the first account at or after `i` named by `key` (the length if none).
pub open spec fn first_account_from(accts: Seq<AccountConfig>, key: Seq<char>, i: int) -> int
    decreases accts.len() - i,
{
    if i >= accts.len() {
        accts.len() as int
    } else if account_matches(accts[i], key) {
        i
    } else {
        first_account_from(accts, key, i + 1)
    }
}

/// Index of the first account named by `key` (the length if none).
pub open spec fn first_account(accts: Seq<AccountConfig>, key: Seq<char>) -> int {
    first_account_from(accts, key, 0)
}

proof fn lemma_first_account_from(accts: Seq<AccountConfig>, key: Seq<char>, i: int)
    requires
        0 <= i <= accts.len(),
    ensures
        i <= first_account_from(accts, key, i) <= accts.len(),
        first_account_from(accts, key, i) < accts.len() ==> account_matches(
            accts[first_account_from(accts, key, i)],
            key,
        ),
        forall|j: int| i <= j < first_account_from(accts, key, i) ==> !account_matches(accts[j], key),
    decreases accts.len() - i,
{
    if i < accts.len() && !account_matches(accts[i], key) {
        lemma_first_account_from(accts, key, i + 1);
    }
}

impl AppConfig {
    /// Index of the first account named by `key`, or the number of accounts.
    pub fn find_account_index(&self, key: &str) -> (r: usize)
        ensures
            r == first_account(self.accounts@, key@),
            r <= self.accounts@.len(),
    {
        let mut i: usize = 0;
        while i < self.accounts.len()
            invariant
                i <= self.accounts@.len(),
                first_account(self.accounts@, key@) == first_account_from(self.accounts@, key@, i as int),
            decreases self.accounts.len() - i,
        {
            let a = &self.accounts[i];
            if str_eq(a.id.as_str(), key) || str_eq(a.email.as_str(), key) {
                return i;
            }
            i += 1;
        }
        i
    }

    /// The first account whose id or e-mail address is `key`.
    pub fn get_account(&self, key: &str) -> (r: Option<&AccountConfig>)
        ensures
            ({
                let idx = first_account(self.accounts@, key@);
                match r {
                    Some(a) => idx < self.accounts@.len() && *a == self.accounts@[idx],
                    None => idx == self.accounts@.len(),
                }
            }),
    {
        let i = self.find_account_index(key);
        if i < self.accounts.len() {
            Some(&self.accounts[i])
        } else {
            None
        }
    }

    /// Mutable access to the first account whose id or e-mail address is `key`.
    pub fn get_account_mut(&mut self, key: &str) -> (r: Option<&mut AccountConfig>)
        ensures
            ({
                let idx = first_account(old(self).accounts@, key@);
                &&& idx < old(self).accounts@.len() ==> r is Some && *r->0 == old(self).accounts@[idx]
                    && final(self).accounts@ == old(self).accounts@.update(idx, *final(r->0))
                &&& idx == old(self).accounts@.len() ==> r is None && *final(self) == *old(self)
                &&& final(self).data_dir == old(self).data_dir
                &&& final(self).db_path == old(self).db_path
                &&& final(self).settings == old(self).settings
            }),
    {
        let i = self.find_account_index(key);
        if i < self.accounts.len() {
            Some(&mut self.accounts[i])
        } else {
            None
        }
    }

    /// Drops every account with the id `key` (and, with `by_email`, every
    /// account whose e-mail address is `key`), keeping the order of the rest.
    fn retain_accounts_not_named(&mut self, key: &str, by_email: bool)
        ensures
            final(self).accounts@ == accounts_kept(old(self).accounts@, key@, by_email),
            final(self).data_dir == old(self).data_dir,
            final(self).db_path == old(self).db_path,
            final(self).settings == old(self).settings,
    {
        let ghost orig = self.accounts@;
        let mut i: usize = 0;
        let ghost mut k: int = 0;
        assert(orig.take(0) =~= Seq::<AccountConfig>::empty());
        assert(orig.skip(0) =~= orig);
        while i < self.accounts.len()
            invariant
                0 <= k <= orig.len(),
                i <= self.accounts@.len(),
                self.accounts@.take(i as int) == accounts_kept(orig.take(k), key@, by_email),
                self.accounts@.skip(i as int) == orig.skip(k),
                self.data_dir == old(self).data_dir,
                self.db_path == old(self).db_path,
                self.settings == old(self).settings,
            decreases self.accounts@.len() - i,
        {
            let ghost before = self.accounts@;
            assert(before.skip(i as int).len() == orig.skip(k).len());
            assert(k < orig.len());
            assert(before[i as int] == orig[k]) by {
                assert(before.skip(i as int)[0] == before[i as int]);
                assert(orig.skip(k)[0] == orig[k]);
            }
            assert(orig.take(k + 1).drop_last() =~= orig.take(k));
            let drop = str_eq(self.accounts[i].id.as_str(), key) || (by_email && str_eq(
                self.accounts[i].email.as_str(),
                key,
            ));
            if drop {
                self.accounts.remove(i);
                assert(self.accounts@.take(i as int) =~= before.take(i as int));
                assert forall|t: int| 0 <= t < self.accounts@.skip(i as int).len() implies #[trigger] self.accounts@.skip(i as int)[t] == orig.skip(k + 1)[t] by {
                    assert(self.accounts@[i + t] == before[i + t + 1]);
                    assert(before.skip(i as int)[t + 1] == orig.skip(k)[t + 1]);
                }
                assert(self.accounts@.skip(i as int) =~= orig.skip(k + 1));
            } else {
                assert(self.accounts@.take(i + 1) =~= before.take(i as int).push(before[i as int]));
                assert forall|t: int| 0 <= t < self.accounts@.skip(i + 1).len() implies #[trigger] self.accounts@.skip(i + 1)[t] == orig.skip(k + 1)[t] by {
                    assert(before.skip(i as int)[t + 1] == orig.skip(k)[t + 1]);
                }
                assert(self.accounts@.skip(i + 1) =~= orig.skip(k + 1));
                i += 1;
            }
            proof {
                k = k + 1;
            }
        }
        assert(orig.take(k) =~= orig);
        assert(self.accounts@.take(i as int) =~= self.accounts@);
    }

    /// Removes the accounts whose id or e-mail address is `key`.
    pub fn remove_account(&mut self, key: &str)
        ensures
            final(self).accounts@ == accounts_kept(old(self).accounts@, key@, true),
            final(self).data_dir == old(self).data_dir,
            final(self).db_path == old(self).db_path,
            final(self).settings == old(self).settings,
    {
        self.retain_accounts_not_named(key, true);
    }

    /// Removes the accounts whose id is `id`.
    pub fn remove_account_by_id(&mut self, id: &str)
        ensures
            final(self).accounts@ == accounts_kept(old(self).accounts@, id@, false),
            final(self).data_dir == old(self).data_dir,
            final(self).db_path == old(self).db_path,
            final(self).settings == old(self).settings,
    {
        self.retain_accounts_not_named(id, false);
    }

    /// Stores `account`, replacing any account with the same id; the account
    /// goes last.
    pub fn upsert_account(&mut self, account: AccountConfig)
        ensures
            final(self).accounts@ == accounts_kept(old(self).accounts@, account.id@, false).push(
                account,
            ),
            final(self).data_dir == old(self).data_dir,
            final(self).db_path == old(self).db_path,
            final(self).settings == old(self).settings,
    {
        self.retain_accounts_not_named(account.id.as_str(), false);
        self.accounts.push(account);
    }
}

/// The accounts of `s`, in order, without those named `key` (by id, and by
/// e-mail address when `by_email`).
pub open spec fn accounts_kept(s: Seq<AccountConfig>, key: Seq<char>, by_email: bool) -> Seq<AccountConfig>
    decreases s.len(),
{
    if s.len() == 0 {
        s
    } else {
        let p = accounts_kept(s.drop_last(), key, by_email);
        let a = s.last();
        if a.id@ == key || (by_email && a.email@ == key) {
            p
        } else {
            p.push(a)
        }
    }
}

proof fn lemma_accounts_kept(s: Seq<AccountConfig>, key: Seq<char>, by_email: bool)
    ensures
        forall|j: int| 0 <= j < accounts_kept(s, key, by_email).len() ==> {
            let a = #[trigger] accounts_kept(s, key, by_email)[j];
            a.id@ != key && !(by_email && a.email@ == key) && s.contains(a)
        },
    decreases s.len(),
{
    if s.len() > 0 {
        lemma_accounts_kept(s.drop_last(), key, by_email);
        let p = accounts_kept(s.drop_last(), key, by_email);
        assert forall|j: int| 0 <= j < p.len() implies s.contains(#[trigger] p[j]) by {
            let a = p[j];
            assert(s.drop_last().contains(a));
            let w = choose|w: int| 0 <= w < s.drop_last().len() && s.drop_last()[w] == a;
            assert(s[w] == a);
        }
        assert(s[s.len() - 1] == s.last());
    }
}

/// After `upsert_account(a)` the configuration holds `a` as its last account,
/// no other account carries the id of `a`, and every other account kept was
/// there before.
pub proof fn law_upsert_account_unique(before: Seq<AccountConfig>, a: AccountConfig)
    ensures
        ({
            let after = accounts_kept(before, a.id@, false).push(a);
            &&& after.last() == a
            &&& forall|j: int| 0 <= j < after.len() - 1 ==> (#[trigger] after[j]).id@ != a.id@ && before.contains(after[j])
        }),
{
    lemma_accounts_kept(before, a.id@, false);
    let kept = accounts_kept(before, a.id@, false);
    let after = kept.push(a);
    assert forall|j: int| 0 <= j < after.len() - 1 implies (#[trigger] after[j]).id@ != a.id@ && before.contains(after[j]) by {
        assert(after[j] == kept[j]);
    }
}

/// After `remove_account(key)` no account is named `key` by id or e-mail address.
pub proof fn law_remove_account_complete(before: Seq<AccountConfig>, key: Seq<char>)
    ensures
        ({
            let after = accounts_kept(before, key, true);
            forall|j: int| 0 <= j < after.len() ==> !account_matches(#[trigger] after[j], key)
        }),
{
    lemma_accounts_kept(before, key, true);
}

/// Where exports go by default: the `exports` directory of the base
/// directory.
pub fn default_export_dir() -> (r: String)
    ensures
        exists|b: Seq<char>| is_base_dir(b) && r@ == path_join(b, "exports"@),
{
    let b = default_base_dir();
    join_path(b.as_str(), "exports")
}

/// Where an export asked for as `input` goes: a blank request becomes
/// `backup_<stamp>.mbox` in the default directory, a relative path is taken
/// inside the default directory, and `~` paths and absolute paths are
/// resolved as they are.
pub open spec fn export_path(input: Seq<char>, default_dir: Seq<char>, stamp: Seq<char>, home: Option<Seq<char>>) -> Seq<
    char,
> {
    let t = trim(input);
    if t.len() == 0 {
        path_join(default_dir, "backup_"@ + stamp + ".mbox"@)
    } else if t[0] == '~' || path_absolute(t) {
        resolved_path(t, home)
    } else {
        path_join(default_dir, t)
    }
}

/// Resolves where an export asked for as `input` goes.
pub fn resolve_export_path_in(input: &str, default_dir: &str, stamp: &str, home: Option<String>) -> (r: String)
    ensures
        r@ == export_path(input@, default_dir@, stamp@, home.deep_view()),
{
    let t = trim_str(input);
    let tc = chars_of(t.as_str());
    if tc.len() == 0 {
        let name = String::from_str("backup_").concat(stamp).concat(".mbox");
        return join_path(default_dir, name.as_str());
    }
    if tc[0] == '~' || is_absolute_path(t.as_str()) {
        proof {
            crate::text::lemma_trim_idempotent(input@);
        }
        resolve_path_with_home(t.as_str(), home)
    } else {
        join_path(default_dir, t.as_str())
    }
}

/// Calls `Utc::now` and formats it as `%Y%m%d_%H%M%S`. It depends on the
/// clock, so nothing is stated of it.
#[verifier::external_body]
fn export_stamp() -> (r: String) {
    chrono::Utc::now().format("%Y%m%d_%H%M%S").to_string()
}

/// Resolves where an export asked for as `input` goes, with the user's home
/// directory and the current time.
pub fn resolve_export_path(input: &str) -> (r: String)
    ensures
        exists|d: Seq<char>, stamp: Seq<char>, h: Option<Seq<char>>|
            (exists|b: Seq<char>| is_base_dir(b) && d == path_join(b, "exports"@)) && r@ == export_path(
                input@,
                d,
                stamp,
                h,
            ),
{
    let d = default_export_dir();
    let stamp = export_stamp();
    let home = home_dir();
    let ghost h = home.deep_view();
    let r = resolve_export_path_in(input, d.as_str(), stamp.as_str(), home);
    assert(r@ == export_path(input@, d@, stamp@, h));
    r
}

/// Index of the last `.` of a file name, or -1.
pub open spec fn last_dot(name: Seq<char>) -> int
    decreases name.len(),
{
    if name.len() == 0 {
        -1
    } else if name.last() == '.' {
        name.len() - 1
    } else {
        last_dot(name.drop_last())
    }
}

/// Stem and extension of a file name, as `Path::file_stem` and
/// `Path::extension` split it: at the last `.`, unless that `.` starts the
/// name.
pub open spec fn stem_and_extension(name: Seq<char>) -> (Seq<char>, Option<Seq<char>>) {
    let k = last_dot(name);
    if k <= 0 {
        (name, None)
    } else {
        (name.take(k), Some(name.skip(k + 1)))
    }
}

/// The `n`th alternative of a path: `stem (n).ext` beside it.
pub open spec fn numbered_path_spec(path: Seq<char>, n: u64) -> Option<Seq<char>> {
    match path_file_name(path) {
        Some(name) => {
            let (stem, ext) = stem_and_extension(name);
            let numbered = stem + " ("@ + decimal(n as nat) + ")"@ + match ext {
                Some(e) => "."@ + e,
                None => Seq::empty(),
            };
            Some(path_with_file_name(path, numbered))
        },
        None => None,
    }
}

/// The `n`th alternative of a path that exists already: `stem (n).ext` in
/// the same directory; `None` for a path without a file name.
pub fn numbered_path(path: &str, n: u64) -> (r: Option<String>)
    ensures
        r.deep_view() == numbered_path_spec(path@, n),
{
    let name = match file_name_of(path) {
        Some(nm) => nm,
        None => {
            return None;
        },
    };
    let nc = chars_of(name.as_str());
    let mut k: usize = nc.len();
    assert(nc@.take(nc.len() as int) =~= nc@);
    while k > 0 && nc[k - 1] != '.'
        invariant
            k <= nc.len(),
            last_dot(nc@) == last_dot(nc@.take(k as int)),
        decreases k,
    {
        assert(nc@.take(k as int).drop_last() =~= nc@.take(k - 1));
        k -= 1;
    }
    if k > 0 {
        assert(nc@.take(k as int).last() == nc@[k - 1]);
    }
    let suffix = String::from_str(" (").concat(decimal_text(n).as_str()).concat(")");
    let numbered = if k <= 1 {
        assert(last_dot(nc@) <= 0);
        let r = String::from_str(name.as_str()).concat(suffix.as_str());
        assert(r@ =~= nc@ + " ("@ + decimal(n as nat) + ")"@ + Seq::<char>::empty());
        r
    } else {
        assert(last_dot(nc@) == k - 1);
        let stem = slice_chars(&nc, 0, k - 1);
        let ext = slice_chars(&nc, k, nc.len());
        assert(stem@ =~= nc@.take(k - 1));
        assert(ext@ =~= nc@.skip(k as int));
        let r = string_of(&stem).concat(suffix.as_str()).concat(".").concat(string_of(&ext).as_str());
        assert(r@ =~= nc@.take(k - 1) + " ("@ + decimal(n as nat) + ")"@ + ("."@ + nc@.skip(k as int)));
        r
    };
    Some(with_file_name(path, numbered.as_str()))
}

} // verus!
verus! {

/// Looking an account up by a key finds it by id or by e-mail address:
/// when some account's id or address equals the key, the lookup finds the
/// first such account (`get_account` returns it); when none does, it finds
/// none (`get_account` returns `None`).
pub proof fn law_account_lookup_by_id_or_address(accts: Seq<AccountConfig>, key: Seq<char>)
    ensures
        (exists|i: int| 0 <= i < accts.len() && (#[trigger] accts[i].id@ == key || accts[i].email@ == key)) ==> {
            let idx = first_account(accts, key);
            &&& 0 <= idx < accts.len()
            &&& accts[idx].id@ == key || accts[idx].email@ == key
            &&& forall|j: int| 0 <= j < idx ==> (#[trigger] accts[j]).id@ != key && accts[j].email@ != key
        },
        (forall|i: int| 0 <= i < accts.len() ==> (#[trigger] accts[i]).id@ != key && accts[i].email@ != key)
            ==> first_account(accts, key) == accts.len(),
{
    lemma_first_account_from(accts, key, 0);
    let idx = first_account(accts, key);
    if exists|i: int| 0 <= i < accts.len() && (#[trigger] accts[i].id@ == key || accts[i].email@ == key) {
        let i = choose|i: int| 0 <= i < accts.len() && (#[trigger] accts[i].id@ == key || accts[i].email@ == key);
        if idx >= accts.len() {
            assert(!account_matches(accts[i], key));
        }
    }
    if forall|i: int| 0 <= i < accts.len() ==> (#[trigger] accts[i]).id@ != key && accts[i].email@ != key {
        if idx < accts.len() {
            assert(account_matches(accts[idx], key));
        }
    }
}

} // verus!
