//! Bulk import of accounts from CSV text.

use crate::config::{AccountConfig, AuthType, FolderFilter, ProviderType, default_excluded_folders};
use crate::storage::{StorageEngine, slug};
use crate::text::{
    chars_of, contains_chars, contains_seq, count_char, count_char_exec, find_char, find_char_index,
    lemma_find_char, lines, lowercase, seq_eq, slice_chars, split_lines, string_of, to_lower, trim,
    trim_chars, char_to_upper, join_strings, join_with, parse_u16, parse_u32, parse_unsigned, trim_start, trim_start_index,
    uppercase_char, lemma_push_deep_view,
};
use vstd::prelude::*;

verus! {

/// The first line of `ls`, from index `i` on, that is neither blank nor a
/// `#` comment, trimmed.
pub open spec fn first_content_line_from(ls: Seq<Seq<char>>, i: int) -> Option<Seq<char>>
    decreases ls.len() - i,
{
    if i < 0 || i >= ls.len() {
        None
    } else {
        let t = trim(ls[i]);
        if t.len() == 0 || t[0] == '#' {
            first_content_line_from(ls, i + 1)
        } else {
            Some(t)
        }
    }
}

/// The delimiter a line suggests: `;` or tab when it occurs strictly more often
/// than each of the other two, `,` otherwise.
pub open spec fn delimiter_for_line(t: Seq<char>) -> u8 {
    let commas = count_char(t, ',');
    let semis = count_char(t, ';');
    let tabs = count_char(t, '\t');
    if semis > commas && semis > tabs {
        59u8
    } else if tabs > commas && tabs > semis {
        9u8
    } else {
        44u8
    }
}

/// The delimiter detected for CSV text: from its first content line, `,` if none.
pub open spec fn detected_delimiter(content: Seq<char>) -> u8 {
    match first_content_line_from(lines(content), 0) {
        Some(t) => delimiter_for_line(t),
        None => 44u8,
    }
}

/// Auto-detects the delimiter (`,`, `;` or tab) from the first line that is
/// neither blank nor a `#` comment.
pub fn detect_delimiter(content: &str) -> (r: u8)
    ensures
        r == detected_delimiter(content@),
{
    let cs = chars_of(content);
    let ls = split_lines(&cs);
    let mut i: usize = 0;
    while i < ls.len()
        invariant
            i <= ls.len(),
            ls.deep_view() == lines(content@),
            first_content_line_from(lines(content@), 0) == first_content_line_from(
                lines(content@),
                i as int,
            ),
        decreases ls.len() - i,
    {
        let t = trim_chars(&ls[i]);
        assert(ls.deep_view()[i as int] == ls@[i as int]@);
        if t.len() == 0 || t[0] == '#' {
            i += 1;
        } else {
            let commas = count_char_exec(&t, ',');
            let semis = count_char_exec(&t, ';');
            let tabs = count_char_exec(&t, '\t');
            if semis > commas && semis > tabs {
                return 59u8;
            }
            if tabs > commas && tabs > semis {
                return 9u8;
            }
            return 44u8;
        }
    }
    44u8
}

/// The second `c`-separated piece of `s` (`split(c).nth(1)`), if any.
pub open spec fn second_piece(s: Seq<char>, c: char) -> Option<Seq<char>> {
    let k = find_char(s, c);
    if k == -1 {
        None
    } else {
        let rest = s.skip(k + 1);
        let k2 = find_char(rest, c);
        if k2 == -1 {
            Some(rest)
        } else {
            Some(rest.take(k2))
        }
    }
}

/// The first `c`-separated piece of `s` (`split(c).next()`).
pub open spec fn first_piece(s: Seq<char>, c: char) -> Seq<char> {
    let k = find_char(s, c);
    if k == -1 {
        s
    } else {
        s.take(k)
    }
}

/// Computes `second_piece`.
pub fn second_piece_exec(s: &Vec<char>, c: char) -> (r: Option<Vec<char>>)
    ensures
        match r {
            Some(v) => second_piece(s@, c) == Some(v@),
            None => second_piece(s@, c) is None,
        },
{
    match find_char_index(s, c) {
        None => None,
        Some(k) => {
            proof {
                lemma_find_char(s@, c);
            }
            let n = s.len();
            assert(k < n);
            let rest = slice_chars(s, k + 1, n);
            assert(rest@ =~= s@.skip(k + 1));
            match find_char_index(&rest, c) {
                None => Some(rest),
                Some(k2) => {
                    proof {
                        lemma_find_char(rest@, c);
                    }
                    let t = slice_chars(&rest, 0, k2);
                    assert(t@ =~= rest@.take(k2 as int));
                    Some(t)
                },
            }
        },
    }
}

/// Computes `first_piece`.
pub fn first_piece_exec(s: &Vec<char>, c: char) -> (r: Vec<char>)
    ensures
        r@ == first_piece(s@, c),
{
    match find_char_index(s, c) {
        None => slice_chars(s, 0, s.len()),
        Some(k) => {
            proof {
                lemma_find_char(s@, c);
            }
            slice_chars(s, 0, k)
        },
    }
}

/// Provider guessed from a lower-cased server host name.
pub open spec fn provider_for_server(l: Seq<char>) -> ProviderType {
    if contains_seq(l, "gmail"@) {
        ProviderType::Gmail
    } else if contains_seq(l, "outlook"@) || contains_seq(l, "office365"@) {
        ProviderType::Outlook
    } else if contains_seq(l, "yahoo"@) {
        ProviderType::Yahoo
    } else if contains_seq(l, "icloud"@) || contains_seq(l, "mail.me.com"@) {
        ProviderType::ICloud
    } else {
        ProviderType::GenericImap
    }
}

/// Provider and host of a well-known (lower-cased) mail domain.
pub open spec fn known_domain(d: Seq<char>) -> Option<(ProviderType, Seq<char>)> {
    if d == "gmail.com"@ || d == "googlemail.com"@ {
        Some((ProviderType::Gmail, "imap.gmail.com"@))
    } else if d == "outlook.com"@ || d == "hotmail.com"@ || d == "live.com"@ || d == "msn.com"@ || d
        == "office365.com"@ {
        Some((ProviderType::Outlook, "outlook.office365.com"@))
    } else if d == "yahoo.com"@ || d == "ymail.com"@ || d == "myyahoo.com"@ {
        Some((ProviderType::Yahoo, "imap.mail.yahoo.com"@))
    } else if d == "icloud.com"@ || d == "me.com"@ || d == "mac.com"@ {
        Some((ProviderType::ICloud, "imap.mail.me.com"@))
    } else {
        None
    }
}

/// Provider, IMAP host and port for an address: a given (non-blank) server
/// wins and names the provider by its host; otherwise the domain of the
/// address decides, and unknown domains get `mail.<domain>` (or `localhost`).
pub open spec fn detected_server(email: Seq<char>, server: Option<Seq<char>>, port: Option<u16>) -> (
    ProviderType,
    Seq<char>,
    u16,
) {
    let p = match port {
        Some(v) => v,
        None => 993u16,
    };
    let domain = lowercase(
        match second_piece(email, '@') {
            Some(d) => d,
            None => Seq::empty(),
        },
    );
    if server is Some && trim(server->0).len() > 0 {
        let srv = trim(server->0);
        (provider_for_server(lowercase(srv)), srv, p)
    } else {
        match known_domain(domain) {
            Some((prov, host)) => (prov, host, p),
            None => (
                ProviderType::GenericImap,
                if domain.len() > 0 { "mail."@ + domain } else { "localhost"@ },
                p,
            ),
        }
    }
}

fn chars_eq_str(a: &Vec<char>, b: &str) -> (r: bool)
    ensures
        r == (a@ == b@),
{
    let bc = chars_of(b);
    seq_eq(a, &bc)
}

fn contains_str(a: &Vec<char>, b: &str) -> (r: bool)
    ensures
        r == contains_seq(a@, b@),
{
    let bc = chars_of(b);
    contains_chars(a, &bc)
}

/// Detects the provider and the default IMAP server / port of an address,
/// unless a server is given.
pub fn detect_provider_and_server(
    email: &str,
    custom_server: Option<&str>,
    custom_port: Option<u16>,
) -> (r: (ProviderType, String, u16))
    ensures
        ({
            let d = detected_server(
                email@,
                match custom_server {
                    Some(s) => Some(s@),
                    None => None,
                },
                custom_port,
            );
            r.0 == d.0 && r.1@ == d.1 && r.2 == d.2
        }),
{
    let port = match custom_port {
        Some(p) => p,
        None => 993,
    };
    if let Some(srv) = custom_server {
        let sc = chars_of(srv);
        let t = trim_chars(&sc);
        if t.len() > 0 {
            let ts = string_of(&t);
            let l = to_lower(ts.as_str());
            let lc = chars_of(l.as_str());
            let provider = if contains_str(&lc, "gmail") {
                ProviderType::Gmail
            } else if contains_str(&lc, "outlook") || contains_str(&lc, "office365") {
                ProviderType::Outlook
            } else if contains_str(&lc, "yahoo") {
                ProviderType::Yahoo
            } else if contains_str(&lc, "icloud") || contains_str(&lc, "mail.me.com") {
                ProviderType::ICloud
            } else {
                ProviderType::GenericImap
            };
            return (provider, ts, port);
        }
    }
    let ec = chars_of(email);
    let piece = match second_piece_exec(&ec, '@') {
        Some(v) => v,
        None => Vec::new(),
    };
    let ps = string_of(&piece);
    let domain_s = to_lower(ps.as_str());
    let d = chars_of(domain_s.as_str());
    if chars_eq_str(&d, "gmail.com") || chars_eq_str(&d, "googlemail.com") {
        (ProviderType::Gmail, String::from_str("imap.gmail.com"), port)
    } else if chars_eq_str(&d, "outlook.com") || chars_eq_str(&d, "hotmail.com") || chars_eq_str(
        &d,
        "live.com",
    ) || chars_eq_str(&d, "msn.com") || chars_eq_str(&d, "office365.com") {
        (ProviderType::Outlook, String::from_str("outlook.office365.com"), port)
    } else if chars_eq_str(&d, "yahoo.com") || chars_eq_str(&d, "ymail.com") || chars_eq_str(
        &d,
        "myyahoo.com",
    ) {
        (ProviderType::Yahoo, String::from_str("imap.mail.yahoo.com"), port)
    } else if chars_eq_str(&d, "icloud.com") || chars_eq_str(&d, "me.com") || chars_eq_str(
        &d,
        "mac.com",
    ) {
        (ProviderType::ICloud, String::from_str("imap.mail.me.com"), port)
    } else if d.len() > 0 {
        let host = String::from_str("mail.").concat(domain_s.as_str());
        (ProviderType::GenericImap, host, port)
    } else {
        (ProviderType::GenericImap, String::from_str("localhost"), port)
    }
}

/// A starter CSV file with a header and three example rows.
pub open spec fn csv_template() -> Seq<char> {
    "email,password,name,server,port,username\nuser@example.com,AppPassword123,Work Email,mail.example.com,993,user@example.com\njohn.doe@gmail.com,abcd-efgh-ijkl-mnop,Personal Gmail,,,john.doe@gmail.com\nalice@company.com,SecretPass2026,Alice Smith,outlook.office365.com,993,alice@company.com\n"@
}

/// Generates the starter CSV template.
pub fn generate_csv_template() -> (r: String)
    ensures
        r@ == csv_template(),
{
    String::from_str(
        "email,password,name,server,port,username\nuser@example.com,AppPassword123,Work Email,mail.example.com,993,user@example.com\njohn.doe@gmail.com,abcd-efgh-ijkl-mnop,Personal Gmail,,,john.doe@gmail.com\nalice@company.com,SecretPass2026,Alice Smith,outlook.office365.com,993,alice@company.com\n",
    )
}

/// An account read from a CSV row.
#[derive(Clone, Debug)]
pub struct ValidImportAccount {
    pub id: String,
    pub name: String,
    pub email: String,
    pub provider: ProviderType,
    pub imap_server: String,
    pub imap_port: u16,
    pub use_tls: bool,
    pub auth_type: AuthType,
    pub username: String,
    pub password: String,
    pub schedule: Option<String>,
    pub retention_days: Option<u32>,
}

/// Specification value of a `ValidImportAccount`.
pub struct ImportAccountView {
    pub id: Seq<char>,
    pub name: Seq<char>,
    pub email: Seq<char>,
    pub provider: ProviderType,
    pub imap_server: Seq<char>,
    pub imap_port: u16,
    pub use_tls: bool,
    pub auth_type: AuthType,
    pub username: Seq<char>,
    pub password: Seq<char>,
    pub schedule: Option<Seq<char>>,
    pub retention_days: Option<u32>,
}

impl View for ValidImportAccount {
    type V = ImportAccountView;

    open spec fn view(&self) -> ImportAccountView {
        ImportAccountView {
            id: self.id@,
            name: self.name@,
            email: self.email@,
            provider: self.provider,
            imap_server: self.imap_server@,
            imap_port: self.imap_port,
            use_tls: self.use_tls,
            auth_type: self.auth_type,
            username: self.username@,
            password: self.password@,
            schedule: self.schedule.deep_view(),
            retention_days: self.retention_days,
        }
    }
}

impl DeepView for ValidImportAccount {
    type V = ImportAccountView;

    open spec fn deep_view(&self) -> ImportAccountView {
        self@
    }
}

impl ValidImportAccount {
    /// The account configuration for an imported account: default folder
    /// filter, Gmail labels and the account enabled.
    pub fn to_account_config(&self) -> (r: AccountConfig)
        ensures
            r.id@ == self.id@,
            r.name@ == self.name@,
            r.email@ == self.email@,
            r.provider == self.provider,
            r.imap_server@ == self.imap_server@,
            r.imap_port == self.imap_port,
            r.use_tls == self.use_tls,
            r.auth_type == self.auth_type,
            r.username@ == self.username@,
            r.schedule.deep_view() == self.schedule.deep_view(),
            r.retention_days == self.retention_days,
            r.folder_filter.included@.len() == 0,
            r.folder_filter.exclude.deep_view() == default_excluded_folders(),
            r.gmail_smart_labels,
            r.enabled,
    {
        let schedule = match &self.schedule {
            Some(s) => Some(s.clone()),
            None => None,
        };
        AccountConfig {
            id: self.id.clone(),
            name: self.name.clone(),
            email: self.email.clone(),
            provider: self.provider,
            imap_server: self.imap_server.clone(),
            imap_port: self.imap_port,
            use_tls: self.use_tls,
            auth_type: self.auth_type,
            username: self.username.clone(),
            schedule,
            retention_days: self.retention_days,
            folder_filter: FolderFilter::default(),
            gmail_smart_labels: true,
            enabled: true,
        }
    }
}

/// A CSV row that could not be imported.
#[derive(Clone, Debug)]
pub struct CsvRowError {
    pub line: usize,
    pub raw_content: String,
    pub error: String,
}

/// Specification value of a `CsvRowError`.
pub struct CsvRowErrorView {
    pub line: nat,
    pub raw_content: Seq<char>,
    pub error: Seq<char>,
}

impl View for CsvRowError {
    type V = CsvRowErrorView;

    open spec fn view(&self) -> CsvRowErrorView {
        CsvRowErrorView { line: self.line as nat, raw_content: self.raw_content@, error: self.error@ }
    }
}

impl DeepView for CsvRowError {
    type V = CsvRowErrorView;

    open spec fn deep_view(&self) -> CsvRowErrorView {
        self@
    }
}

/// The outcome of a CSV import.
#[derive(Clone, Debug)]
pub struct CsvImportReport {
    pub valid_accounts: Vec<ValidImportAccount>,
    pub errors: Vec<CsvRowError>,
    pub total_rows: usize,
}

/// Specification value of a `CsvImportReport`.
pub struct CsvImportReportView {
    pub valid_accounts: Seq<ImportAccountView>,
    pub errors: Seq<CsvRowErrorView>,
    pub total_rows: nat,
}

impl View for CsvImportReport {
    type V = CsvImportReportView;

    open spec fn view(&self) -> CsvImportReportView {
        CsvImportReportView {
            valid_accounts: self.valid_accounts.deep_view(),
            errors: self.errors.deep_view(),
            total_rows: self.total_rows as nat,
        }
    }
}

impl Default for CsvImportReport {
    fn default() -> (r: Self)
        ensures
            r.valid_accounts@.len() == 0,
            r.errors@.len() == 0,
            r.total_rows == 0,
    {
        CsvImportReport { valid_accounts: Vec::new(), errors: Vec::new(), total_rows: 0 }
    }
}

/// Column positions of the known fields of a CSV file.
#[derive(Clone, Copy, Debug)]
pub struct CsvColumns {
    pub email: Option<usize>,
    pub password: Option<usize>,
    pub name: Option<usize>,
    pub server: Option<usize>,
    pub port: Option<usize>,
    pub username: Option<usize>,
    pub retention: Option<usize>,
    pub schedule: Option<usize>,
}

/// No known column.
pub open spec fn no_columns() -> CsvColumns {
    CsvColumns {
        email: None,
        password: None,
        name: None,
        server: None,
        port: None,
        username: None,
        retention: None,
        schedule: None,
    }
}

/// Columns of a file without a header: email, password, name, server, port, username.
pub open spec fn positional_columns() -> CsvColumns {
    CsvColumns {
        email: Some(0),
        password: Some(1),
        name: Some(2),
        server: Some(3),
        port: Some(4),
        username: Some(5),
        retention: None,
        schedule: None,
    }
}

/// A lower-cased cell that marks a header row.
pub open spec fn is_header_name(l: Seq<char>) -> bool {
    l == "email"@ || l == "mail"@ || l == "address"@ || l == "e-mail"@
}

/// The first record is a header when one of its cells names the e-mail column.
pub open spec fn row_is_header(fields: Seq<Seq<char>>) -> bool {
    exists|i: int| 0 <= i < fields.len() && is_header_name(lowercase(#[trigger] fields[i]))
}

/// A header cell without `_`, `-` and spaces.
pub open spec fn drop_name_separators(s: Seq<char>) -> Seq<char>
    decreases s.len(),
{
    if s.len() == 0 {
        s
    } else {
        let p = drop_name_separators(s.drop_last());
        let c = s.last();
        if c == '_' || c == '-' || c == ' ' {
            p
        } else {
            p.push(c)
        }
    }
}

/// The key a header cell is matched by.
pub open spec fn column_key(cell: Seq<char>) -> Seq<char> {
    drop_name_separators(lowercase(trim(cell)))
}

/// The columns after header cell `i` with key `k` is seen.
pub open spec fn assign_column(c: CsvColumns, i: usize, k: Seq<char>) -> CsvColumns {
    if k == "email"@ || k == "mail"@ || k == "address"@ || k == "emailaddress"@ {
        CsvColumns { email: Some(i), ..c }
    } else if k == "password"@ || k == "pass"@ || k == "pwd"@ || k == "apppassword"@ || k == "secret"@ {
        CsvColumns { password: Some(i), ..c }
    } else if k == "name"@ || k == "displayname"@ || k == "fullname"@ || k == "accountname"@ {
        CsvColumns { name: Some(i), ..c }
    } else if k == "server"@ || k == "host"@ || k == "imap"@ || k == "imapserver"@ || k == "hostname"@ {
        CsvColumns { server: Some(i), ..c }
    } else if k == "port"@ || k == "imapport"@ {
        CsvColumns { port: Some(i), ..c }
    } else if k == "username"@ || k == "user"@ || k == "login"@ {
        CsvColumns { username: Some(i), ..c }
    } else if k == "retention"@ || k == "retentiondays"@ {
        CsvColumns { retention: Some(i), ..c }
    } else if k == "schedule"@ || k == "cron"@ {
        CsvColumns { schedule: Some(i), ..c }
    } else {
        c
    }
}

/// The columns named by the first `n` cells of a header (a later cell wins).
pub open spec fn header_columns(fields: Seq<Seq<char>>, n: int) -> CsvColumns
    decreases n,
{
    if n <= 0 {
        no_columns()
    } else {
        assign_column(header_columns(fields, n - 1), (n - 1) as usize, column_key(fields[n - 1]))
    }
}

fn str_is(a: &Vec<char>, lit: &str) -> (r: bool)
    ensures
        r == (a@ == lit@),
{
    chars_eq_str(a, lit)
}

/// Whether a record has a header cell.
fn row_is_header_exec(fields: &Vec<String>) -> (r: bool)
    ensures
        r == row_is_header(fields.deep_view()),
{
    let mut i: usize = 0;
    while i < fields.len()
        invariant
            i <= fields.len(),
            forall|j: int| 0 <= j < i ==> !is_header_name(lowercase(#[trigger] fields.deep_view()[j])),
        decreases fields.len() - i,
    {
        let l = to_lower(fields[i].as_str());
        let lc = chars_of(l.as_str());
        assert(fields.deep_view()[i as int] == fields@[i as int]@);
        if str_is(&lc, "email") || str_is(&lc, "mail") || str_is(&lc, "address") || str_is(&lc, "e-mail") {
            return true;
        }
        i += 1;
    }
    false
}

fn drop_name_separators_exec(s: &Vec<char>) -> (r: Vec<char>)
    ensures
        r@ == drop_name_separators(s@),
{
    let mut out: Vec<char> = Vec::new();
    let mut i: usize = 0;
    assert(s@.take(0) =~= Seq::<char>::empty());
    while i < s.len()
        invariant
            i <= s.len(),
            out@ == drop_name_separators(s@.take(i as int)),
        decreases s.len() - i,
    {
        assert(s@.take(i + 1).drop_last() =~= s@.take(i as int));
        let c = s[i];
        if !(c == '_' || c == '-' || c == ' ') {
            out.push(c);
        }
        i += 1;
    }
    assert(s@.take(s.len() as int) =~= s@);
    out
}

fn assign_column_exec(c: CsvColumns, i: usize, k: &Vec<char>) -> (r: CsvColumns)
    ensures
        r == assign_column(c, i, k@),
{
    if str_is(k, "email") || str_is(k, "mail") || str_is(k, "address") || str_is(k, "emailaddress") {
        CsvColumns { email: Some(i), ..c }
    } else if str_is(k, "password") || str_is(k, "pass") || str_is(k, "pwd") || str_is(k, "apppassword")
        || str_is(k, "secret") {
        CsvColumns { password: Some(i), ..c }
    } else if str_is(k, "name") || str_is(k, "displayname") || str_is(k, "fullname") || str_is(
        k,
        "accountname",
    ) {
        CsvColumns { name: Some(i), ..c }
    } else if str_is(k, "server") || str_is(k, "host") || str_is(k, "imap") || str_is(k, "imapserver")
        || str_is(k, "hostname") {
        CsvColumns { server: Some(i), ..c }
    } else if str_is(k, "port") || str_is(k, "imapport") {
        CsvColumns { port: Some(i), ..c }
    } else if str_is(k, "username") || str_is(k, "user") || str_is(k, "login") {
        CsvColumns { username: Some(i), ..c }
    } else if str_is(k, "retention") || str_is(k, "retentiondays") {
        CsvColumns { retention: Some(i), ..c }
    } else if str_is(k, "schedule") || str_is(k, "cron") {
        CsvColumns { schedule: Some(i), ..c }
    } else {
        c
    }
}

/// The columns named by a header record.
fn header_columns_exec(fields: &Vec<String>) -> (r: CsvColumns)
    ensures
        r == header_columns(fields.deep_view(), fields.len() as int),
{
    let mut cols = CsvColumns {
        email: None,
        password: None,
        name: None,
        server: None,
        port: None,
        username: None,
        retention: None,
        schedule: None,
    };
    let mut i: usize = 0;
    while i < fields.len()
        invariant
            i <= fields.len(),
            cols == header_columns(fields.deep_view(), i as int),
        decreases fields.len() - i,
    {
        let fc = chars_of(fields[i].as_str());
        let t = trim_chars(&fc);
        let ts = string_of(&t);
        let l = to_lower(ts.as_str());
        let lc = chars_of(l.as_str());
        let k = drop_name_separators_exec(&lc);
        assert(fields.deep_view()[i as int] == fields@[i as int]@);
        cols = assign_column_exec(cols, i, &k);
        i += 1;
    }
    cols
}

/// What becomes of one data record.
pub enum RowOutcome {
    Skip,
    Invalid(CsvRowErrorView),
    Valid(ImportAccountView),
}

/// Cell `idx` of a record, when the record has it.
pub open spec fn field_at(fields: Seq<Seq<char>>, idx: Option<usize>) -> Option<Seq<char>> {
    match idx {
        Some(i) => if i < fields.len() { Some(fields[i as int]) } else { None },
        None => None,
    }
}

/// A trimmed cell, or nothing when absent or blank.
pub open spec fn nonblank(f: Option<Seq<char>>) -> Option<Seq<char>> {
    match f {
        Some(x) => if trim(x).len() > 0 { Some(trim(x)) } else { None },
        None => None,
    }
}

/// A trimmed cell, empty when absent.
pub open spec fn trimmed_or_empty(f: Option<Seq<char>>) -> Seq<char> {
    match f {
        Some(x) => trim(x),
        None => Seq::empty(),
    }
}

/// A name with its first character upper-cased.
pub open spec fn capitalized(s: Seq<char>) -> Seq<char> {
    if s.len() > 0 {
        uppercase_char(s[0]) + s.skip(1)
    } else {
        s
    }
}

/// Port in a cell, when it parses.
pub open spec fn parsed_port(f: Option<Seq<char>>) -> Option<u16> {
    match f {
        Some(x) => match parse_unsigned(trim(x), 65535) {
            Some(v) => Some(v as u16),
            None => None,
        },
        None => None,
    }
}

/// Day count in a cell, when it parses.
pub open spec fn parsed_days(f: Option<Seq<char>>) -> Option<u32> {
    match f {
        Some(x) => match parse_unsigned(trim(x), 4294967295) {
            Some(v) => Some(v as u32),
            None => None,
        },
        None => None,
    }
}

/// Separator with which a rejected record is shown.
pub open spec fn raw_separator(delimiter: u8) -> Seq<char> {
    if delimiter == 59 {
        ";"@
    } else {
        ","@
    }
}

/// The outcome of data record `fields` on line `line`: comment records are
/// skipped; a record without an address, with an address lacking `@` or a
/// domain, or without a password is rejected; otherwise the account is
/// completed with defaults (name from the address, provider and server from
/// the domain, user name = address).
pub open spec fn row_outcome(fields: Seq<Seq<char>>, line: nat, cols: CsvColumns, delimiter: u8) -> RowOutcome {
    let raw = join_with(fields, raw_separator(delimiter));
    let email = trimmed_or_empty(field_at(fields, cols.email));
    let password = trimmed_or_empty(field_at(fields, cols.password));
    if fields.len() > 0 && trim_start(fields[0]).len() > 0 && trim_start(fields[0])[0] == '#' {
        RowOutcome::Skip
    } else if email.len() == 0 {
        RowOutcome::Invalid(
            CsvRowErrorView { line, raw_content: raw, error: "Missing required 'email' address"@ },
        )
    } else if !email.contains('@') || trimmed_or_empty(second_piece(email, '@')).len() == 0 {
        RowOutcome::Invalid(
            CsvRowErrorView { line, raw_content: raw, error: "Invalid email format: '"@ + email + "'"@ },
        )
    } else if password.len() == 0 {
        RowOutcome::Invalid(
            CsvRowErrorView {
                line,
                raw_content: raw,
                error: "Missing password for account '"@ + email + "'"@,
            },
        )
    } else {
        let name = match nonblank(field_at(fields, cols.name)) {
            Some(n) => n,
            None => capitalized(first_piece(email, '@')),
        };
        let server = match field_at(fields, cols.server) {
            Some(x) => Some(trim(x)),
            None => None,
        };
        let d = detected_server(email, server, parsed_port(field_at(fields, cols.port)));
        let username = match nonblank(field_at(fields, cols.username)) {
            Some(u) => u,
            None => email,
        };
        RowOutcome::Valid(
            ImportAccountView {
                id: slug(email),
                name,
                email,
                provider: d.0,
                imap_server: d.1,
                imap_port: d.2,
                use_tls: true,
                auth_type: AuthType::Password,
                username,
                password,
                schedule: nonblank(field_at(fields, cols.schedule)),
                retention_days: parsed_days(field_at(fields, cols.retention)),
            },
        )
    }
}

/// Executable counterpart of `RowOutcome`.
enum RowResult {
    Skip,
    Invalid(CsvRowError),
    Valid(ValidImportAccount),
}

spec fn row_result_view(r: RowResult) -> RowOutcome {
    match r {
        RowResult::Skip => RowOutcome::Skip,
        RowResult::Invalid(e) => RowOutcome::Invalid(e@),
        RowResult::Valid(a) => RowOutcome::Valid(a@),
    }
}

fn get_field(fields: &Vec<String>, idx: Option<usize>) -> (r: Option<&String>)
    ensures
        r.deep_view() == field_at(fields.deep_view(), idx),
{
    match idx {
        Some(i) => {
            if i < fields.len() {
                assert(fields.deep_view()[i as int] == fields@[i as int]@);
                Some(&fields[i])
            } else {
                None
            }
        },
        None => None,
    }
}

fn trimmed_string(s: &str) -> (r: String)
    ensures
        r@ == trim(s@),
{
    let c = chars_of(s);
    let t = trim_chars(&c);
    string_of(&t)
}

fn trimmed_or_empty_exec(f: Option<&String>) -> (r: String)
    ensures
        r@ == trimmed_or_empty(f.deep_view()),
{
    match f {
        Some(x) => trimmed_string(x.as_str()),
        None => String::new(),
    }
}

fn nonblank_exec(f: Option<&String>) -> (r: Option<String>)
    ensures
        r.deep_view() == nonblank(f.deep_view()),
{
    match f {
        Some(x) => {
            let t = trimmed_string(x.as_str());
            let tc = chars_of(t.as_str());
            if tc.len() > 0 {
                Some(t)
            } else {
                None
            }
        },
        None => None,
    }
}

fn capitalized_exec(s: &Vec<char>) -> (r: String)
    ensures
        r@ == capitalized(s@),
{
    if s.len() > 0 {
        let up = char_to_upper(s[0]);
        let rest = slice_chars(s, 1, s.len());
        let rest_s = string_of(&rest);
        assert(rest@ =~= s@.skip(1));
        up.concat(rest_s.as_str())
    } else {
        string_of(s)
    }
}

fn parsed_port_exec(f: Option<&String>) -> (r: Option<u16>)
    ensures
        r == parsed_port(f.deep_view()),
{
    match f {
        Some(x) => {
            let c = chars_of(x.as_str());
            let t = trim_chars(&c);
            parse_u16(&t)
        },
        None => None,
    }
}

fn parsed_days_exec(f: Option<&String>) -> (r: Option<u32>)
    ensures
        r == parsed_days(f.deep_view()),
{
    match f {
        Some(x) => {
            let c = chars_of(x.as_str());
            let t = trim_chars(&c);
            parse_u32(&t)
        },
        None => None,
    }
}

fn row_error(line: usize, raw: &String, msg: String) -> (r: RowResult)
    ensures
        row_result_view(r) == RowOutcome::Invalid(
            CsvRowErrorView { line: line as nat, raw_content: raw@, error: msg@ },
        ),
{
    RowResult::Invalid(CsvRowError { line, raw_content: raw.clone(), error: msg })
}

/// Classifies and completes one data record.
fn process_row(fields: &Vec<String>, line: usize, cols: CsvColumns, delimiter: u8) -> (r: RowResult)
    ensures
        row_result_view(r) == row_outcome(fields.deep_view(), line as nat, cols, delimiter),
{
    let ghost fv = fields.deep_view();
    let sep = if delimiter == 59u8 { ";" } else { "," };
    let raw = join_strings(fields, sep);
    assert(raw@ == join_with(fv, raw_separator(delimiter)));
    if fields.len() > 0 {
        let f0 = chars_of(fields[0].as_str());
        assert(fv[0] == fields@[0]@);
        let k = trim_start_index(&f0);
        if k < f0.len() && f0[k] == '#' {
            return RowResult::Skip;
        }
    }
    let email = trimmed_or_empty_exec(get_field(fields, cols.email));
    let password = trimmed_or_empty_exec(get_field(fields, cols.password));
    let ec = chars_of(email.as_str());
    let pc = chars_of(password.as_str());
    if ec.len() == 0 {
        return row_error(line, &raw, String::from_str("Missing required 'email' address"));
    }
    let has_at = find_char_index(&ec, '@').is_some();
    proof {
        lemma_find_char(ec@, '@');
    }
    let domain_blank = match second_piece_exec(&ec, '@') {
        Some(d) => trim_chars(&d).len() == 0,
        None => true,
    };
    if !has_at || domain_blank {
        let msg = String::from_str("Invalid email format: '").concat(email.as_str()).concat("'");
        return row_error(line, &raw, msg);
    }
    if pc.len() == 0 {
        let msg = String::from_str("Missing password for account '").concat(email.as_str()).concat("'");
        return row_error(line, &raw, msg);
    }
    let name = match nonblank_exec(get_field(fields, cols.name)) {
        Some(n) => n,
        None => {
            let local = first_piece_exec(&ec, '@');
            capitalized_exec(&local)
        },
    };
    let server: Option<String> = match get_field(fields, cols.server) {
        Some(x) => Some(trimmed_string(x.as_str())),
        None => None,
    };
    let port = parsed_port_exec(get_field(fields, cols.port));
    let server_ref: Option<&str> = match &server {
        Some(x) => Some(x.as_str()),
        None => None,
    };
    let (provider, imap_server, imap_port) = detect_provider_and_server(email.as_str(), server_ref, port);
    let username = match nonblank_exec(get_field(fields, cols.username)) {
        Some(u) => u,
        None => email.clone(),
    };
    let schedule = nonblank_exec(get_field(fields, cols.schedule));
    let retention_days = parsed_days_exec(get_field(fields, cols.retention));
    let id = StorageEngine::sanitize_slug(email.as_str());
    RowResult::Valid(
        ValidImportAccount {
            id,
            name,
            email,
            provider,
            imap_server,
            imap_port,
            use_tls: true,
            auth_type: AuthType::Password,
            username,
            password,
            schedule,
            retention_days,
        },
    )
}

/// A record takes part in the import when some cell is not blank.
pub open spec fn row_has_content(fields: Seq<Seq<char>>) -> bool {
    fields.len() > 0 && exists|i: int| 0 <= i < fields.len() && trim(#[trigger] fields[i]).len() > 0
}

/// The records among the first `n` CSV rows that read well and have content,
/// each with its line number (the row's position, from 1).
pub open spec fn content_records(rows: Seq<(Seq<Seq<char>>, Option<Seq<char>>)>, n: int) -> Seq<
    (nat, Seq<Seq<char>>),
>
    decreases n,
{
    if n <= 0 {
        Seq::empty()
    } else {
        let p = content_records(rows, n - 1);
        let r = rows[n - 1];
        if r.1 is None && row_has_content(r.0) {
            p.push((n as nat, r.0))
        } else {
            p
        }
    }
}

/// Errors for the first `n` CSV rows that the reader rejected.
pub open spec fn read_errors(rows: Seq<(Seq<Seq<char>>, Option<Seq<char>>)>, n: int) -> Seq<
    CsvRowErrorView,
>
    decreases n,
{
    if n <= 0 {
        Seq::empty()
    } else {
        let p = read_errors(rows, n - 1);
        let r = rows[n - 1];
        match r.1 {
            Some(e) => p.push(
                CsvRowErrorView {
                    line: n as nat,
                    raw_content: Seq::empty(),
                    error: "CSV parsing error: "@ + e,
                },
            ),
            None => p,
        }
    }
}

/// Accounts and errors from data records, in order.
pub open spec fn outcomes(data: Seq<(nat, Seq<Seq<char>>)>, cols: CsvColumns, delimiter: u8) -> (
    Seq<ImportAccountView>,
    Seq<CsvRowErrorView>,
)
    decreases data.len(),
{
    if data.len() == 0 {
        (Seq::empty(), Seq::empty())
    } else {
        let (v, e) = outcomes(data.drop_last(), cols, delimiter);
        match row_outcome(data.last().1, data.last().0, cols, delimiter) {
            RowOutcome::Skip => (v, e),
            RowOutcome::Invalid(er) => (v, e.push(er)),
            RowOutcome::Valid(a) => (v.push(a), e),
        }
    }
}

/// The report for rows read from a CSV file: reader errors come first; the
/// first content record is a header when it names the e-mail column (then
/// its cells give the columns), otherwise the columns are positional; every
/// later record is a data record and counts in `total_rows`.
pub open spec fn import_report(rows: Seq<(Seq<Seq<char>>, Option<Seq<char>>)>, delimiter: u8) -> CsvImportReportView {
    let recs = content_records(rows, rows.len() as int);
    let errs = read_errors(rows, rows.len() as int);
    if recs.len() == 0 {
        CsvImportReportView { valid_accounts: Seq::empty(), errors: errs, total_rows: 0 }
    } else {
        let header = row_is_header(recs[0].1);
        let cols = if header {
            header_columns(recs[0].1, recs[0].1.len() as int)
        } else {
            positional_columns()
        };
        let data = recs.skip(if header { 1 } else { 0 });
        let (v, e) = outcomes(data, cols, delimiter);
        CsvImportReportView { valid_accounts: v, errors: errs + e, total_rows: data.len() }
    }
}

fn has_content_exec(fields: &Vec<String>) -> (r: bool)
    ensures
        r == row_has_content(fields.deep_view()),
{
    if fields.len() == 0 {
        return false;
    }
    let mut i: usize = 0;
    while i < fields.len()
        invariant
            i <= fields.len(),
            forall|j: int| 0 <= j < i ==> trim(#[trigger] fields.deep_view()[j]).len() == 0,
        decreases fields.len() - i,
    {
        let c = chars_of(fields[i].as_str());
        let t = trim_chars(&c);
        assert(fields.deep_view()[i as int] == fields@[i as int]@);
        if t.len() > 0 {
            return true;
        }
        i += 1;
    }
    false
}

/// Builds the import report from rows read from a CSV file.
pub fn build_import_report(rows: &Vec<(Vec<String>, Option<String>)>, delimiter: u8) -> (r: CsvImportReport)
    ensures
        r@ == import_report(rows.deep_view(), delimiter),
{
    let ghost rv = rows.deep_view();
    let mut errors: Vec<CsvRowError> = Vec::new();
    let mut rec: Vec<usize> = Vec::new();
    let mut k: usize = 0;
    let n = rows.len();
    assert(rv.len() == n);
    while k < n
        invariant
            k <= n,
            n == rows@.len(),
            rv.len() == n,
            rv == rows.deep_view(),
            errors.deep_view() == read_errors(rv, k as int),
            rec@.len() == content_records(rv, k as int).len(),
            forall|j: int|
                #![trigger rec@[j]]
                0 <= j < rec@.len() ==> rec@[j] < k && content_records(rv, k as int)[j] == (
                    (rec@[j] + 1) as nat,
                    rv[rec@[j] as int].0,
                ),
        decreases n - k,
    {
        assert(rv[k as int] == (rows@[k as int].0.deep_view(), rows@[k as int].1.deep_view()));
        let ghost before_rec = content_records(rv, k as int);
        let ghost after_rec = content_records(rv, k + 1);
        let ghost before_len = rec@.len();
        match &rows[k].1 {
            Some(e) => {
                let msg = String::from_str("CSV parsing error: ").concat(e.as_str());
                let err = CsvRowError { line: k + 1, raw_content: String::new(), error: msg };
                let ghost old_errors = errors;
                let ghost gerr = err;
                errors.push(err);
                proof {
                    lemma_push_deep_view(old_errors, errors, gerr);
                }
            },
            None => {
                if has_content_exec(&rows[k].0) {
                    rec.push(k);
                }
            },
        }
        assert(forall|j: int| 0 <= j < before_len ==> after_rec[j] == before_rec[j]);
        assert forall|j: int| 0 <= j < rec@.len() implies rec@[j] < k + 1 && content_records(rv, k + 1)[j] == (
                (rec@[j] + 1) as nat,
                rv[rec@[j] as int].0,
            ) by {
            if j < before_len {
                assert(after_rec[j] == before_rec[j]);
            }
        }
        k += 1;
    }
    assert(k == n);
    let ghost recs = content_records(rv, n as int);
    let ghost errs = read_errors(rv, n as int);
    if rec.len() == 0 {
        let r = CsvImportReport { valid_accounts: Vec::new(), errors, total_rows: 0 };
        assert(r.valid_accounts.deep_view() =~= Seq::<ImportAccountView>::empty());
        return r;
    }
    let r0 = rec[0];
    let first = &rows[r0].0;
    assert(recs[0].1 == first.deep_view());
    let header = row_is_header_exec(first);
    let cols = if header {
        header_columns_exec(first)
    } else {
        CsvColumns {
            email: Some(0),
            password: Some(1),
            name: Some(2),
            server: Some(3),
            port: Some(4),
            username: Some(5),
            retention: None,
            schedule: None,
        }
    };
    let start: usize = if header { 1 } else { 0 };
    let ghost data = recs.skip(start as int);
    let total = rec.len() - start;
    let mut valid: Vec<ValidImportAccount> = Vec::new();
    let mut j: usize = start;
    assert(data.take(0) =~= Seq::<(nat, Seq<Seq<char>>)>::empty());
    assert(errs + Seq::<CsvRowErrorView>::empty() =~= errs);
    while j < rec.len()
        invariant
            start <= j <= rec.len(),
            n == rows@.len(),
            rec@.len() == recs.len(),
            data == recs.skip(start as int),
            rv == rows.deep_view(),
            forall|t: int|
                #![trigger rec@[t]]
                0 <= t < rec@.len() ==> rec@[t] < rows@.len() && recs[t] == (
                    (rec@[t] + 1) as nat,
                    rv[rec@[t] as int].0,
                ),
            valid.deep_view() == outcomes(data.take(j - start), cols, delimiter).0,
            errors.deep_view() == errs + outcomes(data.take(j - start), cols, delimiter).1,
        decreases rec.len() - j,
    {
        let idx = rec[j];
        assert(recs[j as int] == ((idx + 1) as nat, rv[idx as int].0));
        assert(idx < n);
        assert(rv[idx as int].0 == rows@[idx as int].0.deep_view());
        let ghost pre = data.take(j - start);
        assert(data.take(j + 1 - start).drop_last() =~= pre);
        assert(data.take(j + 1 - start).last() == recs[j as int]);
        let outcome = process_row(&rows[idx].0, idx + 1, cols, delimiter);
        match outcome {
            RowResult::Skip => {},
            RowResult::Invalid(e) => {
                let ghost old_errors = errors;
                let ghost ge = e;
                errors.push(e);
                proof {
                    lemma_push_deep_view(old_errors, errors, ge);
                    assert(errs + outcomes(pre, cols, delimiter).1.push(ge@) =~= (errs + outcomes(pre, cols, delimiter).1).push(ge@));
                }
            },
            RowResult::Valid(a) => {
                let ghost old_valid = valid;
                let ghost ga = a;
                valid.push(a);
                proof {
                    lemma_push_deep_view(old_valid, valid, ga);
                }
            },
        }
        j += 1;
    }
    assert(data.take(j - start) =~= data);
    CsvImportReport { valid_accounts: valid, errors, total_rows: total }
}

/// Name for the rows the `csv` reader yields for `content`, read without
/// headers, with the given delimiter, flexible record lengths and every field
/// trimmed: per row, its fields, or the reader's error message.
pub uninterp spec fn csv_rows(content: Seq<char>, delimiter: u8) -> Seq<(Seq<Seq<char>>, Option<Seq<char>>)>;

/// Reads `content` with `csv::ReaderBuilder` (no header row, the given
/// delimiter, flexible record lengths, `Trim::All`) and collects every record:
/// its fields, or the text of the reader's error. The result is named `csv_rows`.
/// With an ASCII delimiter no record is an error: the reader reads from a
/// byte slice (no I/O error), accepts records of any length (`flexible`),
/// and splits valid UTF-8 only at ASCII bytes, so every field is valid UTF-8.
#[verifier::external_body]
fn read_csv_rows(content: &str, delimiter: u8) -> (r: Vec<(Vec<String>, Option<String>)>)
    ensures
        r.deep_view() == csv_rows(content@, delimiter),
        delimiter < 128 ==> forall|i: int| 0 <= i < r@.len() ==> (#[trigger] r@[i]).1 is None,
{
    let mut rdr = csv::ReaderBuilder::new().has_headers(false).delimiter(delimiter).flexible(true).trim(
        csv::Trim::All,
    ).from_reader(content.as_bytes());
    rdr.records().map(
        |res| match res {
            Ok(rec) => (rec.iter().map(|f| f.to_string()).collect(), None),
            Err(e) => (Vec::new(), Some(e.to_string())),
        },
    ).collect()
}

/// The report of an import with nothing in it.
pub open spec fn empty_report() -> CsvImportReportView {
    CsvImportReportView { valid_accounts: Seq::empty(), errors: Seq::empty(), total_rows: 0 }
}

proof fn lemma_no_read_errors(rows: Seq<(Seq<Seq<char>>, Option<Seq<char>>)>, n: int)
    requires
        0 <= n <= rows.len(),
        forall|i: int| 0 <= i < rows.len() ==> (#[trigger] rows[i]).1 is None,
    ensures
        read_errors(rows, n).len() == 0,
    decreases n,
{
    if n > 0 {
        lemma_no_read_errors(rows, n - 1);
        assert(rows[n - 1].1 is None);
    }
}

/// Parses CSV text into valid accounts and per-row errors. Blank text gives
/// an empty report; otherwise the delimiter is detected and the rows the CSV
/// reader yields are turned into the report. Every error concerns a data
/// row: accepted accounts and errors together are at most the data rows,
/// and exactly as many when no data row is a comment.
pub fn parse_accounts_csv(content: &str) -> (r: CsvImportReport)
    ensures
        trim(content@).len() == 0 ==> r@ == empty_report(),
        trim(content@).len() > 0 ==> r@ == import_report(
            csv_rows(content@, detected_delimiter(content@)),
            detected_delimiter(content@),
        ),
        r@.valid_accounts.len() + r@.errors.len() <= r@.total_rows,
        trim(content@).len() > 0 && (forall|i: int|
            0 <= i < data_records(csv_rows(content@, detected_delimiter(content@))).len() ==> !comment_row(
                #[trigger] data_records(csv_rows(content@, detected_delimiter(content@)))[i].1,
            )) ==> r@.valid_accounts.len() + r@.errors.len() == r@.total_rows,
{
    let cs = chars_of(content);
    let t = trim_chars(&cs);
    if t.len() == 0 {
        let r = CsvImportReport::default();
        assert(r@.valid_accounts =~= Seq::<ImportAccountView>::empty());
        assert(r@.errors =~= Seq::<CsvRowErrorView>::empty());
        return r;
    }
    let delimiter = detect_delimiter(content);
    let rows = read_csv_rows(content, delimiter);
    proof {
        let rv = rows.deep_view();
        assert forall|i: int| 0 <= i < rv.len() implies (#[trigger] rv[i]).1 is None by {
            assert(rows@[i].1 is None);
            assert(rv[i].1 == rows@[i].1.deep_view());
        }
        lemma_no_read_errors(rv, rv.len() as int);
        law_import_accepts_only_complete_accounts(rv, delimiter);
    }
    build_import_report(&rows, delimiter)
}

/// An imported account as every accepted row makes it.
pub open spec fn well_formed_import(a: ImportAccountView) -> bool {
    &&& a.email.len() > 0
    &&& a.email.contains('@')
    &&& trimmed_or_empty(second_piece(a.email, '@')).len() > 0
    &&& a.password.len() > 0
    &&& a.id == slug(a.email)
    &&& a.use_tls
    &&& a.auth_type == AuthType::Password
    &&& a.username.len() > 0
}

/// A comment row: its first field starts (after whitespace) with `#`.
pub open spec fn comment_row(fields: Seq<Seq<char>>) -> bool {
    fields.len() > 0 && trim_start(fields[0]).len() > 0 && trim_start(fields[0])[0] == '#'
}

/// The data records of an import: the records with content, without the
/// header row when there is one.
pub open spec fn data_records(rows: Seq<(Seq<Seq<char>>, Option<Seq<char>>)>) -> Seq<(nat, Seq<Seq<char>>)> {
    let recs = content_records(rows, rows.len() as int);
    if recs.len() == 0 {
        Seq::empty()
    } else {
        recs.skip(if row_is_header(recs[0].1) { 1 } else { 0 })
    }
}

proof fn lemma_outcomes(data: Seq<(nat, Seq<Seq<char>>)>, cols: CsvColumns, delimiter: u8)
    ensures
        ({
            let (v, e) = outcomes(data, cols, delimiter);
            &&& v.len() + e.len() <= data.len()
            &&& (forall|i: int| 0 <= i < data.len() ==> !comment_row(#[trigger] data[i].1)) ==> v.len() + e.len()
                == data.len()
            &&& forall|i: int| 0 <= i < v.len() ==> well_formed_import(#[trigger] v[i])
        }),
    decreases data.len(),
{
    if data.len() > 0 {
        lemma_outcomes(data.drop_last(), cols, delimiter);
        let (v, e) = outcomes(data.drop_last(), cols, delimiter);
        if forall|i: int| 0 <= i < data.len() ==> !comment_row(#[trigger] data[i].1) {
            assert forall|i: int| 0 <= i < data.drop_last().len() implies !comment_row(
                #[trigger] data.drop_last()[i].1,
            ) by {
                assert(data.drop_last()[i] == data[i]);
            }
            assert(!comment_row(data[data.len() - 1].1));
        }
        match row_outcome(data.last().1, data.last().0, cols, delimiter) {
            RowOutcome::Skip => {},
            RowOutcome::Invalid(er) => {},
            RowOutcome::Valid(a) => {
                assert forall|i: int| 0 <= i < v.push(a).len() implies well_formed_import(#[trigger] v.push(a)[i]) by {
                    if i < v.len() {
                        assert(v.push(a)[i] == v[i]);
                    }
                }
            },
        }
    }
}

/// Every account an import accepts has an address with `@` and a non-blank
/// domain, a password, the slug of its address as id, TLS on, password
/// authentication and a user name. The report's errors are the reader's
/// errors followed by the errors of data rows; the accepted accounts and the
/// data-row errors together are at most the data rows, and exactly as many
/// when no data row is a comment: every data row is accepted, rejected or a
/// comment.
pub proof fn law_import_accepts_only_complete_accounts(
    rows: Seq<(Seq<Seq<char>>, Option<Seq<char>>)>,
    delimiter: u8,
)
    ensures
        ({
            let r = import_report(rows, delimiter);
            let k = read_errors(rows, rows.len() as int).len();
            let data = data_records(rows);
            &&& r.total_rows == data.len()
            &&& k <= r.errors.len()
            &&& r.errors.subrange(0, k as int) == read_errors(rows, rows.len() as int)
            &&& r.valid_accounts.len() + (r.errors.len() - k) <= r.total_rows
            &&& (forall|i: int| 0 <= i < data.len() ==> !comment_row(#[trigger] data[i].1)) ==> r.valid_accounts.len()
                + (r.errors.len() - k) == r.total_rows
            &&& r.valid_accounts.len() <= r.total_rows
            &&& forall|i: int| 0 <= i < r.valid_accounts.len() ==> well_formed_import(#[trigger] r.valid_accounts[i])
        }),
{
    let errs = read_errors(rows, rows.len() as int);
    let recs = content_records(rows, rows.len() as int);
    if recs.len() > 0 {
        let header = row_is_header(recs[0].1);
        let cols = if header {
            header_columns(recs[0].1, recs[0].1.len() as int)
        } else {
            positional_columns()
        };
        let data = recs.skip(if header { 1 } else { 0 });
        lemma_outcomes(data, cols, delimiter);
        let (v, e) = outcomes(data, cols, delimiter);
        let r = import_report(rows, delimiter);
        assert(r.valid_accounts == v);
        assert(r.errors == errs + e);
        assert(r.total_rows == data.len());
        assert(data_records(rows) == data);
        assert((errs + e).subrange(0, errs.len() as int) =~= errs);
        assert(r.errors.len() - errs.len() == e.len());
    } else {
        assert(errs.subrange(0, errs.len() as int) =~= errs);
    }
}

} // verus!
