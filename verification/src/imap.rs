//! The decisions of an incremental IMAP sync: which folders, which UIDs,
//! what a fetched message is catalogued as, and the running progress.

use crate::config::{first_account, AccountConfig, AppConfig, FolderFilter};
use crate::error::Error;
use crate::text::{
    chars_of, contains_chars, contains_seq, decimal, decimal_text, eq_ascii_case, eq_ascii_case_chars, join_strings,
    join_with,
};
use mail_parser::MimeHeaders;
use vstd::prelude::*;

verus! {

/// How far a sync of an account has come.
#[derive(Clone, Debug)]
pub struct SyncProgress {
    pub account_id: String,
    pub current_folder: String,
    pub total_messages: u32,
    pub processed_messages: u32,
    pub downloaded_bytes: u64,
}

impl SyncProgress {
    /// Nothing done yet for the account.
    pub fn start(account_id: &str) -> (r: Self)
        ensures
            r.account_id@ == account_id@,
            r.current_folder@.len() == 0,
            r.total_messages == 0,
            r.processed_messages == 0,
            r.downloaded_bytes == 0,
    {
        SyncProgress {
            account_id: String::from_str(account_id),
            current_folder: String::new(),
            total_messages: 0,
            processed_messages: 0,
            downloaded_bytes: 0,
        }
    }

    /// A folder's new messages were found.
    pub fn add_found(&mut self, count: u32)
        requires
            old(self).total_messages + count <= u32::MAX,
        ensures
            final(self).total_messages == old(self).total_messages + count,
            final(self).processed_messages == old(self).processed_messages,
            final(self).downloaded_bytes == old(self).downloaded_bytes,
            final(self).account_id == old(self).account_id,
            final(self).current_folder == old(self).current_folder,
    {
        self.total_messages = self.total_messages + count;
    }

    /// A message of `size_bytes` bytes was stored and catalogued.
    pub fn record_stored(&mut self, size_bytes: u64)
        requires
            old(self).processed_messages < u32::MAX,
            old(self).downloaded_bytes + size_bytes <= u64::MAX,
        ensures
            final(self).processed_messages == old(self).processed_messages + 1,
            final(self).downloaded_bytes == old(self).downloaded_bytes + size_bytes,
            final(self).total_messages == old(self).total_messages,
            final(self).account_id == old(self).account_id,
            final(self).current_folder == old(self).current_folder,
    {
        self.processed_messages = self.processed_messages + 1;
        self.downloaded_bytes = self.downloaded_bytes + size_bytes;
    }
}

/// A folder name matches a filter entry when it equals it up to ASCII case
/// or contains it.
pub open spec fn folder_matches(name: Seq<char>, pattern: Seq<char>) -> bool {
    eq_ascii_case(name, pattern) || contains_seq(name, pattern)
}

/// Some entry of `patterns` matches the folder name.
pub open spec fn any_folder_match(name: Seq<char>, patterns: Seq<Seq<char>>) -> bool {
    exists|i: int| 0 <= i < patterns.len() && folder_matches(name, #[trigger] patterns[i])
}

/// A folder is synced unless an exclusion matches it; when inclusions are
/// listed, one of them must match too.
pub open spec fn folder_synced(included: Seq<Seq<char>>, excluded: Seq<Seq<char>>, name: Seq<char>) -> bool {
    !any_folder_match(name, excluded) && (included.len() == 0 || any_folder_match(name, included))
}

/// Exclusions take precedence: a folder that an exclusion matches is never
/// synced, whatever the inclusions say.
pub proof fn law_exclusion_wins(included: Seq<Seq<char>>, excluded: Seq<Seq<char>>, name: Seq<char>, i: int)
    requires
        0 <= i < excluded.len(),
        folder_matches(name, excluded[i]),
    ensures
        !folder_synced(included, excluded, name),
{
}

fn matches_any(name: &Vec<char>, patterns: &Vec<String>) -> (r: bool)
    ensures
        r == any_folder_match(name@, patterns.deep_view()),
{
    let mut i: usize = 0;
    while i < patterns.len()
        invariant
            i <= patterns.len(),
            forall|j: int| 0 <= j < i ==> !folder_matches(name@, #[trigger] patterns.deep_view()[j]),
        decreases patterns.len() - i,
    {
        let p = chars_of(patterns[i].as_str());
        assert(patterns.deep_view()[i as int] == p@);
        if eq_ascii_case_chars(name, &p) || contains_chars(name, &p) {
            return true;
        }
        i += 1;
    }
    false
}

/// Whether the account's folder filter lets a folder be synced.
pub fn should_sync_folder(filter: &FolderFilter, folder_name: &str) -> (r: bool)
    ensures
        r == folder_synced(filter.included.deep_view(), filter.exclude.deep_view(), folder_name@),
{
    let name = chars_of(folder_name);
    if matches_any(&name, &filter.exclude) {
        return false;
    }
    if filter.included.len() > 0 {
        return matches_any(&name, &filter.included);
    }
    true
}

/// The folders of a listing that the filter lets through, in listing order.
pub open spec fn folders_to_sync_spec(filter: FolderFilter, names: Seq<Seq<char>>) -> Seq<Seq<char>>
    decreases names.len(),
{
    if names.len() == 0 {
        names
    } else {
        let p = folders_to_sync_spec(filter, names.drop_last());
        if folder_synced(filter.included.deep_view(), filter.exclude.deep_view(), names.last()) {
            p.push(names.last())
        } else {
            p
        }
    }
}

/// Keeps the folders of a listing that the account's filter lets through.
pub fn folders_to_sync(filter: &FolderFilter, names: &Vec<String>) -> (r: Vec<String>)
    ensures
        r.deep_view() == folders_to_sync_spec(*filter, names.deep_view()),
{
    let mut out: Vec<String> = Vec::new();
    let mut i: usize = 0;
    assert(names.deep_view().take(0) =~= Seq::<Seq<char>>::empty());
    while i < names.len()
        invariant
            i <= names.len(),
            out.deep_view() == folders_to_sync_spec(*filter, names.deep_view().take(i as int)),
        decreases names.len() - i,
    {
        let ghost p = names.deep_view().take(i + 1);
        assert(p.drop_last() =~= names.deep_view().take(i as int));
        assert(p.last() == names@[i as int]@);
        let keep = should_sync_folder(filter, names[i].as_str());
        if keep {
            let ghost before = out;
            let n = names[i].clone();
            out.push(n);
            proof {
                crate::text::lemma_push_deep_view(before, out, n);
            }
        }
        i += 1;
    }
    assert(names.deep_view().take(names.len() as int) =~= names.deep_view());
    out
}

/// The UID search for messages after `last_uid`: `UID <last_uid + 1>:*`.
pub fn uid_search_query(last_uid: u32) -> (r: String)
    requires
        last_uid < u32::MAX,
    ensures
        r@ == "UID "@ + decimal((last_uid + 1) as nat) + ":*"@,
{
    let next: u32 = last_uid + 1;
    String::from_str("UID ").concat(decimal_text(next as u64).as_str()).concat(":*")
}

/// Calls `<[u32]>::sort_unstable`: the same values, in ascending order.
#[verifier::external_body]
fn sort_u32(v: &mut Vec<u32>)
    ensures
        final(v)@.to_multiset() == old(v)@.to_multiset(),
        forall|i: int, j: int| 0 <= i <= j < final(v)@.len() ==> final(v)@[i] <= final(v)@[j],
{
    v.sort_unstable();
}

/// The UIDs a search returned that lie after `last_uid`.
pub open spec fn uids_after(found: Seq<u32>, last_uid: u32) -> Seq<u32>
    decreases found.len(),
{
    if found.len() == 0 {
        found
    } else {
        let p = uids_after(found.drop_last(), last_uid);
        if found.last() > last_uid {
            p.push(found.last())
        } else {
            p
        }
    }
}

/// UIDs in ascending order.
pub open spec fn uid_leq() -> spec_fn(u32, u32) -> bool {
    |a: u32, b: u32| a <= b
}

/// The UIDs a sync fetches from those a search found: the ones after
/// `last_uid`, in ascending order.
pub open spec fn fetch_order(found: Seq<u32>, last_uid: u32) -> Seq<u32> {
    uids_after(found, last_uid).sort_by(uid_leq())
}

/// Every UID kept by `uids_after` comes after the checkpoint.
pub proof fn lemma_uids_after(found: Seq<u32>, last_uid: u32)
    ensures
        forall|i: int| 0 <= i < uids_after(found, last_uid).len() ==> uids_after(found, last_uid)[i] > last_uid,
    decreases found.len(),
{
    if found.len() > 0 {
        lemma_uids_after(found.drop_last(), last_uid);
        let p = uids_after(found.drop_last(), last_uid);
        let r = uids_after(found, last_uid);
        assert forall|i: int| 0 <= i < r.len() implies r[i] > last_uid by {
            if i < p.len() {
                assert(r[i] == p[i]);
            }
        }
    }
}

/// The UIDs to fetch: those found after `last_uid`, in ascending order.
pub fn new_uids(found: &Vec<u32>, last_uid: u32) -> (r: Vec<u32>)
    ensures
        r@ == fetch_order(found@, last_uid),
        r@.to_multiset() == uids_after(found@, last_uid).to_multiset(),
        forall|i: int, j: int| 0 <= i <= j < r@.len() ==> r@[i] <= r@[j],
        forall|i: int| 0 <= i < r@.len() ==> r@[i] > last_uid,
{
    let mut out: Vec<u32> = Vec::new();
    let mut i: usize = 0;
    assert(found@.take(0) =~= Seq::<u32>::empty());
    while i < found.len()
        invariant
            i <= found.len(),
            out@ == uids_after(found@.take(i as int), last_uid),
            forall|k: int| 0 <= k < out@.len() ==> out@[k] > last_uid,
        decreases found.len() - i,
    {
        let ghost p = found@.take(i + 1);
        assert(p.drop_last() =~= found@.take(i as int));
        if found[i] > last_uid {
            out.push(found[i]);
        }
        assert(out@ =~= uids_after(p, last_uid)) by {
            assert(p.last() == found@[i as int]);
        }
        i += 1;
    }
    assert(found@.take(found.len() as int) =~= found@);
    let ghost before = out@;
    sort_u32(&mut out);
    proof {
        assert forall|k: int| 0 <= k < out@.len() implies out@[k] > last_uid by {
            out@.to_multiset_ensures();
            before.to_multiset_ensures();
            assert(out@.to_multiset().count(out@[k]) > 0);
            assert(before.contains(out@[k]));
            let j = choose|j: int| 0 <= j < before.len() && before[j] == out@[k];
            assert(before[j] > last_uid);
        }
        let leq = uid_leq();
        assert(vstd::relations::total_ordering(leq)) by {
            assert(vstd::relations::reflexive(leq));
            assert(vstd::relations::antisymmetric(leq));
            assert(vstd::relations::transitive(leq));
            assert(vstd::relations::strongly_connected(leq));
        }
        assert(vstd::relations::sorted_by(out@, leq));
        before.lemma_sort_by_ensures(leq);
        vstd::seq_lib::lemma_sorted_unique(out@, before.sort_by(leq), leq);
    }
    out
}

/// `host:port` of the account's IMAP server.
pub fn server_address(account: &AccountConfig) -> (r: String)
    ensures
        r@ == account.imap_server@ + ":"@ + decimal(account.imap_port as nat),
{
    account.imap_server.clone().concat(":").concat(decimal_text(account.imap_port as u64).as_str())
}

/// The status a sync run is recorded with.
pub fn run_status(failed: bool) -> (r: &'static str)
    ensures
        r@ == (if failed {
            "partial_or_failed"@
        } else {
            "success"@
        }),
{
    if failed {
        "partial_or_failed"
    } else {
        "success"
    }
}

/// Header fields of a message as read for the catalogue: subject, the
/// addresses of From, To and Cc (each when the header is there), the date
/// in seconds, and the Message-ID.
pub struct MailHeadersView {
    pub subject: Option<Seq<char>>,
    pub from: Option<AddressList>,
    pub to: Option<AddressList>,
    pub cc: Option<AddressList>,
    pub date: Option<i64>,
    pub message_id: Option<Seq<char>>,
}

/// Name for the subject, date (in seconds) and Message-ID that
/// `mail_parser` reads from raw message bytes, or nothing when it cannot
/// parse them.
pub uninterp spec fn mail_fields(raw: Seq<u8>) -> Option<(Option<Seq<char>>, Option<i64>, Option<Seq<char>>)>;

/// Calls `MessageParser::parse` and reads the subject, date and Message-ID.
#[verifier::external_body]
fn parse_fields(raw: &[u8]) -> (r: Option<(Option<String>, Option<i64>, Option<String>)>)
    ensures
        r.deep_view() == mail_fields(raw@),
{
    let p = mail_parser::MessageParser::default().parse(raw)?;
    Some((p.subject().map(String::from), p.date().map(|d| d.to_timestamp()), p.message_id().map(String::from)))
}

/// The entries of one address header, in order: each one's e-mail
/// address, when it has one.
pub type AddressList = Seq<Option<Seq<char>>>;

/// Name for the entries of the From, To and Cc headers (each when the
/// header is there) that `mail_parser` reads from raw message bytes, or
/// nothing when it cannot parse them.
pub uninterp spec fn mail_addresses(raw: Seq<u8>) -> Option<(Option<AddressList>, Option<AddressList>, Option<AddressList>)>;

/// Calls `MessageParser::parse` and reads the entries of From, To and Cc
/// (`Address::iter`: those of a header's list, or of all its groups, in
/// order), each as its e-mail address when it has one.
#[verifier::external_body]
fn parse_addresses(raw: &[u8]) -> (r: Option<(Option<Vec<Option<String>>>, Option<Vec<Option<String>>>, Option<Vec<Option<String>>>)>)
    ensures
        r.deep_view() == mail_addresses(raw@),
{
    let p = mail_parser::MessageParser::default().parse(raw)?;
    let addrs = |a: &mail_parser::Address| -> Vec<Option<String>> { a.iter().map(|x| x.address.as_deref().map(String::from)).collect() };
    Some((p.from().map(addrs), p.to().map(addrs), p.cc().map(addrs)))
}

/// The e-mail addresses of a header's entries, skipping entries without one.
pub open spec fn present_addresses(a: AddressList) -> Seq<Seq<char>>
    decreases a.len(),
{
    if a.len() == 0 {
        Seq::empty()
    } else {
        let p = present_addresses(a.drop_last());
        match a.last() {
            Some(x) => p.push(x),
            None => p,
        }
    }
}

/// The addresses of a header as the catalogue shows them: those present,
/// separated by `, `.
pub fn format_address(entries: &Vec<Option<String>>) -> (r: String)
    ensures
        r@ == join_with(present_addresses(entries.deep_view()), ", "@),
{
    let mut present: Vec<String> = Vec::new();
    let mut i: usize = 0;
    while i < entries.len()
        invariant
            i <= entries.len(),
            present.deep_view() == present_addresses(entries.deep_view().take(i as int)),
        decreases entries.len() - i,
    {
        assert(entries.deep_view().take(i + 1).drop_last() =~= entries.deep_view().take(i as int));
        match &entries[i] {
            Some(x) => {
                let ghost before = present;
                let c = x.clone();
                let ghost gc = c;
                present.push(c);
                proof {
                    crate::text::lemma_push_deep_view(before, present, gc);
                }
            },
            None => {},
        }
        i += 1;
    }
    assert(entries.deep_view().take(entries.len() as int) =~= entries.deep_view());
    join_strings(&present, ", ")
}

/// The header fields the catalogue reads from raw message bytes, or nothing
/// when they cannot be parsed.
pub open spec fn mail_headers(raw: Seq<u8>) -> Option<MailHeadersView> {
    match (mail_fields(raw), mail_addresses(raw)) {
        (Some((subject, date, message_id)), Some((from, to, cc))) => Some(
            MailHeadersView { subject, from, to, cc, date, message_id },
        ),
        _ => None,
    }
}

/// Name for the first text body and the attachments (name, content type,
/// size) `mail_parser` reads from raw message bytes, or nothing when it
/// cannot parse them.
pub uninterp spec fn mail_contents(raw: Seq<u8>) -> Option<(Option<Seq<char>>, Seq<(Option<Seq<char>>, Option<Seq<char>>, u64)>)>;

/// Calls `MessageParser::parse` and reads the first text body and, for each
/// attachment, its name, its content type's main type and its size.
#[verifier::external_body]
fn parse_contents(raw: &[u8]) -> (r: Option<(Option<String>, Vec<(Option<String>, Option<String>, u64)>)>)
    ensures
        r.deep_view() == mail_contents(raw@),
{
    let p = mail_parser::MessageParser::default().parse(raw)?;
    let atts = p.attachments().map(|a| (a.attachment_name().map(String::from), a.content_type().map(|c| c.ctype().to_string()), a.contents().len() as u64)).collect();
    Some((p.body_text(0).map(|s| s.to_string()), atts))
}

/// Name for whether a number of seconds is a time `chrono` can represent.
pub uninterp spec fn utc_representable(secs: i64) -> bool;

/// Calls `DateTime::<Utc>::from_timestamp` and tells whether it gave a time.
#[verifier::external_body]
pub(crate) fn utc_in_range(secs: i64) -> (r: bool)
    ensures
        r == utc_representable(secs),
{
    chrono::DateTime::from_timestamp(secs, 0).is_some()
}

/// What a fetched message is catalogued as.
pub struct MessageSummary {
    pub subject: Option<String>,
    pub from_addr: Option<String>,
    pub to_addrs: Option<String>,
    pub cc_addrs: Option<String>,
    /// Seconds since the Unix epoch.
    pub date: Option<i64>,
    pub body_text: Option<String>,
    /// Name, content type, size.
    pub attachments: Vec<(String, String, u64)>,
    pub message_id: Option<String>,
}

/// Addresses joined as the catalogue shows them.
pub open spec fn joined_addresses(a: Option<AddressList>) -> Option<Seq<char>> {
    match a {
        Some(l) => Some(join_with(present_addresses(l), ", "@)),
        None => None,
    }
}

/// The catalogue date: the message's own date when `chrono` can represent
/// it, else the server's internal date.
pub open spec fn summary_date(h: Option<MailHeadersView>, internal_date: Option<i64>) -> Option<i64> {
    match h {
        Some(hv) => match hv.date {
            Some(d) => if utc_representable(d) {
                Some(d)
            } else {
                internal_date
            },
            None => internal_date,
        },
        None => internal_date,
    }
}

/// An attachment as catalogued: unnamed ones are called `unnamed`, and
/// untyped ones `application/octet-stream`.
pub open spec fn catalogued_attachment(a: (Option<Seq<char>>, Option<Seq<char>>, u64)) -> (Seq<char>, Seq<char>, u64) {
    (
        match a.0 {
            Some(n) => n,
            None => "unnamed"@,
        },
        match a.1 {
            Some(t) => t,
            None => "application/octet-stream"@,
        },
        a.2,
    )
}

fn join_opt(a: &Option<Vec<Option<String>>>) -> (r: Option<String>)
    ensures
        r.deep_view() == joined_addresses(a.deep_view()),
{
    match a {
        Some(l) => Some(format_address(l)),
        None => None,
    }
}

/// The attachments of a parsed message as they are catalogued and shown:
/// unnamed ones called `unnamed`, untyped ones `application/octet-stream`,
/// each with its size, in order.
pub fn attachment_details(atts: &Vec<(Option<String>, Option<String>, u64)>) -> (r: Vec<(String, String, u64)>)
    ensures
        r.deep_view() == Seq::new(atts.deep_view().len(), |i: int| catalogued_attachment(atts.deep_view()[i])),
{
    let mut out: Vec<(String, String, u64)> = Vec::new();
    let mut i: usize = 0;
    while i < atts.len()
        invariant
            i <= atts.len(),
            out.deep_view() =~= Seq::new(i as nat, |j: int| catalogued_attachment(atts.deep_view()[j])),
        decreases atts.len() - i,
    {
        let a = &atts[i];
        let name = match &a.0 {
            Some(n) => n.clone(),
            None => String::from_str("unnamed"),
        };
        let mime = match &a.1 {
            Some(t) => t.clone(),
            None => String::from_str("application/octet-stream"),
        };
        let item = (name, mime, a.2);
        let ghost before = out;
        out.push(item);
        proof {
            crate::text::lemma_push_deep_view(before, out, item);
            assert(atts.deep_view()[i as int] == (a.0.deep_view(), a.1.deep_view(), a.2));
        }
        i += 1;
    }
    assert(out.deep_view() =~= Seq::new(atts.deep_view().len(), |i: int| catalogued_attachment(atts.deep_view()[i])));
    out
}

/// Name for the first HTML body, the first text body and the attachments
/// (name, content type, size) that `mail_parser` reads from raw message
/// bytes, or nothing when it cannot parse them.
pub uninterp spec fn mail_detail(raw: Seq<u8>) -> Option<(Option<Seq<char>>, Option<Seq<char>>, Seq<(Option<Seq<char>>, Option<Seq<char>>, u64)>)>;

/// Calls `MessageParser::parse` and reads the first HTML body, the first
/// text body and, for each attachment, its name, its content type's main
/// type and its size.
#[verifier::external_body]
fn parse_detail(raw: &[u8]) -> (r: Option<(Option<String>, Option<String>, Vec<(Option<String>, Option<String>, u64)>)>)
    ensures
        r.deep_view() == mail_detail(raw@),
{
    let p = mail_parser::MessageParser::default().parse(raw)?;
    let atts = p.attachments().map(|a| (a.attachment_name().map(String::from), a.content_type().map(|c| c.ctype().to_string()), a.contents().len() as u64)).collect();
    Some((p.body_html(0).map(|s| s.to_string()), p.body_text(0).map(|s| s.to_string()), atts))
}

/// What the message view shows of a stored message besides its catalogue
/// record: its HTML and text bodies and its attachments (name, content type,
/// size).
#[derive(Clone, Debug)]
pub struct MessageDetail {
    pub body_html: Option<String>,
    pub body_text: Option<String>,
    pub attachments: Vec<(String, String, u64)>,
}

/// The detail shown for what the parser read: the bodies as they are and
/// the attachments as catalogued; nothing when the message did not parse.
pub open spec fn detail_shown(
    d: MessageDetail,
    parsed: Option<(Option<Seq<char>>, Option<Seq<char>>, Seq<(Option<Seq<char>>, Option<Seq<char>>, u64)>)>,
) -> bool {
    match parsed {
        Some((html, text, atts)) => d.body_html.deep_view() == html && d.body_text.deep_view() == text
            && d.attachments.deep_view() == Seq::new(atts.len(), |i: int| catalogued_attachment(atts[i])),
        None => d.body_html is None && d.body_text is None && d.attachments@.len() == 0,
    }
}

/// The detail shown for a parsed message (see `detail_shown`).
pub fn message_detail_from(
    parsed: Option<(Option<String>, Option<String>, Vec<(Option<String>, Option<String>, u64)>)>,
) -> (r: MessageDetail)
    ensures
        detail_shown(r, parsed.deep_view()),
{
    match parsed {
        Some((html, text, atts)) => {
            let attachments = attachment_details(&atts);
            MessageDetail { body_html: html, body_text: text, attachments }
        },
        None => MessageDetail { body_html: None, body_text: None, attachments: Vec::new() },
    }
}

/// The detail shown for a stored message's raw bytes.
pub fn message_detail(raw: &[u8]) -> (r: MessageDetail)
    ensures
        detail_shown(r, mail_detail(raw@)),
{
    message_detail_from(parse_detail(raw))
}

/// Reads what the catalogue keeps of a fetched message; `internal_date` is
/// the server's date of the message, used when the message has none.
pub fn summarize_message(raw: &[u8], internal_date: Option<i64>) -> (r: MessageSummary)
    ensures
        ({
            let h = mail_headers(raw@);
            &&& r.date == summary_date(h, internal_date)
            &&& match h {
                Some(hv) => r.subject.deep_view() == hv.subject && r.from_addr.deep_view() == joined_addresses(hv.from)
                    && r.to_addrs.deep_view() == joined_addresses(hv.to) && r.cc_addrs.deep_view() == joined_addresses(
                    hv.cc,
                ) && r.message_id.deep_view() == hv.message_id,
                None => r.subject is None && r.from_addr is None && r.to_addrs is None && r.cc_addrs is None
                    && r.message_id is None,
            }
        }),
        match mail_contents(raw@) {
            Some((body, atts)) => r.body_text.deep_view() == body && r.attachments.deep_view() == Seq::new(
                atts.len(),
                |i: int| catalogued_attachment(atts[i]),
            ),
            None => r.body_text is None && r.attachments@.len() == 0,
        },
{
    let (subject, from_addr, to_addrs, cc_addrs, date, message_id) = match (parse_fields(raw), parse_addresses(raw)) {
        (Some((subject, d, message_id)), Some((from, to, cc))) => {
            let date = match d {
                Some(d) => if utc_in_range(d) {
                    Some(d)
                } else {
                    internal_date
                },
                None => internal_date,
            };
            (subject, join_opt(&from), join_opt(&to), join_opt(&cc), date, message_id)
        },
        _ => (None, None, None, None, internal_date, None),
    };
    let (body_text, attachments) = match parse_contents(raw) {
        Some((body, atts)) => {
            let out = attachment_details(&atts);
            (body, out)
        },
        None => (None, Vec::new()),
    };
    MessageSummary { subject, from_addr, to_addrs, cc_addrs, date, body_text, attachments, message_id }
}

/// Positions of the enabled accounts, in order.
pub open spec fn enabled_positions(accts: Seq<AccountConfig>) -> Seq<usize>
    decreases accts.len(),
{
    if accts.len() == 0 {
        Seq::empty()
    } else {
        let p = enabled_positions(accts.drop_last());
        if accts.last().enabled {
            p.push((accts.len() - 1) as usize)
        } else {
            p
        }
    }
}

/// The accounts a sync run covers (as positions in the configuration): the
/// one named by id or e-mail address, or every enabled account.
pub fn accounts_to_sync(config: &AppConfig, target: Option<&str>) -> (r: Result<Vec<usize>, Error>)
    ensures
        match target {
            Some(t) => {
                let idx = first_account(config.accounts@, t@);
                if idx < config.accounts@.len() {
                    r matches Ok(v) && v@ == seq![idx as usize]
                } else {
                    r matches Err(Error::AccountNotFound(m)) && m@ == t@
                }
            },
            None => r matches Ok(v) && v@ == enabled_positions(config.accounts@),
        },
{
    match target {
        Some(t) => {
            let i = config.find_account_index(t);
            if i < config.accounts.len() {
                let mut v: Vec<usize> = Vec::new();
                v.push(i);
                assert(v@ =~= seq![i]);
                Ok(v)
            } else {
                Err(Error::AccountNotFound(String::from_str(t)))
            }
        },
        None => {
            let mut out: Vec<usize> = Vec::new();
            let mut i: usize = 0;
            assert(config.accounts@.take(0) =~= Seq::<AccountConfig>::empty());
            while i < config.accounts.len()
                invariant
                    i <= config.accounts@.len(),
                    out@ == enabled_positions(config.accounts@.take(i as int)),
                decreases config.accounts.len() - i,
            {
                let ghost p = config.accounts@.take(i + 1);
                assert(p.drop_last() =~= config.accounts@.take(i as int));
                if config.accounts[i].enabled {
                    out.push(i);
                }
                i += 1;
            }
            assert(config.accounts@.take(config.accounts.len() as int) =~= config.accounts@);
            Ok(out)
        },
    }
}

} // verus!
verus! {

/// A folder filter matches by containment: when the folder name holds an
/// exclusion pattern anywhere (`name[at..at+p.len()] == p`, case as given),
/// the folder is never synced, whatever the inclusions; and when it holds an
/// inclusion pattern anywhere, the inclusion list does not keep it out (it
/// is synced exactly when no exclusion matches it).
pub proof fn law_folder_patterns_match_by_containment(
    included: Seq<Seq<char>>,
    excluded: Seq<Seq<char>>,
    name: Seq<char>,
    i: int,
    at: int,
)
    ensures
        0 <= i < excluded.len() && 0 <= at && at + excluded[i].len() <= name.len() && name.subrange(
            at,
            at + excluded[i].len(),
        ) == excluded[i] ==> !folder_synced(included, excluded, name),
        0 <= i < included.len() && 0 <= at && at + included[i].len() <= name.len() && name.subrange(
            at,
            at + included[i].len(),
        ) == included[i] ==> folder_synced(included, excluded, name) == folder_synced(Seq::empty(), excluded, name),
{
    if 0 <= i < excluded.len() && 0 <= at && at + excluded[i].len() <= name.len() && name.subrange(
        at,
        at + excluded[i].len(),
    ) == excluded[i] {
        assert(contains_seq(name, excluded[i]));
        assert(folder_matches(name, excluded[i]));
    }
    if 0 <= i < included.len() && 0 <= at && at + included[i].len() <= name.len() && name.subrange(
        at,
        at + included[i].len(),
    ) == included[i] {
        assert(contains_seq(name, included[i]));
        assert(folder_matches(name, included[i]));
        assert(any_folder_match(name, included));
    }
}

} // verus!
