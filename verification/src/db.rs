//! Catalogue records, the folder bookkeeping of a sync, and the SQL of the
//! advanced message search.

use crate::crypto::string_from_utf8;
use crate::text::{join_strings, join_with, lowercase, str_eq, string_of, chars_of, split_words, to_lower, trim, trim_str, words};
use vstd::prelude::*;
use vstd::utf8::{decode_utf8, encode_utf8, valid_utf8};

verus! {

/// A folder of an account as the catalogue keeps it.
#[derive(Clone, Debug)]
pub struct FolderRecord {
    pub id: String,
    pub account_id: String,
    pub remote_name: String,
    pub local_slug: String,
    pub uidvalidity: Option<u32>,
    pub last_synced_uid: u32,
    pub message_count: u32,
    /// Seconds since the Unix epoch.
    pub updated_at: i64,
}

/// A stored message as the catalogue keeps it.
#[derive(Clone, Debug)]
pub struct MessageRecord {
    pub id: String,
    pub account_id: String,
    pub folder_id: String,
    pub uid: u32,
    pub message_id: Option<String>,
    pub subject: Option<String>,
    pub from_addr: Option<String>,
    pub to_addrs: Option<String>,
    pub cc_addrs: Option<String>,
    /// Seconds since the Unix epoch.
    pub date: Option<i64>,
    pub size_bytes: u64,
    pub relative_path: String,
    pub sha256_hash: String,
    pub is_remote_deleted: bool,
    /// Seconds since the Unix epoch.
    pub created_at: i64,
}

/// An attachment of a stored message.
#[derive(Clone, Debug)]
pub struct AttachmentRecord {
    pub id: String,
    pub message_id: String,
    pub filename: String,
    pub mime_type: String,
    pub size_bytes: u64,
}

/// One hit of a search.
#[derive(Clone, Debug)]
pub struct SearchResult {
    pub message_id: String,
    pub account_id: String,
    pub folder_name: String,
    pub subject: String,
    pub from_addr: String,
    pub to_addrs: String,
    /// Seconds since the Unix epoch.
    pub date: Option<i64>,
    pub relative_path: String,
    pub snippet: String,
}

/// One run of a sync, as the history keeps it.
#[derive(Clone, Debug)]
pub struct SyncHistoryRecord {
    pub id: String,
    pub account_id: String,
    pub status: String,
    /// Seconds since the Unix epoch.
    pub start_time: i64,
    pub end_time: Option<i64>,
    pub messages_downloaded: u32,
    pub bytes_downloaded: u64,
    pub error_message: Option<String>,
}

/// Totals of the catalogue.
#[derive(Clone, Debug)]
pub struct StorageStats {
    pub total_accounts: u32,
    pub total_folders: u32,
    pub total_messages: u64,
    pub total_bytes: u64,
}

/// What to do with a folder's catalogue record when a sync opens the folder.
pub enum FolderAction {
    /// No record yet: one must be created.
    Create,
    /// The record stands as it is.
    Keep(FolderRecord),
    /// The server's UIDVALIDITY changed: the record as rewritten, starting
    /// over from UID 0.
    Reset(FolderRecord),
}

/// Decides what becomes of a folder's record when the server reports
/// `uidvalidity`. A changed UIDVALIDITY (both known and different) means the
/// old UIDs are void: the sync starts over from UID 0.
pub fn folder_for_sync(existing: Option<FolderRecord>, uidvalidity: Option<u32>, now_secs: i64) -> (r: FolderAction)
    ensures
        match existing {
            None => r is Create,
            Some(f) => if uidvalidity is Some && f.uidvalidity is Some && f.uidvalidity != uidvalidity {
                r matches FolderAction::Reset(g) && g == (FolderRecord {
                    uidvalidity,
                    last_synced_uid: 0,
                    updated_at: now_secs,
                    ..f
                })
            } else {
                r matches FolderAction::Keep(g) && g == f
            },
        },
{
    match existing {
        None => FolderAction::Create,
        Some(f) => {
            match (uidvalidity, f.uidvalidity) {
                (Some(new_uv), Some(old_uv)) => {
                    if new_uv != old_uv {
                        FolderAction::Reset(FolderRecord { uidvalidity, last_synced_uid: 0, updated_at: now_secs, ..f })
                    } else {
                        FolderAction::Keep(f)
                    }
                },
                _ => FolderAction::Keep(f),
            }
        },
    }
}

/// Filters of the advanced search. Text filters are trimmed, and blank ones
/// are ignored.
#[derive(Clone, Debug)]
pub struct AdvancedSearchFilter {
    pub query: Option<String>,
    pub exclude_words: Option<String>,
    pub from: Option<String>,
    pub to: Option<String>,
    pub cc: Option<String>,
    pub subject: Option<String>,
    pub date_from: Option<String>,
    pub date_to: Option<String>,
    pub account_id: Option<String>,
    pub folder_id: Option<String>,
    pub has_attachments: Option<bool>,
    pub attachment_name: Option<String>,
    pub attachment_type: Option<String>,
    pub min_size_bytes: Option<u64>,
    pub include_deleted: Option<bool>,
    pub limit: Option<u32>,
}

impl Default for AdvancedSearchFilter {
    fn default() -> (r: Self)
        ensures
            r.query is None && r.exclude_words is None && r.from is None && r.to is None && r.cc is None
                && r.subject is None && r.date_from is None && r.date_to is None && r.account_id is None
                && r.folder_id is None && r.has_attachments is None && r.attachment_name is None
                && r.attachment_type is None && r.min_size_bytes is None && r.include_deleted is None
                && r.limit is None,
    {
        AdvancedSearchFilter {
            query: None,
            exclude_words: None,
            from: None,
            to: None,
            cc: None,
            subject: None,
            date_from: None,
            date_to: None,
            account_id: None,
            folder_id: None,
            has_attachments: None,
            attachment_name: None,
            attachment_type: None,
            min_size_bytes: None,
            include_deleted: None,
            limit: None,
        }
    }
}

/// A value bound to a `?` of the search SQL.
#[derive(Clone, Debug)]
pub enum SqlValue {
    Text(String),
    Integer(i64),
}

/// A bound value as plain data.
pub enum SqlValueView {
    Text(Seq<char>),
    Integer(i64),
}

impl View for SqlValue {
    type V = SqlValueView;

    open spec fn view(&self) -> SqlValueView {
        match self {
            SqlValue::Text(s) => SqlValueView::Text(s@),
            SqlValue::Integer(i) => SqlValueView::Integer(*i),
        }
    }
}

impl DeepView for SqlValue {
    type V = SqlValueView;

    open spec fn deep_view(&self) -> SqlValueView {
        self@
    }
}

/// The SQL of a search and the values of its `?` placeholders, in order.
#[derive(Clone, Debug)]
pub struct SearchQuery {
    pub sql: String,
    pub params: Vec<SqlValue>,
}

/// A text filter, trimmed, when it is set and not blank.
pub open spec fn trimmed_field(o: Option<Seq<char>>) -> Option<Seq<char>> {
    match o {
        Some(s) => if trim(s).len() > 0 {
            Some(trim(s))
        } else {
            None
        },
        None => None,
    }
}

/// The words of a text filter.
pub open spec fn field_words(o: Option<Seq<char>>) -> Seq<Seq<char>> {
    match trimmed_field(o) {
        Some(t) => words(t),
        None => Seq::empty(),
    }
}

/// `%w%`: a LIKE pattern for text containing `w`.
pub open spec fn like_pattern(w: Seq<char>) -> Seq<char> {
    "%"@ + w + "%"@
}

/// One condition per word of a text filter.
pub open spec fn word_conds(o: Option<Seq<char>>, cond: Seq<char>) -> Seq<Seq<char>> {
    Seq::new(field_words(o).len(), |i: int| cond)
}

/// The LIKE patterns of the words of a text filter.
pub open spec fn word_params(o: Option<Seq<char>>) -> Seq<SqlValueView> {
    Seq::new(field_words(o).len(), |i: int| SqlValueView::Text(like_pattern(field_words(o)[i])))
}

/// `s` with every `"` doubled.
pub open spec fn double_quotes(s: Seq<char>) -> Seq<char>
    decreases s.len(),
{
    if s.len() == 0 {
        s
    } else if s.last() == '"' {
        double_quotes(s.drop_last()) + seq!['"', '"']
    } else {
        double_quotes(s.drop_last()).push(s.last())
    }
}

/// `s` without the character `c`.
pub open spec fn without_char(s: Seq<char>, c: char) -> Seq<char>
    decreases s.len(),
{
    if s.len() == 0 {
        s
    } else if s.last() == c {
        without_char(s.drop_last(), c)
    } else {
        without_char(s.drop_last(), c).push(s.last())
    }
}

/// A prefix-match token of the full-text query: the word, quoted, with
/// stars dropped.
pub open spec fn fts_token(w: Seq<char>) -> Seq<char> {
    "\""@ + without_char(double_quotes(w), '*') + "\"*"@
}

/// The full-text query for the trimmed search text: taken as it is when it
/// holds a quote, else each word becomes a quoted prefix match.
pub open spec fn fts_query(q: Seq<char>) -> Seq<char> {
    if q.contains('"') {
        q
    } else if words(q).len() == 0 {
        "\""@ + double_quotes(q) + "\""@
    } else {
        join_with(Seq::new(words(q).len(), |i: int| fts_token(words(q)[i])), " "@)
    }
}

/// The first ten bytes of a date filter, as text.
pub open spec fn date_prefix(t: Seq<char>) -> Seq<char> {
    if encode_utf8(t).len() >= 10 {
        decode_utf8(encode_utf8(t).take(10))
    } else {
        t
    }
}

/// A date filter's first ten bytes end on a character boundary (else the
/// search cannot cut it there).
pub open spec fn date_field_cuttable(o: Option<Seq<char>>) -> bool {
    match trimmed_field(o) {
        Some(t) => encode_utf8(t).len() >= 10 ==> valid_utf8(encode_utf8(t).take(10)),
        None => true,
    }
}

/// A scope filter (account or folder): trimmed, not blank and not `ALL`.
pub open spec fn scope_field(o: Option<Seq<char>>) -> Option<Seq<char>> {
    match trimmed_field(o) {
        Some(t) => if t != "ALL"@ {
            Some(t)
        } else {
            None
        },
        None => None,
    }
}

/// The condition for an attachment kind, by its lower-cased name.
pub open spec fn attachment_kind_condition(k: Seq<char>) -> Option<Seq<char>> {
    if k == "pdf"@ {
        Some("EXISTS (SELECT 1 FROM attachments a WHERE a.message_id = m.id AND (a.mime_type LIKE '%pdf%' OR a.filename LIKE '%.pdf'))"@)
    } else if k == "image"@ {
        Some("EXISTS (SELECT 1 FROM attachments a WHERE a.message_id = m.id AND (a.mime_type LIKE 'image/%' OR a.filename LIKE '%.png' OR a.filename LIKE '%.jpg' OR a.filename LIKE '%.jpeg' OR a.filename LIKE '%.gif' OR a.filename LIKE '%.webp'))"@)
    } else if k == "spreadsheet"@ {
        Some("EXISTS (SELECT 1 FROM attachments a WHERE a.message_id = m.id AND (a.filename LIKE '%.xlsx' OR a.filename LIKE '%.xls' OR a.filename LIKE '%.csv'))"@)
    } else if k == "archive"@ {
        Some("EXISTS (SELECT 1 FROM attachments a WHERE a.message_id = m.id AND (a.mime_type LIKE '%zip%' OR a.mime_type LIKE '%tar%' OR a.mime_type LIKE '%compressed%' OR a.filename LIKE '%.zip' OR a.filename LIKE '%.tar%' OR a.filename LIKE '%.gz' OR a.filename LIKE '%.7z' OR a.filename LIKE '%.rar'))"@)
    } else if k == "document"@ {
        Some("EXISTS (SELECT 1 FROM attachments a WHERE a.message_id = m.id AND (a.filename LIKE '%.doc%' OR a.filename LIKE '%.docx' OR a.filename LIKE '%.odt' OR a.filename LIKE '%.rtf' OR a.filename LIKE '%.txt'))"@)
    } else {
        None
    }
}

/// The attachment kind filter, trimmed, when set, not blank and not `all`.
pub open spec fn kind_field(o: Option<Seq<char>>) -> Option<Seq<char>> {
    match trimmed_field(o) {
        Some(t) => if t != "all"@ {
            Some(t)
        } else {
            None
        },
        None => None,
    }
}

/// Zero or one item.
pub open spec fn opt_seq<A>(o: Option<A>) -> Seq<A> {
    match o {
        Some(a) => seq![a],
        None => Seq::empty(),
    }
}

/// The conditions on the text filters: the full-text match, then one per
/// word of the sender, recipients, copies and subject filters.
pub open spec fn text_conditions(f: AdvancedSearchFilter) -> Seq<Seq<char>> {
    opt_seq(if trimmed_field(f.query.deep_view()) is Some { Some("messages_fts MATCH ?"@) } else { None })
        + word_conds(f.from.deep_view(), "m.from_addr LIKE ?"@)
        + word_conds(f.to.deep_view(), "m.to_addrs LIKE ?"@)
        + word_conds(f.cc.deep_view(), "m.cc_addrs LIKE ?"@)
        + word_conds(f.subject.deep_view(), "m.subject LIKE ?"@)
}

/// The values of the text conditions.
pub open spec fn text_params(f: AdvancedSearchFilter) -> Seq<SqlValueView> {
    opt_seq(
        match trimmed_field(f.query.deep_view()) {
            Some(t) => Some(SqlValueView::Text(fts_query(t))),
            None => None,
        },
    ) + word_params(f.from.deep_view()) + word_params(f.to.deep_view()) + word_params(f.cc.deep_view())
        + word_params(f.subject.deep_view())
}

/// The conditions on dates, account and folder.
pub open spec fn scope_conditions(f: AdvancedSearchFilter) -> Seq<Seq<char>> {
    opt_seq(if trimmed_field(f.date_from.deep_view()) is Some { Some("date(m.date) >= ?"@) } else { None })
        + opt_seq(if trimmed_field(f.date_to.deep_view()) is Some { Some("date(m.date) <= ?"@) } else { None })
        + opt_seq(if scope_field(f.account_id.deep_view()) is Some { Some("m.account_id = ?"@) } else { None })
        + opt_seq(if scope_field(f.folder_id.deep_view()) is Some { Some("m.folder_id = ?"@) } else { None })
}

/// The values of the date, account and folder conditions.
pub open spec fn scope_params(f: AdvancedSearchFilter) -> Seq<SqlValueView> {
    opt_seq(
        match trimmed_field(f.date_from.deep_view()) {
            Some(t) => Some(SqlValueView::Text(date_prefix(t))),
            None => None,
        },
    ) + opt_seq(
        match trimmed_field(f.date_to.deep_view()) {
            Some(t) => Some(SqlValueView::Text(date_prefix(t))),
            None => None,
        },
    ) + opt_seq(
        match scope_field(f.account_id.deep_view()) {
            Some(t) => Some(SqlValueView::Text(t)),
            None => None,
        },
    ) + opt_seq(
        match scope_field(f.folder_id.deep_view()) {
            Some(t) => Some(SqlValueView::Text(t)),
            None => None,
        },
    )
}

/// The conditions on deletion, size and attachments, then one per excluded
/// word.
pub open spec fn content_conditions(f: AdvancedSearchFilter) -> Seq<Seq<char>> {
    let att_kind = match kind_field(f.attachment_type.deep_view()) {
        Some(k) => attachment_kind_condition(lowercase(k)),
        None => None,
    };
    opt_seq(if f.include_deleted != Some(true) { Some("m.is_remote_deleted = 0"@) } else { None })
        + opt_seq(
        match f.min_size_bytes {
            Some(m) => if m > 0 {
                Some("m.size_bytes >= ?"@)
            } else {
                None
            },
            None => None,
        },
    ) + opt_seq(
        if f.has_attachments == Some(true) {
            Some("EXISTS (SELECT 1 FROM attachments a WHERE a.message_id = m.id)"@)
        } else {
            None
        },
    ) + opt_seq(
        if trimmed_field(f.attachment_name.deep_view()) is Some {
            Some("EXISTS (SELECT 1 FROM attachments a WHERE a.message_id = m.id AND a.filename LIKE ?)"@)
        } else {
            None
        },
    ) + opt_seq(att_kind) + word_conds(f.exclude_words.deep_view(), "m.subject NOT LIKE ?"@)
}

/// The values of the deletion, size, attachment and exclusion conditions.
pub open spec fn content_params(f: AdvancedSearchFilter) -> Seq<SqlValueView> {
    opt_seq(
        match f.min_size_bytes {
            Some(m) => if m > 0 {
                Some(SqlValueView::Integer(m as i64))
            } else {
                None
            },
            None => None,
        },
    ) + opt_seq(
        match trimmed_field(f.attachment_name.deep_view()) {
            Some(t) => Some(SqlValueView::Text(like_pattern(t))),
            None => None,
        },
    ) + word_params(f.exclude_words.deep_view())
}

/// The conditions of the search, in order.
pub open spec fn search_conditions(f: AdvancedSearchFilter) -> Seq<Seq<char>> {
    text_conditions(f) + scope_conditions(f) + content_conditions(f)
}

/// The values bound to the placeholders, in order; the last is the limit.
pub open spec fn search_params(f: AdvancedSearchFilter) -> Seq<SqlValueView> {
    text_params(f) + scope_params(f) + content_params(f) + seq![SqlValueView::Integer(search_limit(f.limit) as i64)]
}

/// At most this many hits: 50 unless asked, and never more than 500.
pub open spec fn search_limit(limit: Option<u32>) -> u32 {
    let l = match limit {
        Some(l) => l,
        None => 50,
    };
    if l < 500 {
        l
    } else {
        500
    }
}

/// The `WHERE` clause joining the conditions, or nothing.
pub open spec fn where_clause(conds: Seq<Seq<char>>) -> Seq<char> {
    if conds.len() == 0 {
        Seq::empty()
    } else {
        "WHERE "@ + join_with(conds, " AND "@)
    }
}

/// The SQL of a search: ranked full-text hits when there is a query, else
/// the newest messages first.
pub open spec fn search_sql(has_fts: bool, where_text: Seq<char>) -> Seq<char> {
    if has_fts {
        "\n                SELECT \n                    m.id, m.account_id, f.remote_name, m.subject, m.from_addr, m.to_addrs, m.date, m.relative_path,\n                    snippet(messages_fts, -1, '<b>', '</b>', '...', 15) as snip\n                FROM messages_fts\n                JOIN messages m ON m.id = messages_fts.message_id\n                JOIN folders f ON f.id = m.folder_id\n                "@ + where_text + "\n                ORDER BY messages_fts.rank, m.date DESC\n                LIMIT ?\n                "@
    } else {
        "\n                SELECT \n                    m.id, m.account_id, f.remote_name, m.subject, m.from_addr, m.to_addrs, m.date, m.relative_path,\n                    '' as snip\n                FROM messages m\n                JOIN folders f ON f.id = m.folder_id\n                "@ + where_text + "\n                ORDER BY m.date DESC\n                LIMIT ?\n                "@
    }
}

/// A text filter, trimmed, when it is set and not blank.
fn trimmed_opt(o: &Option<String>) -> (r: Option<String>)
    ensures
        r.deep_view() == trimmed_field(o.deep_view()),
{
    match o {
        Some(s) => {
            let t = trim_str(s.as_str());
            if t.as_str().is_empty() {
                None
            } else {
                Some(t)
            }
        },
        None => None,
    }
}

fn push_clause(conds: &mut Vec<String>, params: &mut Vec<SqlValue>, cond: &str, param: Option<SqlValue>)
    ensures
        final(conds).deep_view() == old(conds).deep_view().push(cond@),
        final(params).deep_view() == old(params).deep_view() + opt_seq(param.deep_view()),
{
    let c = String::from_str(cond);
    let ghost before = *conds;
    conds.push(c);
    proof {
        crate::text::lemma_push_deep_view(before, *conds, c);
    }
    match param {
        Some(p) => {
            let ghost pb = *params;
            let ghost pv = p;
            params.push(p);
            proof {
                crate::text::lemma_push_deep_view(pb, *params, pv);
                assert(params.deep_view() =~= pb.deep_view() + seq![pv.deep_view()]);
            }
        },
        None => {
            assert(params.deep_view() =~= params.deep_view() + Seq::<SqlValueView>::empty());
        },
    }
}

fn push_word_clauses(conds: &mut Vec<String>, params: &mut Vec<SqlValue>, field: &Option<String>, cond: &str)
    ensures
        final(conds).deep_view() == old(conds).deep_view() + word_conds(field.deep_view(), cond@),
        final(params).deep_view() == old(params).deep_view() + word_params(field.deep_view()),
{
    let t = trimmed_opt(field);
    let ws: Vec<Vec<char>> = match &t {
        Some(s) => split_words(&chars_of(s.as_str())),
        None => Vec::new(),
    };
    assert(ws.deep_view() == field_words(field.deep_view()));
    let ghost c0 = conds.deep_view();
    let ghost p0 = params.deep_view();
    let mut i: usize = 0;
    while i < ws.len()
        invariant
            i <= ws.len(),
            ws.deep_view() == field_words(field.deep_view()),
            conds.deep_view() == c0 + Seq::new(i as nat, |j: int| cond@),
            params.deep_view() == p0 + Seq::new(i as nat, |j: int| SqlValueView::Text(like_pattern(ws.deep_view()[j]))),
        decreases ws.len() - i,
    {
        let w = string_of(&ws[i]);
        let pat = String::from_str("%").concat(w.as_str()).concat("%");
        let ghost cb = conds.deep_view();
        let ghost pb = params.deep_view();
        push_clause(conds, params, cond, Some(SqlValue::Text(pat)));
        assert(conds.deep_view() =~= c0 + Seq::new((i + 1) as nat, |j: int| cond@));
        assert(ws.deep_view()[i as int] == ws@[i as int]@);
        assert(params.deep_view() =~= p0 + Seq::new((i + 1) as nat, |j: int| SqlValueView::Text(like_pattern(ws.deep_view()[j]))));
        i += 1;
    }
    assert(Seq::new(ws.len() as nat, |j: int| cond@) =~= word_conds(field.deep_view(), cond@));
    assert(Seq::new(ws.len() as nat, |j: int| SqlValueView::Text(like_pattern(ws.deep_view()[j]))) =~= word_params(field.deep_view()));
}

/// `s` with every `"` doubled and every `*` dropped.
fn clean_token(w: &Vec<char>) -> (r: Vec<char>)
    ensures
        r@ == without_char(double_quotes(w@), '*'),
{
    let mut out: Vec<char> = Vec::new();
    let mut i: usize = 0;
    assert(w@.take(0) =~= Seq::<char>::empty());
    while i < w.len()
        invariant
            i <= w.len(),
            out@ == without_char(double_quotes(w@.take(i as int)), '*'),
        decreases w.len() - i,
    {
        let ghost p = w@.take(i + 1);
        assert(p.drop_last() =~= w@.take(i as int));
        proof {
            lemma_without_char_concat(double_quotes(w@.take(i as int)), if w@[i as int] == '"' { seq!['"', '"'] } else { seq![w@[i as int]] }, '*');
        }
        let c = w[i];
        if c == '"' {
            assert(double_quotes(p) == double_quotes(w@.take(i as int)) + seq!['"', '"']);
            out.push('"');
            out.push('"');
            assert(without_char(seq!['"', '"'], '*') =~= seq!['"', '"']) by {
                reveal_with_fuel(without_char, 3);
            }
        } else {
            assert(double_quotes(p) =~= double_quotes(w@.take(i as int)) + seq![c]);
            if c != '*' {
                out.push(c);
            }
            assert(without_char(seq![c], '*') =~= if c == '*' { Seq::<char>::empty() } else { seq![c] }) by {
                reveal_with_fuel(without_char, 2);
                assert(seq![c].drop_last() =~= Seq::<char>::empty());
            }
        }
        assert(out@ =~= without_char(double_quotes(p), '*'));
        i += 1;
    }
    assert(w@.take(w.len() as int) =~= w@);
    out
}

proof fn lemma_without_char_concat(a: Seq<char>, b: Seq<char>, c: char)
    ensures
        without_char(a + b, c) == without_char(a, c) + without_char(b, c),
    decreases b.len(),
{
    if b.len() == 0 {
        assert(a + b =~= a);
        assert(without_char(a, c) + without_char(b, c) =~= without_char(a, c));
    } else {
        lemma_without_char_concat(a, b.drop_last(), c);
        assert((a + b).drop_last() =~= a + b.drop_last());
        assert((without_char(a, c) + without_char(b.drop_last(), c)).push(b.last()) =~= without_char(a, c)
            + without_char(b.drop_last(), c).push(b.last()));
    }
}

/// `s` with every `"` doubled.
fn double_quotes_exec(s: &Vec<char>) -> (r: Vec<char>)
    ensures
        r@ == double_quotes(s@),
{
    let mut out: Vec<char> = Vec::new();
    let mut i: usize = 0;
    assert(s@.take(0) =~= Seq::<char>::empty());
    while i < s.len()
        invariant
            i <= s.len(),
            out@ == double_quotes(s@.take(i as int)),
        decreases s.len() - i,
    {
        let ghost p = s@.take(i + 1);
        assert(p.drop_last() =~= s@.take(i as int));
        let c = s[i];
        out.push(c);
        if c == '"' {
            out.push('"');
        }
        assert(out@ =~= double_quotes(p));
        i += 1;
    }
    assert(s@.take(s.len() as int) =~= s@);
    out
}

/// Builds the full-text query for the trimmed search text.
pub fn build_fts_query(q: &str) -> (r: String)
    ensures
        r@ == fts_query(q@),
{
    let qc = chars_of(q);
    let mut has_quote = false;
    let mut i: usize = 0;
    while i < qc.len()
        invariant
            i <= qc.len(),
            has_quote == exists|j: int| 0 <= j < i && qc@[j] == '"',
        decreases qc.len() - i,
    {
        if qc[i] == '"' {
            has_quote = true;
        }
        i += 1;
    }
    assert(has_quote == q@.contains('"'));
    if has_quote {
        return String::from_str(q);
    }
    let ws = split_words(&qc);
    if ws.len() == 0 {
        let d = double_quotes_exec(&qc);
        return String::from_str("\"").concat(string_of(&d).as_str()).concat("\"");
    }
    let mut toks: Vec<String> = Vec::new();
    let mut k: usize = 0;
    while k < ws.len()
        invariant
            k <= ws.len(),
            ws.deep_view() == words(q@),
            toks.deep_view() =~= Seq::new(k as nat, |j: int| fts_token(words(q@)[j])),
        decreases ws.len() - k,
    {
        let cl = clean_token(&ws[k]);
        let t = String::from_str("\"").concat(string_of(&cl).as_str()).concat("\"*");
        assert(ws.deep_view()[k as int] == ws@[k as int]@);
        let ghost tb = toks;
        let ghost tv = t;
        toks.push(t);
        proof {
            crate::text::lemma_push_deep_view(tb, toks, tv);
        }
        k += 1;
    }
    join_strings(&toks, " ")
}

/// The first ten bytes of a date filter, as text.
fn date_text(t: String) -> (r: String)
    requires
        encode_utf8(t@).len() >= 10 ==> valid_utf8(encode_utf8(t@).take(10)),
    ensures
        r@ == date_prefix(t@),
{
    let b = t.as_str().as_bytes();
    if b.len() >= 10 {
        let head = vstd::slice::slice_to_vec(vstd::slice::slice_subrange(b, 0, 10));
        assert(head@ =~= encode_utf8(t@).take(10));
        match string_from_utf8(head) {
            Ok(s) => s,
            Err(_) => t,
        }
    } else {
        t
    }
}

fn scope_opt(o: &Option<String>) -> (r: Option<String>)
    ensures
        r.deep_view() == scope_field(o.deep_view()),
{
    match trimmed_opt(o) {
        Some(t) => if str_eq(t.as_str(), "ALL") {
            None
        } else {
            Some(t)
        },
        None => None,
    }
}

fn attachment_kind(o: &Option<String>) -> (r: Option<String>)
    ensures
        r.deep_view() == (match kind_field(o.deep_view()) {
            Some(k) => attachment_kind_condition(lowercase(k)),
            None => None,
        }),
{
    let t = match trimmed_opt(o) {
        Some(t) => t,
        None => {
            return None;
        },
    };
    if str_eq(t.as_str(), "all") {
        return None;
    }
    let k = to_lower(t.as_str());
    let ks = k.as_str();
    if str_eq(ks, "pdf") {
        Some(String::from_str("EXISTS (SELECT 1 FROM attachments a WHERE a.message_id = m.id AND (a.mime_type LIKE '%pdf%' OR a.filename LIKE '%.pdf'))"))
    } else if str_eq(ks, "image") {
        Some(String::from_str("EXISTS (SELECT 1 FROM attachments a WHERE a.message_id = m.id AND (a.mime_type LIKE 'image/%' OR a.filename LIKE '%.png' OR a.filename LIKE '%.jpg' OR a.filename LIKE '%.jpeg' OR a.filename LIKE '%.gif' OR a.filename LIKE '%.webp'))"))
    } else if str_eq(ks, "spreadsheet") {
        Some(String::from_str("EXISTS (SELECT 1 FROM attachments a WHERE a.message_id = m.id AND (a.filename LIKE '%.xlsx' OR a.filename LIKE '%.xls' OR a.filename LIKE '%.csv'))"))
    } else if str_eq(ks, "archive") {
        Some(String::from_str("EXISTS (SELECT 1 FROM attachments a WHERE a.message_id = m.id AND (a.mime_type LIKE '%zip%' OR a.mime_type LIKE '%tar%' OR a.mime_type LIKE '%compressed%' OR a.filename LIKE '%.zip' OR a.filename LIKE '%.tar%' OR a.filename LIKE '%.gz' OR a.filename LIKE '%.7z' OR a.filename LIKE '%.rar'))"))
    } else if str_eq(ks, "document") {
        Some(String::from_str("EXISTS (SELECT 1 FROM attachments a WHERE a.message_id = m.id AND (a.filename LIKE '%.doc%' OR a.filename LIKE '%.docx' OR a.filename LIKE '%.odt' OR a.filename LIKE '%.rtf' OR a.filename LIKE '%.txt'))"))
    } else {
        None
    }
}

fn push_text_clauses(conds: &mut Vec<String>, params: &mut Vec<SqlValue>, filter: &AdvancedSearchFilter)
    ensures
        final(conds).deep_view() == old(conds).deep_view() + text_conditions(*filter),
        final(params).deep_view() == old(params).deep_view() + text_params(*filter),
{
    let ghost c0 = conds.deep_view();
    let ghost p0 = params.deep_view();
    let q = trimmed_opt(&filter.query);
    match &q {
        Some(t) => {
            let fq = build_fts_query(t.as_str());
            push_clause(conds, params, "messages_fts MATCH ?", Some(SqlValue::Text(fq)));
        },
        None => {
            assert(conds.deep_view() =~= c0 + Seq::<Seq<char>>::empty());
            assert(params.deep_view() =~= p0 + Seq::<SqlValueView>::empty());
        },
    }
    let ghost c1 = conds.deep_view();
    let ghost p1 = params.deep_view();
    push_word_clauses(conds, params, &filter.from, "m.from_addr LIKE ?");
    push_word_clauses(conds, params, &filter.to, "m.to_addrs LIKE ?");
    push_word_clauses(conds, params, &filter.cc, "m.cc_addrs LIKE ?");
    push_word_clauses(conds, params, &filter.subject, "m.subject LIKE ?");
    assert(conds.deep_view() =~= c0 + text_conditions(*filter));
    assert(params.deep_view() =~= p0 + text_params(*filter));
}

fn push_scope_clauses(conds: &mut Vec<String>, params: &mut Vec<SqlValue>, filter: &AdvancedSearchFilter)
    requires
        date_field_cuttable(filter.date_from.deep_view()),
        date_field_cuttable(filter.date_to.deep_view()),
    ensures
        final(conds).deep_view() == old(conds).deep_view() + scope_conditions(*filter),
        final(params).deep_view() == old(params).deep_view() + scope_params(*filter),
{
    let ghost c0 = conds.deep_view();
    let ghost p0 = params.deep_view();
    match trimmed_opt(&filter.date_from) {
        Some(t) => {
            let d = date_text(t);
            push_clause(conds, params, "date(m.date) >= ?", Some(SqlValue::Text(d)));
        },
        None => {},
    }
    let ghost c1 = conds.deep_view();
    let ghost p1 = params.deep_view();
    match trimmed_opt(&filter.date_to) {
        Some(t) => {
            let d = date_text(t);
            push_clause(conds, params, "date(m.date) <= ?", Some(SqlValue::Text(d)));
        },
        None => {},
    }
    let ghost c2 = conds.deep_view();
    let ghost p2 = params.deep_view();
    match scope_opt(&filter.account_id) {
        Some(t) => push_clause(conds, params, "m.account_id = ?", Some(SqlValue::Text(t))),
        None => {},
    }
    let ghost c3 = conds.deep_view();
    let ghost p3 = params.deep_view();
    match scope_opt(&filter.folder_id) {
        Some(t) => push_clause(conds, params, "m.folder_id = ?", Some(SqlValue::Text(t))),
        None => {},
    }
    assert(conds.deep_view() =~= c0 + scope_conditions(*filter));
    assert(params.deep_view() =~= p0 + scope_params(*filter));
}

#[verifier::rlimit(40)]
fn push_content_clauses(conds: &mut Vec<String>, params: &mut Vec<SqlValue>, filter: &AdvancedSearchFilter)
    ensures
        final(conds).deep_view() == old(conds).deep_view() + content_conditions(*filter),
        final(params).deep_view() == old(params).deep_view() + content_params(*filter),
{
    let ghost c0 = conds.deep_view();
    let ghost p0 = params.deep_view();
    if !matches!(filter.include_deleted, Some(true)) {
        push_clause(conds, params, "m.is_remote_deleted = 0", None);
    }
    let ghost c1 = conds.deep_view();
    let ghost p1 = params.deep_view();
    match filter.min_size_bytes {
        Some(m) => if m > 0 {
            push_clause(conds, params, "m.size_bytes >= ?", Some(SqlValue::Integer(m as i64)));
        },
        None => {},
    }
    let ghost c2 = conds.deep_view();
    let ghost p2 = params.deep_view();
    if matches!(filter.has_attachments, Some(true)) {
        push_clause(conds, params, "EXISTS (SELECT 1 FROM attachments a WHERE a.message_id = m.id)", None);
    }
    let ghost c3 = conds.deep_view();
    let ghost p3 = params.deep_view();
    match trimmed_opt(&filter.attachment_name) {
        Some(t) => {
            let pat = String::from_str("%").concat(t.as_str()).concat("%");
            push_clause(
                conds,
                params,
                "EXISTS (SELECT 1 FROM attachments a WHERE a.message_id = m.id AND a.filename LIKE ?)",
                Some(SqlValue::Text(pat)),
            );
        },
        None => {},
    }
    let ghost c4 = conds.deep_view();
    let ghost p4 = params.deep_view();
    match attachment_kind(&filter.attachment_type) {
        Some(c) => push_clause(conds, params, c.as_str(), None),
        None => {},
    }
    let ghost c5 = conds.deep_view();
    let ghost p5 = params.deep_view();
    push_word_clauses(conds, params, &filter.exclude_words, "m.subject NOT LIKE ?");
    assert(conds.deep_view() =~= c0 + content_conditions(*filter));
    assert(params.deep_view() =~= p0 + content_params(*filter));
}

/// Builds the SQL and bound values of an advanced search. Date filters are
/// cut to their first ten bytes, which must end on a character boundary.
pub fn build_search_query(filter: &AdvancedSearchFilter) -> (r: SearchQuery)
    requires
        date_field_cuttable(filter.date_from.deep_view()),
        date_field_cuttable(filter.date_to.deep_view()),
    ensures
        r.sql@ == search_sql(
            trimmed_field(filter.query.deep_view()) is Some,
            where_clause(search_conditions(*filter)),
        ),
        r.params.deep_view() == search_params(*filter),
{
    let mut conds: Vec<String> = Vec::new();
    let mut params: Vec<SqlValue> = Vec::new();
    let has_fts = trimmed_opt(&filter.query).is_some();
    push_text_clauses(&mut conds, &mut params, filter);
    push_scope_clauses(&mut conds, &mut params, filter);
    push_content_clauses(&mut conds, &mut params, filter);
    assert(conds.deep_view() =~= search_conditions(*filter));
    let limit: u32 = match filter.limit {
        Some(l) => if l < 500 {
            l
        } else {
            500
        },
        None => 50,
    };
    let ghost pb = params;
    let lv = SqlValue::Integer(limit as i64);
    params.push(lv);
    proof {
        crate::text::lemma_push_deep_view(pb, params, lv);
    }
    assert(params.deep_view() =~= search_params(*filter));
    let where_text = if conds.len() == 0 {
        String::new()
    } else {
        String::from_str("WHERE ").concat(join_strings(&conds, " AND ").as_str())
    };
    let sql = if has_fts {
        String::from_str("\n                SELECT \n                    m.id, m.account_id, f.remote_name, m.subject, m.from_addr, m.to_addrs, m.date, m.relative_path,\n                    snippet(messages_fts, -1, '<b>', '</b>', '...', 15) as snip\n                FROM messages_fts\n                JOIN messages m ON m.id = messages_fts.message_id\n                JOIN folders f ON f.id = m.folder_id\n                ").concat(where_text.as_str()).concat("\n                ORDER BY messages_fts.rank, m.date DESC\n                LIMIT ?\n                ")
    } else {
        String::from_str("\n                SELECT \n                    m.id, m.account_id, f.remote_name, m.subject, m.from_addr, m.to_addrs, m.date, m.relative_path,\n                    '' as snip\n                FROM messages m\n                JOIN folders f ON f.id = m.folder_id\n                ").concat(where_text.as_str()).concat("\n                ORDER BY m.date DESC\n                LIMIT ?\n                ")
    };
    SearchQuery { sql, params }
}

/// The folders an export asks for by id: all of them for no id, a blank
/// one or `ALL`, else those with that id (as positions in `folders`).
pub open spec fn export_folder_positions(folders: Seq<FolderRecord>, folder_id: Option<Seq<char>>) -> Seq<usize>
    decreases folders.len(),
{
    if folders.len() == 0 {
        Seq::empty()
    } else {
        let p = export_folder_positions(folders.drop_last(), folder_id);
        let keep = match folder_id {
            Some(fid) => fid == "ALL"@ || trim(fid).len() == 0 || folders.last().id@ == fid,
            None => true,
        };
        if keep {
            p.push((folders.len() - 1) as usize)
        } else {
            p
        }
    }
}

/// Picks the folders an export asks for by id.
pub fn export_folder_indices(folders: &Vec<FolderRecord>, folder_id: &Option<String>) -> (r: Vec<usize>)
    ensures
        r@ == export_folder_positions(folders@, folder_id.deep_view()),
{
    let all = match folder_id {
        Some(fid) => str_eq(fid.as_str(), "ALL") || trim_str(fid.as_str()).as_str().is_empty(),
        None => true,
    };
    let mut out: Vec<usize> = Vec::new();
    let mut i: usize = 0;
    assert(folders@.take(0) =~= Seq::<FolderRecord>::empty());
    while i < folders.len()
        invariant
            i <= folders.len(),
            all == (match folder_id.deep_view() {
                Some(fid) => fid == "ALL"@ || trim(fid).len() == 0,
                None => true,
            }),
            out@ == export_folder_positions(folders@.take(i as int), folder_id.deep_view()),
        decreases folders.len() - i,
    {
        let ghost p = folders@.take(i + 1);
        assert(p.drop_last() =~= folders@.take(i as int));
        let keep = all || match folder_id {
            Some(fid) => str_eq(folders[i].id.as_str(), fid.as_str()),
            None => true,
        };
        if keep {
            out.push(i);
        }
        i += 1;
    }
    assert(folders@.take(folders.len() as int) =~= folders@);
    out
}

/// The folders a command-line export asks for by name: those whose remote
/// name or local slug is `name` (as positions in `folders`).
pub open spec fn named_folder_positions(folders: Seq<FolderRecord>, name: Seq<char>) -> Seq<usize>
    decreases folders.len(),
{
    if folders.len() == 0 {
        Seq::empty()
    } else {
        let p = named_folder_positions(folders.drop_last(), name);
        if folders.last().remote_name@ == name || folders.last().local_slug@ == name {
            p.push((folders.len() - 1) as usize)
        } else {
            p
        }
    }
}

/// Picks the folders a command-line export asks for by name.
pub fn folder_indices_named(folders: &Vec<FolderRecord>, name: &str) -> (r: Vec<usize>)
    ensures
        r@ == named_folder_positions(folders@, name@),
{
    let mut out: Vec<usize> = Vec::new();
    let mut i: usize = 0;
    assert(folders@.take(0) =~= Seq::<FolderRecord>::empty());
    while i < folders.len()
        invariant
            i <= folders.len(),
            out@ == named_folder_positions(folders@.take(i as int), name@),
        decreases folders.len() - i,
    {
        let ghost p = folders@.take(i + 1);
        assert(p.drop_last() =~= folders@.take(i as int));
        if str_eq(folders[i].remote_name.as_str(), name) || str_eq(folders[i].local_slug.as_str(), name) {
            out.push(i);
        }
        i += 1;
    }
    assert(folders@.take(folders.len() as int) =~= folders@);
    out
}

} // verus!
verus! {

/// The whitespace-separated words of an optional text filter, none when it
/// is absent or blank.
pub open spec fn filter_text_words(o: Option<Seq<char>>) -> Seq<Seq<char>> {
    match o {
        Some(s) => if trim(s).len() > 0 {
            words(trim(s))
        } else {
            Seq::empty()
        },
        None => Seq::empty(),
    }
}

/// How many conditions (and bound values) a search puts before those of the
/// subject: one for a full-text query, one per word of the sender,
/// recipient and copy filters.
pub open spec fn conditions_before_subject(f: AdvancedSearchFilter) -> int {
    (if f.query.deep_view() matches Some(q) && trim(q).len() > 0 { 1int } else { 0int })
        + filter_text_words(f.from.deep_view()).len() + filter_text_words(f.to.deep_view()).len()
        + filter_text_words(f.cc.deep_view()).len()
}

/// Searching by subject selects the messages whose subject contains every
/// word of the subject filter: for each word `w`, in order, the search has
/// the condition `m.subject LIKE ?` and binds to it the pattern `%w%`, for
/// every filter whatever its other fields.
pub proof fn law_subject_words_are_like_conditions(f: AdvancedSearchFilter)
    ensures
        ({
            let w = filter_text_words(f.subject.deep_view());
            let k = conditions_before_subject(f);
            &&& k + w.len() <= search_conditions(f).len()
            &&& k + w.len() <= search_params(f).len()
            &&& forall|i: int|
                0 <= i < w.len() ==> search_conditions(f)[k + i] == "m.subject LIKE ?"@ && search_params(f)[k + i]
                    == SqlValueView::Text("%"@ + w[i] + "%"@)
        }),
{
    let q = opt_seq(if trimmed_field(f.query.deep_view()) is Some { Some("messages_fts MATCH ?"@) } else { None });
    let qp = opt_seq(
        match trimmed_field(f.query.deep_view()) {
            Some(t) => Some(SqlValueView::Text(fts_query(t))),
            None => None,
        },
    );
    assert(field_words(f.from.deep_view()) == filter_text_words(f.from.deep_view()));
    assert(field_words(f.to.deep_view()) == filter_text_words(f.to.deep_view()));
    assert(field_words(f.cc.deep_view()) == filter_text_words(f.cc.deep_view()));
    assert(field_words(f.subject.deep_view()) == filter_text_words(f.subject.deep_view()));
    let c1 = word_conds(f.from.deep_view(), "m.from_addr LIKE ?"@);
    let c2 = word_conds(f.to.deep_view(), "m.to_addrs LIKE ?"@);
    let c3 = word_conds(f.cc.deep_view(), "m.cc_addrs LIKE ?"@);
    let c4 = word_conds(f.subject.deep_view(), "m.subject LIKE ?"@);
    let p1 = word_params(f.from.deep_view());
    let p2 = word_params(f.to.deep_view());
    let p3 = word_params(f.cc.deep_view());
    let p4 = word_params(f.subject.deep_view());
    let w = filter_text_words(f.subject.deep_view());
    let k = conditions_before_subject(f);
    assert(q.len() == qp.len());
    assert(q.len() == if f.query.deep_view() matches Some(s) && trim(s).len() > 0 { 1int } else { 0int });
    let before = q + c1 + c2 + c3;
    let pbefore = qp + p1 + p2 + p3;
    assert(before.len() == k);
    assert(pbefore.len() == k);
    let tc = text_conditions(f);
    let tp = text_params(f);
    assert(tc == before + c4);
    assert(tp == pbefore + p4);
    let sc = search_conditions(f);
    let sp = search_params(f);
    assert(sc == tc + scope_conditions(f) + content_conditions(f));
    assert(sp == tp + scope_params(f) + content_params(f) + seq![SqlValueView::Integer(search_limit(f.limit) as i64)]);
    assert forall|i: int| 0 <= i < w.len() implies sc[k + i] == "m.subject LIKE ?"@ && sp[k + i] == SqlValueView::Text(
        "%"@ + w[i] + "%"@,
    ) by {
        assert(tc[k + i] == c4[i]);
        assert(tp[k + i] == p4[i]);
        assert(sc[k + i] == tc[k + i]);
        assert(sp[k + i] == tp[k + i]);
    }
}

} // verus!
