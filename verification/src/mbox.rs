//! Export of stored messages to the mbox format (RFC 4155), with `From `
//! lines of the body escaped in the mboxrd way.

use crate::imap::{utc_in_range, utc_representable};
use crate::storage::StorageEngine;
use crate::text::{chars_of, lines, lossy_text, split_lines, starts_with, starts_with_chars, string_of, utf8_lossy};
use vstd::prelude::*;

verus! {

/// A body line as written to the mbox: a line that starts with `From ` or
/// `>From ` gets one more `>`.
pub open spec fn escaped_line(l: Seq<char>) -> Seq<char> {
    if starts_with(l, "From "@) || starts_with(l, ">From "@) {
        ">"@ + l
    } else {
        l
    }
}

/// No escaped body line can be taken for a message separator.
pub proof fn law_escaped_line_is_no_separator(l: Seq<char>)
    ensures
        !starts_with(escaped_line(l), "From "@),
{
    reveal_strlit("From ");
    reveal_strlit(">From ");
    reveal_strlit(">");
    if starts_with(l, "From "@) || starts_with(l, ">From "@) {
        let e = escaped_line(l);
        assert(e[0] == '>');
        assert(e.subrange(0, 5)[0] == '>');
    }
}

/// The body lines, each escaped and ended by a newline.
pub open spec fn mbox_body(ls: Seq<Seq<char>>) -> Seq<char>
    decreases ls.len(),
{
    if ls.len() == 0 {
        Seq::empty()
    } else {
        mbox_body(ls.drop_last()) + escaped_line(ls.last()) + "\n"@
    }
}

/// A From header as `mail_parser` reads it: a list of entries, or groups
/// of entries; each entry as its e-mail address when it has one.
#[derive(Clone, Debug)]
pub enum AddressHeader {
    List(Vec<Option<String>>),
    Groups(Vec<Vec<Option<String>>>),
}

/// `AddressHeader` over plain values.
pub enum AddressHeaderView {
    List(Seq<Option<Seq<char>>>),
    Groups(Seq<Seq<Option<Seq<char>>>>),
}

pub open spec fn address_header_view(h: AddressHeader) -> AddressHeaderView {
    match h {
        AddressHeader::List(l) => AddressHeaderView::List(l.deep_view()),
        AddressHeader::Groups(g) => AddressHeaderView::Groups(g.deep_view()),
    }
}

pub open spec fn envelope_view(e: Option<(Option<AddressHeader>, Option<i64>)>) -> Option<(Option<AddressHeaderView>, Option<i64>)> {
    match e {
        Some((f, d)) => Some(
            (
                match f {
                    Some(h) => Some(address_header_view(h)),
                    None => None,
                },
                d,
            ),
        ),
        None => None,
    }
}

/// Name for the From header and the date (in seconds) that `mail_parser`
/// reads from raw message bytes, or nothing when it cannot parse them.
pub uninterp spec fn mail_envelope(raw: Seq<u8>) -> Option<(Option<AddressHeaderView>, Option<i64>)>;

/// Calls `MessageParser::parse` and reads the From header, entry by entry,
/// and the date.
#[verifier::external_body]
fn parse_envelope(raw: &[u8]) -> (r: Option<(Option<AddressHeader>, Option<i64>)>)
    ensures
        envelope_view(r) == mail_envelope(raw@),
{
    let p = mail_parser::MessageParser::default().parse(raw)?;
    let entry = |a: &mail_parser::Addr| a.address.as_deref().map(String::from);
    let from = p.from().map(|f| match f {
        mail_parser::Address::List(l) => AddressHeader::List(l.iter().map(entry).collect()),
        mail_parser::Address::Group(g) => AddressHeader::Groups(g.iter().map(|x| x.addresses.iter().map(entry).collect()).collect()),
    });
    Some((from, p.date().map(|d| d.to_timestamp())))
}

/// The address of the first entry of a list.
pub open spec fn first_entry(l: Seq<Option<Seq<char>>>) -> Option<Seq<char>> {
    if l.len() == 0 {
        None
    } else {
        l[0]
    }
}

/// The sender a From header gives: the address of its first entry, or of
/// the first entry of its first group.
pub open spec fn header_sender(h: AddressHeaderView) -> Option<Seq<char>> {
    match h {
        AddressHeaderView::List(l) => first_entry(l),
        AddressHeaderView::Groups(g) => if g.len() == 0 {
            None
        } else {
            first_entry(g[0])
        },
    }
}

fn first_entry_of(l: &Vec<Option<String>>) -> (r: Option<String>)
    ensures
        r.deep_view() == first_entry(l.deep_view()),
{
    if l.len() == 0 {
        None
    } else {
        l[0].clone()
    }
}

/// The sender a From header gives (see `header_sender`).
pub fn sender_of(h: &AddressHeader) -> (r: Option<String>)
    ensures
        r.deep_view() == header_sender(address_header_view(*h)),
{
    match h {
        AddressHeader::List(l) => first_entry_of(l),
        AddressHeader::Groups(g) => if g.len() == 0 {
            None
        } else {
            first_entry_of(&g[0])
        },
    }
}

/// Name for the envelope date text (`%a %b %e %H:%M:%S %Y`) `chrono` gives
/// for a time in seconds.
pub uninterp spec fn mbox_date_text(secs: i64) -> Seq<char>;

/// Calls `DateTime::<Utc>::from_timestamp` and formats the time as
/// `%a %b %e %H:%M:%S %Y`; the text is named `mbox_date_text`.
#[verifier::external_body]
fn format_mbox_date(secs: i64) -> (r: String)
    requires
        utc_representable(secs),
    ensures
        r@ == mbox_date_text(secs),
{
    chrono::DateTime::from_timestamp(secs, 0).map(|d| d.format("%a %b %e %H:%M:%S %Y").to_string()).unwrap_or_default()
}

/// Calls `Utc::now` and formats it as `%a %b %e %H:%M:%S %Y`. It depends on
/// the clock, so nothing is stated of it.
#[verifier::external_body]
fn now_mbox_date() -> (r: String) {
    chrono::Utc::now().format("%a %b %e %H:%M:%S %Y").to_string()
}

/// The envelope sender: the first From address, else `MAILER-DAEMON`.
pub open spec fn envelope_from(raw: Seq<u8>) -> Seq<char> {
    match mail_envelope(raw) {
        Some((Some(h), _)) => match header_sender(h) {
            Some(a) => a,
            None => "MAILER-DAEMON"@,
        },
        _ => "MAILER-DAEMON"@,
    }
}

/// The envelope date: the message's date when `chrono` can represent it,
/// else the export time `now_date`.
pub open spec fn envelope_date(raw: Seq<u8>, now_date: Seq<char>) -> Seq<char> {
    match mail_envelope(raw) {
        Some((_, Some(d))) => if utc_representable(d) {
            mbox_date_text(d)
        } else {
            now_date
        },
        _ => now_date,
    }
}

/// One message as an mbox entry: the `From <sender> <date>` separator, the
/// escaped body lines, and a blank line.
pub open spec fn mbox_entry(raw: Seq<u8>, now_date: Seq<char>) -> Seq<char> {
    "From "@ + envelope_from(raw) + " "@ + envelope_date(raw, now_date) + "\n"@ + mbox_body(lines(lossy_text(raw)))
        + "\n"@
}

/// Escapes one body line.
pub fn escape_line(l: &Vec<char>) -> (r: Vec<char>)
    ensures
        r@ == escaped_line(l@),
{
    let from = chars_of("From ");
    let quoted = chars_of(">From ");
    if starts_with_chars(l, &from) || starts_with_chars(l, &quoted) {
        let mut out: Vec<char> = Vec::new();
        out.push('>');
        let mut i: usize = 0;
        while i < l.len()
            invariant
                i <= l.len(),
                out@ == seq!['>'] + l@.take(i as int),
            decreases l.len() - i,
        {
            out.push(l[i]);
            assert(out@ =~= seq!['>'] + l@.take(i + 1));
            i += 1;
        }
        proof {
            reveal_strlit(">");
        }
        assert(out@ =~= ">"@ + l@);
        out
    } else {
        l.clone()
    }
}

/// The mbox entry of one stored message, with `now_date` as the date of
/// messages that carry none.
pub fn mbox_message(eml: &[u8], now_date: &str) -> (r: String)
    ensures
        r@ == mbox_entry(eml@, now_date@),
{
    let (from, date) = match parse_envelope(eml) {
        Some((f, d)) => {
            let from = match f {
                Some(h) => match sender_of(&h) {
                    Some(a) => a,
                    None => String::from_str("MAILER-DAEMON"),
                },
                None => String::from_str("MAILER-DAEMON"),
            };
            let date = match d {
                Some(secs) => if utc_in_range(secs) {
                    format_mbox_date(secs)
                } else {
                    String::from_str(now_date)
                },
                None => String::from_str(now_date),
            };
            (from, date)
        },
        None => (String::from_str("MAILER-DAEMON"), String::from_str(now_date)),
    };
    let text = utf8_lossy(eml);
    let ls = split_lines(&chars_of(text.as_str()));
    let mut body = String::new();
    let mut i: usize = 0;
    assert(ls.deep_view().take(0) =~= Seq::<Seq<char>>::empty());
    while i < ls.len()
        invariant
            i <= ls.len(),
            ls.deep_view() == lines(lossy_text(eml@)),
            body@ == mbox_body(ls.deep_view().take(i as int)),
        decreases ls.len() - i,
    {
        let ghost p = ls.deep_view().take(i + 1);
        assert(p.drop_last() =~= ls.deep_view().take(i as int));
        assert(p.last() == ls@[i as int]@);
        let e = escape_line(&ls[i]);
        body = body.concat(string_of(&e).as_str()).concat("\n");
        i += 1;
    }
    assert(ls.deep_view().take(ls.len() as int) =~= ls.deep_view());
    String::from_str("From ").concat(from.as_str()).concat(" ").concat(date.as_str()).concat("\n").concat(
        body.as_str(),
    ).concat("\n")
}

/// Writes stored messages to mbox.
pub struct MboxExporter<'a> {
    storage: &'a StorageEngine,
}

impl<'a> MboxExporter<'a> {
    /// The archive the messages are read from.
    pub closed spec fn archive(&self) -> StorageEngine {
        *self.storage
    }

    /// An exporter reading from `storage`.
    pub fn new(storage: &'a StorageEngine) -> (r: Self)
        ensures
            r.archive() == *storage,
    {
        MboxExporter { storage }
    }

    /// The archive the messages are read from.
    pub fn storage(&self) -> (r: &'a StorageEngine)
        ensures
            *r == self.archive(),
    {
        self.storage
    }

    /// The mbox entry of one stored message, dated now when it carries no
    /// date.
    pub fn render_message(&self, eml: &[u8]) -> (r: String)
        ensures
            exists|now_date: Seq<char>| r@ == mbox_entry(eml@, now_date),
    {
        let now = now_mbox_date();
        mbox_message(eml, now.as_str())
    }
}

} // verus!
verus! {

/// The lines of a text as a reader splitting at each `\n` sees them (a last
/// line without `\n` counts too).
pub open spec fn newline_lines(s: Seq<char>) -> Seq<Seq<char>>
    decreases s.len(),
{
    if s.len() == 0 {
        Seq::empty()
    } else {
        let k = crate::text::find_char(s, '\n');
        if k < 0 {
            seq![s]
        } else {
            proof {
                crate::text::lemma_find_char(s, '\n');
            }
            seq![s.take(k)] + newline_lines(s.skip(k + 1))
        }
    }
}

proof fn lemma_newline_lines_append(a: Seq<char>, e: Seq<char>)
    requires
        a.len() == 0 || a.last() == '\n',
        !e.contains('\n'),
    ensures
        newline_lines(a + e + "\n"@) == newline_lines(a).push(e),
    decreases a.len(),
{
    reveal_strlit("\n");
    let s = a + e + "\n"@;
    assert(s =~= a + e + seq!['\n']);
    if a.len() == 0 {
        assert(s =~= e + seq!['\n']);
        assert forall|j: int| 0 <= j < e.len() implies s[j] != '\n' by {
            assert(s[j] == e[j]);
            assert(e.contains(e[j]));
        }
        crate::text::lemma_find_char_at(s, '\n', e.len() as int);
        assert(s.take(e.len() as int) =~= e);
        assert(s.skip(e.len() as int + 1) =~= Seq::<char>::empty());
        assert(newline_lines(Seq::<char>::empty()) =~= Seq::<Seq<char>>::empty());
        assert(newline_lines(s) == seq![s.take(e.len() as int)] + newline_lines(s.skip(e.len() as int + 1)));
        assert(newline_lines(s) =~= seq![e]);
        assert(newline_lines(a) =~= Seq::<Seq<char>>::empty());
    } else {
        crate::text::lemma_find_char(a, '\n');
        assert(a.contains('\n')) by {
            assert(a[a.len() - 1] == '\n');
        }
        let k = crate::text::find_char(a, '\n');
        assert forall|j: int| 0 <= j < k implies s[j] != '\n' by {
            assert(s[j] == a[j]);
        }
        assert(s[k] == a[k]);
        crate::text::lemma_find_char_at(s, '\n', k);
        let rest = a.skip(k + 1);
        assert(rest.len() == 0 || rest.last() == '\n') by {
            if rest.len() > 0 {
                assert(rest.last() == a.last());
            }
        }
        lemma_newline_lines_append(rest, e);
        assert(s.take(k) =~= a.take(k));
        assert(s.skip(k + 1) =~= rest + e + "\n"@);
        assert(newline_lines(s) == seq![a.take(k)] + newline_lines(rest).push(e));
        assert(newline_lines(a) == seq![a.take(k)] + newline_lines(rest));
        assert(seq![a.take(k)] + newline_lines(rest).push(e) =~= (seq![a.take(k)] + newline_lines(rest)).push(e));
    }
}

/// Every line of the mbox body is written, blank lines included, in order,
/// as the line itself or, when it starts with `From ` or `>From `, with one
/// more `>` in front: a reader splitting the body at newlines gets back
/// exactly one line per message line, and taking one leading `>` from the
/// lines that start with `>From ` or `>>From ` gives the message's lines.
pub proof fn law_mbox_body_keeps_every_line(ls: Seq<Seq<char>>)
    requires
        forall|i: int| 0 <= i < ls.len() ==> !(#[trigger] ls[i]).contains('\n'),
    ensures
        newline_lines(mbox_body(ls)) == Seq::new(
            ls.len(),
            |i: int|
                if starts_with(ls[i], "From "@) || starts_with(ls[i], ">From "@) {
                    ">"@ + ls[i]
                } else {
                    ls[i]
                },
        ),
        mbox_body(ls).len() == 0 || mbox_body(ls).last() == '\n',
    decreases ls.len(),
{
    reveal_strlit("\n");
    reveal_strlit(">");
    if ls.len() == 0 {
        assert(newline_lines(mbox_body(ls)) =~= Seq::<Seq<char>>::empty());
    } else {
        let p = ls.drop_last();
        assert forall|i: int| 0 <= i < p.len() implies !(#[trigger] p[i]).contains('\n') by {
            assert(p[i] == ls[i]);
        }
        law_mbox_body_keeps_every_line(p);
        let l = ls.last();
        assert(ls[ls.len() - 1] == l);
        let e = escaped_line(l);
        assert(!e.contains('\n')) by {
            if e.contains('\n') {
                let j = choose|j: int| 0 <= j < e.len() && e[j] == '\n';
                if starts_with(l, "From "@) || starts_with(l, ">From "@) {
                    assert(e =~= seq!['>'] + l);
                    assert(j > 0);
                    assert(l[j - 1] == '\n');
                    assert(l.contains('\n'));
                } else {
                    assert(l.contains('\n'));
                }
            }
        }
        lemma_newline_lines_append(mbox_body(p), e);
        let want = Seq::new(
            ls.len(),
            |i: int|
                if starts_with(ls[i], "From "@) || starts_with(ls[i], ">From "@) {
                    ">"@ + ls[i]
                } else {
                    ls[i]
                },
        );
        let wp = Seq::new(
            p.len(),
            |i: int|
                if starts_with(p[i], "From "@) || starts_with(p[i], ">From "@) {
                    ">"@ + p[i]
                } else {
                    p[i]
                },
        );
        assert(want =~= wp.push(e)) by {
            assert forall|i: int| 0 <= i < p.len() implies want[i] == wp[i] by {
                assert(p[i] == ls[i]);
            }
        }
        assert(mbox_body(ls) == mbox_body(p) + e + "\n"@);
        let b = mbox_body(ls);
        assert(b.last() == '\n') by {
            assert("\n"@ =~= seq!['\n']);
        }
    }
}

/// A line of text never contains a newline.
proof fn lemma_lines_no_newline(s: Seq<char>, cur: Seq<char>)
    requires
        !cur.contains('\n'),
    ensures
        forall|i: int| 0 <= i < crate::text::lines_after(s, cur).len() ==> !(#[trigger] crate::text::lines_after(
            s,
            cur,
        )[i]).contains('\n'),
    decreases s.len(),
{
    if s.len() == 0 {
        let all = crate::text::lines_after(s, cur);
        assert forall|i: int| 0 <= i < all.len() implies !(#[trigger] all[i]).contains('\n') by {
            assert(all[i] == cur);
        }
    } else if s[0] == '\n' {
        lemma_lines_no_newline(s.drop_first(), Seq::empty());
        let c = crate::text::strip_cr(cur);
        assert(!c.contains('\n')) by {
            if c.contains('\n') {
                let j = choose|j: int| 0 <= j < c.len() && c[j] == '\n';
                assert(cur[j] == c[j]);
            }
        }
        let rest = crate::text::lines_after(s.drop_first(), Seq::empty());
        let all = crate::text::lines_after(s, cur);
        assert(all == seq![c] + rest);
        assert forall|i: int| 0 <= i < all.len() implies !(#[trigger] all[i]).contains('\n') by {
            if i > 0 {
                assert(all[i] == rest[i - 1]);
            }
        }
    } else {
        let c2 = cur.push(s[0]);
        assert(!c2.contains('\n')) by {
            if c2.contains('\n') {
                let j = choose|j: int| 0 <= j < c2.len() && c2[j] == '\n';
                if j < cur.len() {
                    assert(cur[j] == c2[j]);
                }
            }
        }
        lemma_lines_no_newline(s.drop_first(), c2);
        assert(crate::text::lines_after(s, cur) == crate::text::lines_after(s.drop_first(), c2));
    }
}

/// The body of a message's mbox entry holds every line of the message text,
/// blank lines included (see `law_mbox_body_keeps_every_line`): as many body
/// lines as the text has lines, each the line or the line with one more `>`
/// when it starts with `From ` or `>From `.
pub proof fn law_mbox_entry_body_lines(text: Seq<char>)
    ensures
        newline_lines(mbox_body(lines(text))) == Seq::new(
            lines(text).len(),
            |i: int|
                if starts_with(lines(text)[i], "From "@) || starts_with(lines(text)[i], ">From "@) {
                    ">"@ + lines(text)[i]
                } else {
                    lines(text)[i]
                },
        ),
{
    lemma_lines_no_newline(text, Seq::empty());
    law_mbox_body_keeps_every_line(lines(text));
}

} // verus!
