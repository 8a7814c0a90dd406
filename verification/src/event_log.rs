//! The persistent event log: one `[timestamp] [TYPE] details` line per event.

use crate::config::{default_base_dir, is_base_dir};
use crate::paths::{join_path, path_join};
use crate::text::{lemma_push_deep_view, 
    chars_of, find_char, find_char_index, lemma_find_char, lemma_find_char_at, lemma_trim_fixed, lines,
    slice_chars, split_lines, string_of, trim, trim_chars, trim_end, trim_start, trim_start_index, to_upper,
    uppercase, is_ws, is_ascii_text, ascii_upper, lemma_trim_start_shape, lemma_trim_end_shape, lemma_trim_shape,
};
use crate::time::{now_instant, now_rfc3339, parse_rfc3339, rfc3339_char, rfc3339_instant};
use vstd::prelude::*;

verus! {

/// One parsed event of the log.
#[derive(Clone, Debug)]
pub struct LogEntry {
    /// Seconds since the Unix epoch.
    pub timestamp_secs: i64,
    /// Nanoseconds within that second.
    pub timestamp_nanos: u32,
    pub event_type: String,
    pub details: String,
}

/// Directory of the event log inside the base directory.
pub fn log_dir() -> (r: String)
    ensures
        exists|b: Seq<char>| is_base_dir(b) && r@ == path_join(b, "logs"@),
{
    let b = default_base_dir();
    join_path(b.as_str(), "logs")
}

/// Path of the event log file.
pub fn log_file_path() -> (r: String)
    ensures
        exists|b: Seq<char>| is_base_dir(b) && r@ == path_join(path_join(b, "logs"@), "events.log"@),
{
    let d = log_dir();
    join_path(d.as_str(), "events.log")
}

/// The line appended for an event, with its event type already upper-cased.
pub open spec fn log_text(timestamp: Seq<char>, upper_type: Seq<char>, details: Seq<char>) -> Seq<char> {
    "["@ + timestamp + "] ["@ + upper_type + "] "@ + details + "\n"@
}

/// The line appended for an event.
pub open spec fn log_line(timestamp: Seq<char>, event_type: Seq<char>, details: Seq<char>) -> Seq<char> {
    log_text(timestamp, uppercase(event_type), details)
}

/// Formats the line appended for an event; the event type is upper-cased
/// (for an ASCII type, by the ASCII mapping).
pub fn format_log_line(timestamp: &str, event_type: &str, details: &str) -> (r: String)
    ensures
        r@ == log_line(timestamp@, event_type@, details@),
        is_ascii_text(event_type@) ==> r@ == log_text(
            timestamp@,
            event_type@.map_values(|c: char| ascii_upper(c)),
            details@,
        ),
{
    let up = to_upper(event_type);
    String::from_str("[").concat(timestamp).concat("] [").concat(up.as_str()).concat("] ").concat(
        details,
    ).concat("\n")
}

/// The line logged for an event now: stamped with the current time, whose
/// text holds no `]`. It reads back as the upper-cased event type and the
/// details, when the upper-cased type holds no `]` and the details carry no
/// outer whitespace.
pub fn event_line(event_type: &str, details: &str) -> (r: String)
    ensures
        exists|timestamp: Seq<char>|
            !timestamp.contains(']') && r@ == log_line(timestamp, event_type@, details@),
        !uppercase(event_type@).contains(']') && details@ == trim(details@) ==> exists|timestamp: Seq<char>|
            parsed_log_line(r@) == Some((timestamp, uppercase(event_type@), details@)),
        is_ascii_text(event_type@) && !event_type@.contains(']') && details@ == trim(details@) ==> (parsed_log_line(
            r@,
        ) matches Some((_, t, d)) && t == event_type@.map_values(|c: char| ascii_upper(c)) && d == details@),
{
    let ts = now_rfc3339();
    proof {
        if ts@.contains(']') {
            let i = choose|i: int| 0 <= i < ts@.len() && ts@[i] == ']';
            assert(rfc3339_char(ts@[i]));
        }
        if !uppercase(event_type@).contains(']') && details@ == trim(details@) {
            law_log_line_roundtrip(ts@, event_type@, details@);
        }
    }
    let r = format_log_line(ts.as_str(), event_type, details);
    proof {
        let e = event_type@;
        let m = e.map_values(|c: char| ascii_upper(c));
        if is_ascii_text(e) && !e.contains(']') && details@ == trim(details@) {
            if m.contains(']') {
                let i = choose|i: int| 0 <= i < m.len() && m[i] == ']';
                assert(e[i] == ']');
            }
            lemma_log_text_roundtrip(ts@, m, details@);
        }
    }
    r
}

/// The timestamp text, event type and details of a log line, if it has the
/// `[timestamp] [TYPE] details` form.
pub open spec fn parsed_log_line(line: Seq<char>) -> Option<(Seq<char>, Seq<char>, Seq<char>)> {
    let t = trim(line);
    if t.len() > 0 && t[0] == '[' {
        let rest = t.skip(1);
        let k = find_char(rest, ']');
        if k != -1 {
            let ts = rest.take(k);
            let after = trim_start(rest.skip(k + 1));
            if after.len() > 0 && after[0] == '[' {
                let ab = after.skip(1);
                let k2 = find_char(ab, ']');
                if k2 != -1 {
                    Some((ts, ab.take(k2), trim(ab.skip(k2 + 1))))
                } else {
                    None
                }
            } else {
                None
            }
        } else {
            None
        }
    } else {
        None
    }
}

/// Splits a log line into timestamp text, event type and details.
pub fn parse_log_line(line: &Vec<char>) -> (r: Option<(String, String, String)>)
    ensures
        match r {
            Some((a, b, c)) => parsed_log_line(line@) == Some((a@, b@, c@)),
            None => parsed_log_line(line@) is None,
        },
{
    let t = trim_chars(line);
    if !(t.len() > 0 && t[0] == '[') {
        return None;
    }
    let rest = slice_chars(&t, 1, t.len());
    assert(rest@ =~= t@.skip(1));
    let k = match find_char_index(&rest, ']') {
        Some(k) => k,
        None => return None,
    };
    proof {
        lemma_find_char(rest@, ']');
    }
    let n = rest.len();
    let ts = slice_chars(&rest, 0, k);
    assert(ts@ =~= rest@.take(k as int));
    let tail = slice_chars(&rest, k + 1, n);
    assert(tail@ =~= rest@.skip(k + 1));
    let s = trim_start_index(&tail);
    let after = slice_chars(&tail, s, tail.len());
    if !(after.len() > 0 && after[0] == '[') {
        return None;
    }
    let ab = slice_chars(&after, 1, after.len());
    assert(ab@ =~= after@.skip(1));
    let k2 = match find_char_index(&ab, ']') {
        Some(k2) => k2,
        None => return None,
    };
    proof {
        lemma_find_char(ab@, ']');
    }
    let m = ab.len();
    let ty = slice_chars(&ab, 0, k2);
    assert(ty@ =~= ab@.take(k2 as int));
    let det = slice_chars(&ab, k2 + 1, m);
    assert(det@ =~= ab@.skip(k2 + 1));
    let det_t = trim_chars(&det);
    Some((string_of(&ts), string_of(&ty), string_of(&det_t)))
}

proof fn lemma_log_line_parts(ts: Seq<char>, u: Seq<char>, details: Seq<char>)
    ensures
        ({
            let l = "["@ + ts + "] ["@ + u + "] "@ + details + "\n"@;
            l =~= seq!['['] + ts + seq![']', ' ', '['] + u + seq![']', ' '] + details + seq!['\n']
        }),
{
    reveal_strlit("[");
    reveal_strlit("] [");
    reveal_strlit("] ");
    reveal_strlit("\n");
    assert("["@ =~= seq!['[']);
    assert("] ["@ =~= seq![']', ' ', '[']);
    assert("] "@ =~= seq![']', ' ']);
    assert("\n"@ =~= seq!['\n']);
}

proof fn lemma_trimmed_log_line(ts: Seq<char>, u: Seq<char>, details: Seq<char>)
    requires
        details == trim(details),
    ensures
        ({
            let l = seq!['['] + ts + seq![']', ' ', '['] + u + seq![']', ' '] + details + seq!['\n'];
            let p = seq!['['] + ts + seq![']', ' ', '['] + u + seq![']'];
            trim(l) == p + if details.len() > 0 { seq![' '] + details } else { Seq::<char>::empty() }
        }),
{
    let l = seq!['['] + ts + seq![']', ' ', '['] + u + seq![']', ' '] + details + seq!['\n'];
    let p = seq!['['] + ts + seq![']', ' ', '['] + u + seq![']'];
    assert(l[0] == '[');
    lemma_trim_start_shape(l);
    assert(l.drop_last() =~= p + seq![' '] + details);
    assert(l.last() == '\n');
    assert(trim_end(l) == trim_end(l.drop_last()));
    lemma_trim_shape(details);
    if details.len() > 0 {
        assert((p + seq![' '] + details).last() == details.last());
        lemma_trim_end_shape(p + seq![' '] + details);
        assert(p + seq![' '] + details =~= p + (seq![' '] + details));
    } else {
        assert(p + seq![' '] + details =~= p + seq![' ']);
        assert((p + seq![' ']).drop_last() =~= p);
        assert(trim_end(p + seq![' ']) == trim_end(p));
        assert(p.last() == ']');
        lemma_trim_end_shape(p);
        assert(p + Seq::<char>::empty() =~= p);
    }
}

proof fn lemma_parse_trimmed_log_line(ts: Seq<char>, u: Seq<char>, e: Seq<char>)
    requires
        !ts.contains(']'),
        !u.contains(']'),
    ensures
        ({
            let t = seq!['['] + ts + seq![']', ' ', '['] + u + seq![']'] + e;
            let rest = t.skip(1);
            let k = find_char(rest, ']');
            &&& k == ts.len()
            &&& rest.take(k) == ts
            &&& trim_start(rest.skip(k + 1)) == seq!['['] + u + seq![']'] + e
            &&& find_char((seq!['['] + u + seq![']'] + e).skip(1), ']') == u.len()
            &&& (seq!['['] + u + seq![']'] + e).skip(1).take(u.len() as int) == u
            &&& (seq!['['] + u + seq![']'] + e).skip(1).skip(u.len() as int + 1) == e
        }),
{
    let t = seq!['['] + ts + seq![']', ' ', '['] + u + seq![']'] + e;
    let rest = t.skip(1);
    assert(rest =~= ts + seq![']', ' ', '['] + u + seq![']'] + e);
    assert(rest[ts.len() as int] == ']');
    assert forall|j: int| 0 <= j < ts.len() implies rest[j] != ']' by {
        assert(rest[j] == ts[j]);
        assert(ts.contains(ts[j]));
    }
    lemma_find_char_at(rest, ']', ts.len() as int);
    assert(rest.take(ts.len() as int) =~= ts);
    let tail = rest.skip(ts.len() as int + 1);
    let a = seq!['['] + u + seq![']'] + e;
    assert(tail =~= seq![' '] + a);
    assert(tail.drop_first() =~= a);
    lemma_trim_start_shape(a);
    let ab = a.skip(1);
    assert(ab =~= u + seq![']'] + e);
    assert(ab[u.len() as int] == ']');
    assert forall|j: int| 0 <= j < u.len() implies ab[j] != ']' by {
        assert(ab[j] == u[j]);
        assert(u.contains(u[j]));
    }
    lemma_find_char_at(ab, ']', u.len() as int);
    assert(ab.take(u.len() as int) =~= u);
    assert(ab.skip(u.len() as int + 1) =~= e);
}

/// A line with an upper-cased type reads back as what it was made of.
proof fn lemma_log_text_roundtrip(ts: Seq<char>, u: Seq<char>, details: Seq<char>)
    requires
        !ts.contains(']'),
        !u.contains(']'),
        details == trim(details),
    ensures
        parsed_log_line(log_text(ts, u, details)) == Some((ts, u, details)),
{
    lemma_log_line_parts(ts, u, details);
    lemma_trimmed_log_line(ts, u, details);
    let e = if details.len() > 0 { seq![' '] + details } else { Seq::<char>::empty() };
    lemma_parse_trimmed_log_line(ts, u, e);
    let t = seq!['['] + ts + seq![']', ' ', '['] + u + seq![']'] + e;
    assert(trim(log_text(ts, u, details)) == t);
    assert(t[0] == '[');
    lemma_trim_shape(details);
    if details.len() > 0 {
        assert(e.drop_first() =~= details);
        assert(trim_start(e) == trim_start(details));
        lemma_trim_start_shape(details);
        lemma_trim_end_shape(details);
        assert(trim(e) == details);
    } else {
        assert(trim(e) =~= details);
    }
}

/// Reading back a logged line gives what was logged: the timestamp text, the
/// upper-cased event type and the details, as long as neither the timestamp
/// nor the upper-cased type holds `]` and the details carry no outer whitespace.
pub proof fn law_log_line_roundtrip(ts: Seq<char>, event_type: Seq<char>, details: Seq<char>)
    requires
        !ts.contains(']'),
        !uppercase(event_type).contains(']'),
        details == trim(details),
    ensures
        parsed_log_line(log_line(ts, event_type, details)) == Some((ts, uppercase(event_type), details)),
{
    lemma_log_text_roundtrip(ts, uppercase(event_type), details);
}

/// Specification value of a `LogEntry`.
pub struct LogEntryView {
    pub timestamp_secs: i64,
    pub timestamp_nanos: u32,
    pub event_type: Seq<char>,
    pub details: Seq<char>,
}

impl View for LogEntry {
    type V = LogEntryView;

    open spec fn view(&self) -> LogEntryView {
        LogEntryView {
            timestamp_secs: self.timestamp_secs,
            timestamp_nanos: self.timestamp_nanos,
            event_type: self.event_type@,
            details: self.details@,
        }
    }
}

impl DeepView for LogEntry {
    type V = LogEntryView;

    open spec fn deep_view(&self) -> LogEntryView {
        self@
    }
}

/// The events of the log lines, in file order: lines without the
/// `[timestamp] [TYPE] details` form are skipped, and a timestamp that does
/// not parse as RFC 3339 is read as `now`.
pub open spec fn log_entries(ls: Seq<Seq<char>>, now: (i64, u32)) -> Seq<LogEntryView>
    decreases ls.len(),
{
    if ls.len() == 0 {
        Seq::empty()
    } else {
        let p = log_entries(ls.drop_last(), now);
        match parsed_log_line(ls.last()) {
            Some((ts, ty, d)) => {
                let at = match rfc3339_instant(ts) {
                    Some(i) => i,
                    None => now,
                };
                p.push(LogEntryView { timestamp_secs: at.0, timestamp_nanos: at.1, event_type: ty, details: d })
            },
            None => p,
        }
    }
}

/// The last `limit` entries, newest first.
pub open spec fn newest_first(all: Seq<LogEntryView>, limit: nat) -> Seq<LogEntryView> {
    let n = if all.len() > limit { limit } else { all.len() };
    Seq::new(n, |i: int| all[all.len() - 1 - i])
}

/// The most recent events of a log text, newest first, at most `limit`.
pub fn entries_from_log_text(text: &str, limit: usize, now: (i64, u32)) -> (r: Vec<LogEntry>)
    ensures
        r.deep_view() == newest_first(log_entries(lines(text@), now), limit as nat),
{
    let cs = chars_of(text);
    let ls = split_lines(&cs);
    let ghost lv = ls.deep_view();
    let mut all: Vec<LogEntry> = Vec::new();
    let mut i: usize = 0;
    assert(lv.take(0) =~= Seq::<Seq<char>>::empty());
    while i < ls.len()
        invariant
            i <= ls.len(),
            lv == ls.deep_view(),
            all.deep_view() == log_entries(lv.take(i as int), now),
        decreases ls.len() - i,
    {
        assert(lv.take(i + 1).drop_last() =~= lv.take(i as int));
        assert(lv.take(i + 1).last() == ls@[i as int]@);
        match parse_log_line(&ls[i]) {
            Some((ts, ty, d)) => {
                let at = match parse_rfc3339(ts.as_str()) {
                    Some(x) => x,
                    None => now,
                };
                let e = LogEntry { timestamp_secs: at.0, timestamp_nanos: at.1, event_type: ty, details: d };
                let ghost old_all = all;
                let ghost ge = e;
                all.push(e);
                proof {
                    lemma_push_deep_view(old_all, all, ge);
                }
            },
            None => {},
        }
        i += 1;
    }
    assert(lv.take(ls.len() as int) =~= lv);
    assert(forall|t: int| 0 <= t < all@.len() ==> #[trigger] all@[t].deep_view() == all.deep_view()[t]);
    let ghost av = all.deep_view();
    let total = all.len();
    let n = if total > limit { limit } else { total };
    let mut out: Vec<LogEntry> = Vec::new();
    let mut j: usize = 0;
    assert(out.deep_view() =~= Seq::new(0nat, |t: int| av[av.len() - 1 - t]));
    while j < n
        invariant
            j <= n,
            n <= total,
            total == av.len(),
            all@.len() == total - j,
            forall|t: int| 0 <= t < all@.len() ==> #[trigger] all@[t].deep_view() == av[t],
            out.deep_view() == Seq::new(j as nat, |t: int| av[av.len() - 1 - t]),
        decreases n - j,
    {
        let ghost old_out = out;
        let e = all.pop().unwrap();
        assert(e.deep_view() == av[av.len() - 1 - j]);
        let ghost ge = e;
        out.push(e);
        proof {
            lemma_push_deep_view(old_out, out, ge);
        }
        j += 1;
        assert(out.deep_view() =~= Seq::new(j as nat, |t: int| av[av.len() - 1 - t]));
    }
    out
}

/// The most recent events of a log text, newest first, at most `limit`;
/// timestamps that do not parse are read as the current time.
pub fn recent_log_entries(text: &str, limit: usize) -> (r: Vec<LogEntry>)
    ensures
        exists|now: (i64, u32)| r.deep_view() == newest_first(log_entries(lines(text@), now), limit as nat),
{
    let now = now_instant();
    entries_from_log_text(text, limit, now)
}

} // verus!