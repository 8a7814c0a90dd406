//! Archive layout: account/folder/year/month directories of raw `.eml` files.

use crate::crypto::{hex_encode, hex_encoded, lemma_hex_encoded_shape, sha256, sha256_digest};
use crate::imap::{utc_in_range, utc_representable};
use crate::paths::{join_path, path_join};
use crate::text::{chars_of, decimal, decimal_text, eq_ascii_case, eq_ascii_case_chars, slice_chars, string_of};
use vstd::prelude::*;

verus! {

/// Characters a slug keeps as they are.
pub open spec fn is_slug_char(c: char) -> bool {
    ('a' <= c && c <= 'z') || ('A' <= c && c <= 'Z') || ('0' <= c && c <= '9') || c == '-' || c == '_'
}

/// Characters a slug turns into a single `_`.
pub open spec fn is_slug_separator(c: char) -> bool {
    c == '/' || c == '.' || c == ' '
}

/// The slug before its outer underscores are stripped: slug characters are
/// kept, a separator becomes `_` unless the slug so far ends with `_`, and
/// anything else is dropped.
pub open spec fn slug_raw(s: Seq<char>) -> Seq<char>
    decreases s.len(),
{
    if s.len() == 0 {
        Seq::empty()
    } else {
        let p = slug_raw(s.drop_last());
        let c = s.last();
        if is_slug_char(c) {
            p.push(c)
        } else if is_slug_separator(c) {
            if p.len() > 0 && p.last() == '_' {
                p
            } else {
                p.push('_')
            }
        } else {
            p
        }
    }
}

/// Drops leading underscores.
pub open spec fn strip_leading_underscores(s: Seq<char>) -> Seq<char>
    decreases s.len(),
{
    if s.len() > 0 && s[0] == '_' {
        strip_leading_underscores(s.drop_first())
    } else {
        s
    }
}

/// Drops trailing underscores.
pub open spec fn strip_trailing_underscores(s: Seq<char>) -> Seq<char>
    decreases s.len(),
{
    if s.len() > 0 && s.last() == '_' {
        strip_trailing_underscores(s.drop_last())
    } else {
        s
    }
}

/// `str::trim_matches('_')`.
pub open spec fn strip_underscores(s: Seq<char>) -> Seq<char> {
    strip_trailing_underscores(strip_leading_underscores(s))
}

/// The file-system safe slug of a name; `root` when nothing is left.
pub open spec fn slug(s: Seq<char>) -> Seq<char> {
    let t = strip_underscores(slug_raw(s));
    if t.len() == 0 {
        "root"@
    } else {
        t
    }
}

/// Copy of `s[i..j]` without the outer underscores of that range.
fn strip_underscores_exec(s: &Vec<char>) -> (r: Vec<char>)
    ensures
        r@ == strip_underscores(s@),
{
    let mut i: usize = 0;
    assert(s@.subrange(0, s.len() as int) =~= s@);
    while i < s.len() && s[i] == '_'
        invariant
            i <= s.len(),
            strip_leading_underscores(s@) == strip_leading_underscores(s@.subrange(i as int, s.len() as int)),
        decreases s.len() - i,
    {
        assert(s@.subrange(i as int, s.len() as int).drop_first() =~= s@.subrange(i + 1, s.len() as int));
        i += 1;
    }
    let mut j = s.len();
    while j > i && s[j - 1] == '_'
        invariant
            i <= j <= s.len(),
            strip_underscores(s@) == strip_trailing_underscores(s@.subrange(i as int, j as int)),
        decreases j,
    {
        assert(s@.subrange(i as int, j as int).drop_last() =~= s@.subrange(i as int, j - 1));
        j -= 1;
    }
    slice_chars(s, i, j)
}

/// Information about one stored `.eml` file.
#[derive(Clone, Debug)]
pub struct StoredMessageInfo {
    pub relative_path: String,
    pub absolute_path: String,
    pub sha256: String,
    pub size_bytes: u64,
}

/// Location of the archive.
#[derive(Clone, Debug)]
pub struct StorageEngine {
    base_dir: String,
}

impl StorageEngine {
    /// The archive's base directory, as a specification value.
    pub closed spec fn spec_base_dir(&self) -> Seq<char> {
        self.base_dir@
    }

    /// An archive rooted at `base_dir`.
    pub fn new(base_dir: &str) -> (r: Self)
        ensures
            r.spec_base_dir() == base_dir@,
    {
        StorageEngine { base_dir: String::from_str(base_dir) }
    }

    /// The archive's base directory.
    pub fn base_dir(&self) -> (r: String)
        ensures
            r@ == self.spec_base_dir(),
    {
        self.base_dir.clone()
    }

    /// Moves the archive's root (the files themselves are moved elsewhere).
    pub fn set_base_dir(&mut self, new_dir: &str)
        ensures
            final(self).spec_base_dir() == new_dir@,
    {
        self.base_dir = String::from_str(new_dir);
    }

    /// Absolute path of a file given relative to the archive's root.
    pub fn get_absolute_path(&self, relative_path: &str) -> (r: String)
        ensures
            r@ == path_join(self.spec_base_dir(), relative_path@),
    {
        join_path(self.base_dir.as_str(), relative_path)
    }

    /// The file-system safe slug of a name (folder names, account e-mail
    /// addresses): ASCII letters, digits, `-` and `_` are kept, each run of
    /// `/`, `.` or space becomes one `_`, other characters are dropped, and
    /// outer underscores are stripped; an empty result becomes `root`.
    pub fn sanitize_slug(input: &str) -> (r: String)
        ensures
            r@ == slug(input@),
    {
        let cs = chars_of(input);
        let mut out: Vec<char> = Vec::new();
        let mut i: usize = 0;
        assert(cs@.take(0) =~= Seq::<char>::empty());
        while i < cs.len()
            invariant
                i <= cs.len(),
                out@ == slug_raw(cs@.take(i as int)),
            decreases cs.len() - i,
        {
            let c = cs[i];
            assert(cs@.take(i + 1).drop_last() =~= cs@.take(i as int));
            assert(cs@.take(i + 1).last() == c);
            if ('a' <= c && c <= 'z') || ('A' <= c && c <= 'Z') || ('0' <= c && c <= '9') || c == '-'
                || c == '_' {
                out.push(c);
            } else if c == '/' || c == '.' || c == ' ' {
                if !(out.len() > 0 && out[out.len() - 1] == '_') {
                    out.push('_');
                }
            }
            i += 1;
        }
        assert(cs@.take(cs.len() as int) =~= cs@);
        let t = strip_underscores_exec(&out);
        if t.len() == 0 {
            String::from_str("root")
        } else {
            string_of(&t)
        }
    }
}

/// Every character of `s` is a slug character.
pub open spec fn all_slug_chars(s: Seq<char>) -> bool {
    forall|i: int| 0 <= i < s.len() ==> is_slug_char(#[trigger] s[i])
}

proof fn lemma_slug_raw_chars(s: Seq<char>)
    ensures
        all_slug_chars(slug_raw(s)),
    decreases s.len(),
{
    if s.len() > 0 {
        lemma_slug_raw_chars(s.drop_last());
        let p = slug_raw(s.drop_last());
        assert forall|i: int| 0 <= i < slug_raw(s).len() implies is_slug_char(#[trigger] slug_raw(s)[i]) by {
            if i < p.len() {
                assert(slug_raw(s)[i] == p[i]);
            }
        }
    }
}

proof fn lemma_slug_raw_identity(s: Seq<char>)
    requires
        all_slug_chars(s),
    ensures
        slug_raw(s) == s,
    decreases s.len(),
{
    if s.len() > 0 {
        assert(all_slug_chars(s.drop_last())) by {
            assert forall|i: int| 0 <= i < s.drop_last().len() implies is_slug_char(#[trigger] s.drop_last()[i]) by {
                assert(s.drop_last()[i] == s[i]);
            }
        }
        lemma_slug_raw_identity(s.drop_last());
        assert(is_slug_char(s[s.len() - 1]));
        assert(s.drop_last().push(s.last()) =~= s);
    }
}

proof fn lemma_strip_leading(s: Seq<char>)
    ensures
        all_slug_chars(s) ==> all_slug_chars(strip_leading_underscores(s)),
        strip_leading_underscores(s).len() > 0 ==> strip_leading_underscores(s)[0] != '_',
        strip_leading_underscores(s).len() <= s.len(),
        strip_leading_underscores(s).len() > 0 ==> strip_leading_underscores(s).last() == s.last(),
        s.len() > 0 && s[0] != '_' ==> strip_leading_underscores(s) == s,
    decreases s.len(),
{
    if s.len() > 0 && s[0] == '_' {
        lemma_strip_leading(s.drop_first());
        if all_slug_chars(s) {
            assert(all_slug_chars(s.drop_first())) by {
                assert forall|i: int| 0 <= i < s.drop_first().len() implies is_slug_char(#[trigger] s.drop_first()[i]) by {
                    assert(s.drop_first()[i] == s[i + 1]);
                }
            }
        }
    }
}

proof fn lemma_strip_trailing(s: Seq<char>)
    ensures
        all_slug_chars(s) ==> all_slug_chars(strip_trailing_underscores(s)),
        strip_trailing_underscores(s).len() > 0 ==> strip_trailing_underscores(s).last() != '_',
        strip_trailing_underscores(s).len() > 0 ==> strip_trailing_underscores(s)[0] == s[0],
        s.len() > 0 && s.last() != '_' ==> strip_trailing_underscores(s) == s,
    decreases s.len(),
{
    if s.len() > 0 && s.last() == '_' {
        lemma_strip_trailing(s.drop_last());
        if all_slug_chars(s) {
            assert(all_slug_chars(s.drop_last())) by {
                assert forall|i: int| 0 <= i < s.drop_last().len() implies is_slug_char(#[trigger] s.drop_last()[i]) by {
                    assert(s.drop_last()[i] == s[i]);
                }
            }
        }
    }
}

/// A slug is never empty, holds only ASCII letters, digits, `-` and `_`, and
/// neither begins nor ends with `_`.
pub proof fn law_slug_shape(s: Seq<char>)
    ensures
        slug(s).len() > 0,
        all_slug_chars(slug(s)),
        slug(s)[0] != '_',
        slug(s).last() != '_',
{
    lemma_slug_raw_chars(s);
    let r = slug_raw(s);
    lemma_strip_leading(r);
    lemma_strip_trailing(strip_leading_underscores(r));
    if strip_underscores(r).len() == 0 {
        reveal_strlit("root");
        assert(all_slug_chars("root"@)) by {
            assert forall|i: int| 0 <= i < "root"@.len() implies is_slug_char(#[trigger] "root"@[i]) by {}
        }
    }
}

/// Slugging is idempotent: the slug of a slug is itself.
pub proof fn law_slug_idempotent(s: Seq<char>)
    ensures
        slug(slug(s)) == slug(s),
{
    law_slug_shape(s);
    let u = slug(s);
    lemma_slug_raw_identity(u);
    lemma_strip_leading(u);
    lemma_strip_trailing(u);
}

/// Name for the year (`%Y`) and month (`%m`) texts `chrono` gives for a
/// time in seconds.
pub uninterp spec fn year_month_text(secs: i64) -> (Seq<char>, Seq<char>);

/// Calls `DateTime::<Utc>::from_timestamp` and formats the year and month;
/// the texts are named `year_month_text`.
#[verifier::external_body]
fn format_year_month(secs: i64) -> (r: (String, String))
    requires
        utc_representable(secs),
    ensures
        (r.0@, r.1@) == year_month_text(secs),
{
    let d = chrono::DateTime::from_timestamp(secs, 0).unwrap_or_default();
    (d.format("%Y").to_string(), d.format("%m").to_string())
}

/// Calls `Utc::now` and formats its year and month. It depends on the
/// clock, so nothing is stated of it.
#[verifier::external_body]
fn now_year_month() -> (r: (String, String)) {
    let d = chrono::Utc::now();
    (d.format("%Y").to_string(), d.format("%m").to_string())
}

/// File name of a stored message: `<uid>_<first 12 hex digits of its
/// SHA-256>.eml`.
pub open spec fn eml_file_name(uid: u32, sha: Seq<char>) -> Seq<char> {
    decimal(uid as nat) + "_"@ + sha.take(12) + ".eml"@
}

/// Where a message is stored, relative to the archive's root:
/// `<account>/<folder slug>/<year>/<month>/<file name>`.
pub open spec fn eml_relative_path(
    account_id: Seq<char>,
    folder_name: Seq<char>,
    year: Seq<char>,
    month: Seq<char>,
    uid: u32,
    sha: Seq<char>,
) -> Seq<char> {
    path_join(
        path_join(path_join(path_join(account_id, slug(folder_name)), year), month),
        eml_file_name(uid, sha),
    )
}

impl StorageEngine {
    /// Lower-case hex of the SHA-256 of `data`.
    pub fn compute_sha256(data: &[u8]) -> (r: String)
        ensures
            r@ == hex_encoded(sha256(data@)),
            r@.len() == 64,
    {
        let d = sha256_digest(data);
        proof {
            lemma_hex_encoded_shape(sha256(data@));
        }
        hex_encode(d.as_slice())
    }

    /// Whether `data` has the expected SHA-256, compared up to ASCII case.
    pub fn checksum_matches(data: &[u8], expected_sha256: &str) -> (r: bool)
        ensures
            r == eq_ascii_case(hex_encoded(sha256(data@)), expected_sha256@),
    {
        let h = Self::compute_sha256(data);
        eq_ascii_case_chars(&chars_of(h.as_str()), &chars_of(expected_sha256))
    }

    /// Where a message is stored and what it is stored as: its path under
    /// the archive (dated by `date`, or by the current time when it has
    /// none that `chrono` can represent), its SHA-256 and its size.
    pub fn eml_location(&self, account_id: &str, folder_name: &str, uid: u32, date: Option<i64>, raw: &[u8]) -> (r:
        StoredMessageInfo)
        ensures
            r.sha256@ == hex_encoded(sha256(raw@)),
            r.size_bytes == raw@.len(),
            r.absolute_path@ == path_join(self.spec_base_dir(), r.relative_path@),
            match date {
                Some(d) => utc_representable(d) ==> r.relative_path@ == eml_relative_path(
                    account_id@,
                    folder_name@,
                    year_month_text(d).0,
                    year_month_text(d).1,
                    uid,
                    r.sha256@,
                ),
                None => true,
            },
            exists|year: Seq<char>, month: Seq<char>|
                r.relative_path@ == #[trigger] eml_relative_path(account_id@, folder_name@, year, month, uid, r.sha256@),
    {
        let ym = match date {
            Some(d) => if utc_in_range(d) {
                format_year_month(d)
            } else {
                now_year_month()
            },
            None => now_year_month(),
        };
        let (year, month) = ym;
        let sha = Self::compute_sha256(raw);
        let shac = chars_of(sha.as_str());
        let prefix = slice_chars(&shac, 0, 12);
        assert(prefix@ =~= sha@.take(12));
        let file_name = decimal_text(uid as u64).concat("_").concat(string_of(&prefix).as_str()).concat(".eml");
        let folder_slug = Self::sanitize_slug(folder_name);
        let p1 = join_path(account_id, folder_slug.as_str());
        let p2 = join_path(p1.as_str(), year.as_str());
        let p3 = join_path(p2.as_str(), month.as_str());
        let relative_path = join_path(p3.as_str(), file_name.as_str());
        let absolute_path = join_path(self.base_dir.as_str(), relative_path.as_str());
        let size_bytes = raw.len() as u64;
        assert(file_name@ =~= eml_file_name(uid, sha@));
        let ghost yv = year@;
        let ghost mv = month@;
        let r = StoredMessageInfo { relative_path, absolute_path, sha256: sha, size_bytes };
        assert(r.relative_path@ == eml_relative_path(account_id@, folder_name@, yv, mv, uid, r.sha256@));
        r
    }
}

} // verus!
