//! The `meta.info` file kept in every installed version: a format line `1`,
//! the version's name, its source commit and its creation date.
use crate::installation_data::VersionDate;
use crate::text::{
    from_chars, lemma_index_of, lemma_index_of_bound, split, split_chars, to_chars, trim,
    trim_chars, views, chars_equal,
};
use vstd::prelude::*;

verus! {

/// What chrono's `DateTime<Utc>` parser makes of `text`, as (seconds, nanoseconds).
pub uninterp spec fn chrono_utc_from_str(text: Seq<char>) -> Option<(i64, u32)>;

/// The text that chrono's `Debug` writes for the UTC date at (seconds,
/// nanoseconds), or `None` when chrono has no date there.
pub uninterp spec fn chrono_utc_debug_text(secs: i64, nanos: u32) -> Option<Seq<char>>;

/// Calls `<chrono::DateTime<chrono::Utc> as FromStr>::from_str` and reads the
/// parsed date back with `timestamp` and `timestamp_subsec_nanos`. The result is
/// named, not described: nothing here states which texts chrono accepts.
#[verifier::external_body]
fn parse_utc_date(text: &str) -> (r: Option<VersionDate>)
    ensures
        match r {
            Some(d) => chrono_utc_from_str(text@) == Some((d.secs, d.nanos)),
            None => chrono_utc_from_str(text@) is None,
        },
{
    match text.parse::<chrono::DateTime<chrono::Utc>>() {
        Ok(d) => Some(VersionDate { secs: d.timestamp(), nanos: d.timestamp_subsec_nanos() }),
        Err(_) => None,
    }
}

/// The first second of the year 0, UTC, in seconds since the epoch.
pub const YEAR_0_START_SECS: i64 = -62167219200;

/// The last second of the year 9999, UTC, in seconds since the epoch.
pub const YEAR_9999_END_SECS: i64 = 253402300799;

/// A date with a four-digit year (0 to 9999) that is not a leap second.
pub open spec fn four_digit_year_date(secs: i64, nanos: u32) -> bool {
    YEAR_0_START_SECS <= secs <= YEAR_9999_END_SECS && nanos < 1_000_000_000
}

/// Calls `chrono::DateTime::from_timestamp` and writes the date with its
/// `Debug` implementation. The text is named; the contract also states what
/// chrono's source shows: a date with a four-digit year is written, and the
/// text of a date that is not a leap second (`YYYY-MM-DDTHH:MM:SS`, the year
/// signed when it has not four digits, an optional fraction, then `Z`) holds
/// no line break or surrounding white space and is read back by chrono's
/// parser as the same date. Whether other years are written, and what is read
/// back of a leap second, is left unsaid.
#[verifier::external_body]
fn utc_debug_text(d: VersionDate) -> (r: Option<String>)
    ensures
        match r {
            Some(t) => chrono_utc_debug_text(d.secs, d.nanos) == Some(t@),
            None => chrono_utc_debug_text(d.secs, d.nanos) is None,
        },
        match r {
            Some(t) => d.nanos < 1_000_000_000 ==> !t@.contains('\n') && trim(t@) == t@
                && chrono_utc_from_str(t@) == Some((d.secs, d.nanos)),
            None => !four_digit_year_date(d.secs, d.nanos),
        },
{
    match chrono::DateTime::from_timestamp(d.secs, d.nanos) {
        Some(t) => Some(format!("{:?}", t)),
        None => None,
    }
}

/// Why a metadata file was not accepted.
#[derive(Clone, Copy, Debug, PartialEq, Eq, Structural)]
pub enum MetadataError {
    /// The first line is not the format version `1`.
    UnknownFormat,
    /// The fourth line is not a date.
    BadDate,
}

/// The `i`-th line of `text` with surrounding white space removed, empty when
/// the text has fewer lines (what successive `read_line` calls leave).
pub open spec fn metadata_field(text: Seq<char>, i: int) -> Seq<char> {
    let pieces = split(text, '\n');
    if i < pieces.len() {
        trim(pieces[i])
    } else {
        trim(Seq::<char>::empty())
    }
}

/// The content of a metadata text: (name, commit, date).
pub open spec fn parse_metadata_spec(text: Seq<char>) -> Result<
    (Seq<char>, Seq<char>, (i64, u32)),
    MetadataError,
> {
    if metadata_field(text, 0) != seq!['1'] {
        Err(MetadataError::UnknownFormat)
    } else {
        match chrono_utc_from_str(metadata_field(text, 3)) {
            Some(d) => Ok((metadata_field(text, 1), metadata_field(text, 2), d)),
            None => Err(MetadataError::BadDate),
        }
    }
}

/// The metadata text written for a version: `1`, the name, the commit and the date text.
pub open spec fn render_metadata(name: Seq<char>, commit: Seq<char>, date_text: Seq<char>) -> Seq<
    char,
> {
    seq!['1', '\n'] + name + seq!['\n'] + commit + seq!['\n'] + date_text
}

fn field_of(pieces: &Vec<Vec<char>>, i: usize) -> (r: Vec<char>)
    ensures
        r@ == (if i < pieces@.len() {
            trim(pieces@[i as int]@)
        } else {
            trim(Seq::<char>::empty())
        }),
{
    if i < pieces.len() {
        trim_chars(&pieces[i])
    } else {
        let e: Vec<char> = Vec::new();
        trim_chars(&e)
    }
}

/// Read a metadata text: (name, commit, date).
pub fn parse_metadata(text: &str) -> (r: Result<(String, String, VersionDate), MetadataError>)
    ensures
        match (r, parse_metadata_spec(text@)) {
            (Ok((n, c, d)), Ok((sn, sc, sd))) => n@ == sn && c@ == sc && (d.secs, d.nanos) == sd,
            (Err(e), Err(se)) => e == se,
            _ => false,
        },
{
    let t = to_chars(text);
    let pieces = split_chars(&t, '\n');
    assert(views(pieces@).len() == pieces@.len());
    let f0 = field_of(&pieces, 0);
    let one: Vec<char> = vec!['1'];
    if !chars_equal(&f0, &one) {
        assert(one@ =~= seq!['1']);
        return Err(MetadataError::UnknownFormat);
    }
    assert(one@ =~= seq!['1']);
    let f1 = field_of(&pieces, 1);
    let f2 = field_of(&pieces, 2);
    let f3 = field_of(&pieces, 3);
    let date_text = from_chars(&f3);
    match parse_utc_date(date_text.as_str()) {
        Some(d) => Ok((from_chars(&f1), from_chars(&f2), d)),
        None => Err(MetadataError::BadDate),
    }
}

fn push_str_chars(out: &mut Vec<char>, s: &[char])
    ensures
        final(out)@ == old(out)@ + s@,
{
    let mut i: usize = 0;
    let ghost base = out@;
    while i < s.len()
        invariant
            i <= s@.len(),
            out@ == base + s@.take(i as int),
        decreases s@.len() - i,
    {
        out.push(s[i]);
        assert(s@.take(i as int + 1) =~= s@.take(i as int).push(s@[i as int]));
        i = i + 1;
    }
    assert(s@.take(s@.len() as int) =~= s@);
}

/// The metadata text for a version, or `None` when chrono cannot write the
/// date (never for a four-digit year). A name and a commit of one line each,
/// without surrounding white space, and a date that is not a leap second are
/// read back by `parse_metadata` as written.
pub fn metadata_text(name: &str, commit: &str, date: VersionDate) -> (r: Option<String>)
    ensures
        match (r, chrono_utc_debug_text(date.secs, date.nanos)) {
            (Some(s), Some(t)) => s@ == render_metadata(name@, commit@, t),
            (None, None) => true,
            _ => false,
        },
        four_digit_year_date(date.secs, date.nanos) ==> r is Some,
        match r {
            Some(s) => ({
                &&& date.nanos < 1_000_000_000
                &&& !name@.contains('\n')
                &&& !commit@.contains('\n')
                &&& trim(name@) == name@
                &&& trim(commit@) == commit@
            }) ==> parse_metadata_spec(s@) == Ok::<(Seq<char>, Seq<char>, (i64, u32)), MetadataError>(
                (name@, commit@, (date.secs, date.nanos)),
            ),
            None => true,
        },
{
    match utc_debug_text(date) {
        None => None,
        Some(date_text) => {
            let mut out: Vec<char> = vec!['1', '\n'];
            push_str_chars(&mut out, &to_chars(name));
            out.push('\n');
            push_str_chars(&mut out, &to_chars(commit));
            out.push('\n');
            push_str_chars(&mut out, &to_chars(date_text.as_str()));
            assert(out@ =~= render_metadata(name@, commit@, date_text@));
            proof {
                if date.nanos < 1_000_000_000 && !name@.contains('\n') && !commit@.contains('\n') && trim(name@) == name@
                    && trim(commit@) == commit@ {
                    law_metadata_roundtrip(name@, commit@, date_text@, (date.secs, date.nanos));
                }
            }
            Some(from_chars(&out))
        },
    }
}

proof fn lemma_split_prefix(a: Seq<char>, b: Seq<char>)
    requires
        !a.contains('\n'),
    ensures
        split(a + seq!['\n'] + b, '\n') == seq![a] + split(b, '\n'),
{
    let s = a + seq!['\n'] + b;
    assert forall|j: int| 0 <= j < a.len() implies s[j] != '\n' by {
        assert(s[j] == a[j]);
    }
    lemma_index_of(s, '\n', a.len() as int);
    assert(s.take(a.len() as int) =~= a);
    assert(s.skip(a.len() as int + 1) =~= b);
}

proof fn lemma_split_single(a: Seq<char>)
    requires
        !a.contains('\n'),
    ensures
        split(a, '\n') == seq![a],
{
    assert forall|j: int| 0 <= j < a.len() implies a[j] != '\n' by {
        if a[j] == '\n' {
            assert(a.contains('\n'));
        }
    }
    lemma_index_of(a, '\n', a.len() as int);
}

/// Reading back a metadata text gives what was written: the name, the commit,
/// and the date that chrono reads from the date text.
pub proof fn law_metadata_roundtrip(
    name: Seq<char>,
    commit: Seq<char>,
    date_text: Seq<char>,
    date: (i64, u32),
)
    requires
        !name.contains('\n'),
        !commit.contains('\n'),
        !date_text.contains('\n'),
        trim(name) == name,
        trim(commit) == commit,
        chrono_utc_from_str(trim(date_text)) == Some(date),
    ensures
        parse_metadata_spec(render_metadata(name, commit, date_text)) == Ok::<
            (Seq<char>, Seq<char>, (i64, u32)),
            MetadataError,
        >((name, commit, date)),
{
    let text = render_metadata(name, commit, date_text);
    let one = seq!['1'];
    assert(!one.contains('\n')) by {
        assert(one[0] == '1');
    }
    assert(text =~= one + seq!['\n'] + (name + seq!['\n'] + (commit + seq!['\n'] + date_text)));
    lemma_split_prefix(one, name + seq!['\n'] + (commit + seq!['\n'] + date_text));
    lemma_split_prefix(name, commit + seq!['\n'] + date_text);
    lemma_split_prefix(commit, date_text);
    lemma_split_single(date_text);
    let pieces = split(text, '\n');
    assert(pieces =~= seq![one, name, commit, date_text]);
    assert(trim(one) =~= one) by {
        assert(!crate::text::is_ws('1'));
        assert(crate::text::trim_start(one) == one);
        assert(crate::text::trim_end(one) == one);
    }
}

/// What chrono's `Utc.with_ymd_and_hms` gives for these fields, as (seconds,
/// nanoseconds), where they name exactly one date.
pub uninterp spec fn chrono_utc_from_fields(
    year: i32,
    month: u32,
    day: u32,
    hour: u32,
    minute: u32,
    second: u32,
) -> Option<(i64, u32)>;

/// Calls `chrono::TimeZone::with_ymd_and_hms` on `Utc` and keeps the single
/// result. The date is named, not described.
#[verifier::external_body]
fn utc_from_fields(year: i32, month: u32, day: u32, hour: u32, minute: u32, second: u32) -> (r:
    Option<VersionDate>)
    ensures
        match r {
            Some(d) => chrono_utc_from_fields(year, month, day, hour, minute, second) == Some(
                (d.secs, d.nanos),
            ),
            None => chrono_utc_from_fields(year, month, day, hour, minute, second) is None,
        },
{
    match chrono::TimeZone::with_ymd_and_hms(&chrono::Utc, year, month, day, hour, minute, second).single() {
        Some(t) => Some(VersionDate { secs: t.timestamp(), nanos: t.timestamp_subsec_nanos() }),
        None => None,
    }
}

/// What a downloaded source archive says of its version: the full commit is
/// the archive's comment, the version's name is the characters that make up
/// the commit's first 13 bytes, and its date is the modification time of the archive's first
/// entry; `None` when those fields name no date.
pub fn unpacked_version(
    comment: &str,
    year: u16,
    month: u8,
    day: u8,
    hour: u8,
    minute: u8,
    second: u8,
) -> (r: Option<(String, String, VersionDate)>)
    requires
        crate::text::is_char_boundary(comment@, 13),
    ensures
        match chrono_utc_from_fields(
            year as i32,
            month as u32,
            day as u32,
            hour as u32,
            minute as u32,
            second as u32,
        ) {
            Some(d) => r matches Some((c, n, rd)) && c@ == comment@
                && crate::text::utf8_len(n@) == 13 && n@ == comment@.take(n@.len() as int)
                && (rd.secs, rd.nanos) == d,
            None => r is None,
        },
{
    let date = utc_from_fields(
        year as i32,
        month as u32,
        day as u32,
        hour as u32,
        minute as u32,
        second as u32,
    );
    match date {
        Some(d) => Some((comment.to_owned(), crate::install_support::nice_name_from_commit(comment), d)),
        None => None,
    }
}

} // verus!
