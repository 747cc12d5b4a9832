//! Timestamps in snapshot names. A name like `@.20240601_123000` carries a
//! token after its first `.`; when the display option asks for it, the token
//! is parsed (through chrono) and the name is shown with a human-readable
//! date appended. Rendering of both the human-readable form and the compact
//! form used for moved-aside subvolume names is done and verified here; only
//! the parsing itself and the wall clock are taken from chrono.

use vstd::prelude::*;
use vstd::string::StrSliceExecFns;
use vstd::string::StringExecFns;

use chrono::Datelike;
use chrono::Timelike;

use crate::scan::is_snapshot_name;
use crate::strkit::find_char;
use crate::strkit::find_char_from;
use crate::strkit::first_index_from;
use crate::strkit::lemma_first_index_from;

verus! {

/// A calendar timestamp as plain fields, exactly as chrono reports them.
#[derive(Clone, Copy, PartialEq, Eq, Structural, Debug)]
pub struct Stamp {
    pub year: i32,
    pub month: u32,
    pub day: u32,
    pub hour: u32,
    pub minute: u32,
    pub second: u32,
}

/// The field ranges chrono documents for a date-time's accessors.
pub open spec fn stamp_field_ranges(t: Stamp) -> bool {
    &&& 1 <= t.month <= 12
    &&& 1 <= t.day <= 31
    &&& t.hour <= 23
    &&& t.minute <= 59
    &&& t.second <= 59
}

/// A stamp the fixed-width forms below can render: field ranges hold and the
/// year has at most four digits.
pub open spec fn stamp_renderable(t: Stamp) -> bool {
    &&& 0 <= t.year <= 9999
    &&& stamp_field_ranges(t)
}

/// Decides `stamp_renderable`.
pub fn is_renderable(t: &Stamp) -> (r: bool)
    ensures
        r == stamp_renderable(*t),
{
    0 <= t.year && t.year <= 9999 && 1 <= t.month && t.month <= 12 && 1 <= t.day && t.day <= 31
        && t.hour <= 23 && t.minute <= 59 && t.second <= 59
}

/// The decimal digit character for `d`.
pub open spec fn digit_char(d: int) -> char {
    if d == 0 {
        '0'
    } else if d == 1 {
        '1'
    } else if d == 2 {
        '2'
    } else if d == 3 {
        '3'
    } else if d == 4 {
        '4'
    } else if d == 5 {
        '5'
    } else if d == 6 {
        '6'
    } else if d == 7 {
        '7'
    } else if d == 8 {
        '8'
    } else {
        '9'
    }
}

/// `n` zero-padded to two digits.
pub open spec fn two_digits(n: int) -> Seq<char> {
    seq![digit_char(n / 10), digit_char(n % 10)]
}

/// `n` zero-padded to four digits.
pub open spec fn four_digits(n: int) -> Seq<char> {
    seq![
        digit_char(n / 1000),
        digit_char((n / 100) % 10),
        digit_char((n / 10) % 10),
        digit_char(n % 10),
    ]
}

/// The single-character string for a digit.
fn digit_str(d: u32) -> (r: &'static str)
    requires
        d <= 9,
    ensures
        r@ == seq![digit_char(d as int)],
{
    proof {
        reveal_strlit("0");
        reveal_strlit("1");
        reveal_strlit("2");
        reveal_strlit("3");
        reveal_strlit("4");
        reveal_strlit("5");
        reveal_strlit("6");
        reveal_strlit("7");
        reveal_strlit("8");
        reveal_strlit("9");
    }
    let r = if d == 0 {
        "0"
    } else if d == 1 {
        "1"
    } else if d == 2 {
        "2"
    } else if d == 3 {
        "3"
    } else if d == 4 {
        "4"
    } else if d == 5 {
        "5"
    } else if d == 6 {
        "6"
    } else if d == 7 {
        "7"
    } else if d == 8 {
        "8"
    } else {
        "9"
    };
    proof {
        assert(r@ =~= seq![digit_char(d as int)]);
    }
    r
}

/// Appends `n` zero-padded to two digits.
fn push_two_digits(out: &mut String, n: u32)
    requires
        n <= 99,
    ensures
        final(out)@ == old(out)@ + two_digits(n as int),
{
    out.append(digit_str(n / 10));
    out.append(digit_str(n % 10));
    proof {
        assert(out@ =~= old(out)@ + two_digits(n as int));
    }
}

/// Appends `n` zero-padded to four digits.
fn push_four_digits(out: &mut String, n: u32)
    requires
        n <= 9999,
    ensures
        final(out)@ == old(out)@ + four_digits(n as int),
{
    out.append(digit_str(n / 1000));
    out.append(digit_str((n / 100) % 10));
    out.append(digit_str((n / 10) % 10));
    out.append(digit_str(n % 10));
    proof {
        assert(out@ =~= old(out)@ + four_digits(n as int));
    }
}

/// `n` in decimal, without padding.
pub open spec fn dec_str(n: int) -> Seq<char>
    decreases n,
{
    if n < 10 {
        seq![digit_char(n)]
    } else {
        dec_str(n / 10).push(digit_char(n % 10))
    }
}

/// Appends `n` in decimal.
pub fn push_decimal(out: &mut String, n: usize)
    ensures
        final(out)@ == old(out)@ + dec_str(n as int),
    decreases n,
{
    if n < 10 {
        out.append(digit_str(n as u32));
        proof {
            assert(out@ =~= old(out)@ + dec_str(n as int));
        }
    } else {
        push_decimal(out, n / 10);
        out.append(digit_str((n % 10) as u32));
        proof {
            assert(out@ =~= old(out)@ + dec_str(n as int));
        }
    }
}

/// The compact `YYYYMMDD_HHMMSS` form used in moved-aside subvolume names.
pub open spec fn compact_form(t: Stamp) -> Seq<char> {
    four_digits(t.year as int) + two_digits(t.month as int) + two_digits(t.day as int)
        + seq!['_'] + two_digits(t.hour as int) + two_digits(t.minute as int) + two_digits(
        t.second as int,
    )
}

/// The human-readable `YYYY-MM-DD HH:MM:SS` form shown in the listing.
pub open spec fn human_form(t: Stamp) -> Seq<char> {
    four_digits(t.year as int) + seq!['-'] + two_digits(t.month as int) + seq!['-'] + two_digits(
        t.day as int,
    ) + seq![' '] + two_digits(t.hour as int) + seq![':'] + two_digits(t.minute as int) + seq![':']
        + two_digits(t.second as int)
}

/// Renders the compact form.
pub fn compact_stamp(t: &Stamp) -> (r: String)
    requires
        stamp_renderable(*t),
    ensures
        r@ == compact_form(*t),
{
    let mut out = String::new();
    push_four_digits(&mut out, t.year as u32);
    push_two_digits(&mut out, t.month);
    push_two_digits(&mut out, t.day);
    out.append("_");
    push_two_digits(&mut out, t.hour);
    push_two_digits(&mut out, t.minute);
    push_two_digits(&mut out, t.second);
    proof {
        reveal_strlit("_");
        assert(out@ =~= compact_form(*t));
    }
    out
}

/// Renders the human-readable form.
pub fn human_stamp(t: &Stamp) -> (r: String)
    requires
        stamp_renderable(*t),
    ensures
        r@ == human_form(*t),
{
    let mut out = String::new();
    push_four_digits(&mut out, t.year as u32);
    out.append("-");
    push_two_digits(&mut out, t.month);
    out.append("-");
    push_two_digits(&mut out, t.day);
    out.append(" ");
    push_two_digits(&mut out, t.hour);
    out.append(":");
    push_two_digits(&mut out, t.minute);
    out.append(":");
    push_two_digits(&mut out, t.second);
    proof {
        reveal_strlit("-");
        reveal_strlit(" ");
        reveal_strlit(":");
        assert(out@ =~= human_form(*t));
    }
    out
}

/// What chrono's parser yields for a token under the `%Y%m%dT%H%M` format.
pub uninterp spec fn parsed_basic(s: Seq<char>) -> Option<Stamp>;

/// What chrono's parser yields for a token under the `%Y%m%d_%H%M%S` format.
pub uninterp spec fn parsed_full(s: Seq<char>) -> Option<Stamp>;

/// Relies on chrono::NaiveDateTime::parse_from_str with the `%Y%m%dT%H%M`
/// format: whether it accepts the token and which date-time it yields depend
/// on the token alone, and chrono documents the accessors' ranges (month 1 to
/// 12, day 1 to 31, hour to 23, minute and second to 59).
#[verifier::external_body]
fn parse_basic(token: &str) -> (r: Option<Stamp>)
    ensures
        r == parsed_basic(token@),
        r matches Some(t) ==> stamp_field_ranges(t),
{
    match chrono::NaiveDateTime::parse_from_str(token, "%Y%m%dT%H%M") {
        Ok(dt) => Some(
            Stamp {
                year: dt.year(),
                month: dt.month(),
                day: dt.day(),
                hour: dt.hour(),
                minute: dt.minute(),
                second: dt.second(),
            },
        ),
        Err(_) => None,
    }
}

/// Relies on chrono::NaiveDateTime::parse_from_str with the `%Y%m%d_%H%M%S`
/// format, as `parse_basic` does for its format.
#[verifier::external_body]
fn parse_full(token: &str) -> (r: Option<Stamp>)
    ensures
        r == parsed_full(token@),
        r matches Some(t) ==> stamp_field_ranges(t),
{
    match chrono::NaiveDateTime::parse_from_str(token, "%Y%m%d_%H%M%S") {
        Ok(dt) => Some(
            Stamp {
                year: dt.year(),
                month: dt.month(),
                day: dt.day(),
                hour: dt.hour(),
                minute: dt.minute(),
                second: dt.second(),
            },
        ),
        Err(_) => None,
    }
}

/// Relies on chrono::Local::now for the wall-clock time that names a
/// moved-aside subvolume; nothing is assumed of it beyond the documented
/// accessor ranges.
#[verifier::external_body]
pub(crate) fn stamp_now() -> (r: Stamp)
    ensures
        stamp_field_ranges(r),
{
    let t = chrono::Local::now().naive_local();
    Stamp {
        year: t.year(),
        month: t.month(),
        day: t.day(),
        hour: t.hour(),
        minute: t.minute(),
        second: t.second(),
    }
}

/// The timestamp token of a snapshot name: what stands between the first `.`
/// and the next `.` or the end.
pub open spec fn ts_token(s: Seq<char>) -> Seq<char> {
    let i = first_index_from(s, '.', 0);
    let j = first_index_from(s, '.', i + 1);
    s.subrange(i + 1, j)
}

/// The stamp a name's token parses to: the first format that accepts it wins.
pub open spec fn parsed_token(tok: Seq<char>) -> Option<Stamp> {
    if parsed_basic(tok) is Some {
        parsed_basic(tok)
    } else {
        parsed_full(tok)
    }
}

/// What the listing shows for a name. With timestamps off, the name itself;
/// with them on, the name with the parsed date appended when the token
/// parses to a stamp the fixed-width form can render, and the bare name
/// otherwise: a token neither format accepts is silently left alone.
pub open spec fn display_name_spec(name: Seq<char>, show_timestamps: bool) -> Seq<char> {
    if !show_timestamps || !is_snapshot_name(name) {
        name
    } else {
        match parsed_token(ts_token(name)) {
            Some(t) => if stamp_renderable(t) {
                name + " ("@ + human_form(t) + ")"@
            } else {
                name
            },
            None => name,
        }
    }
}

/// Formats a snapshot name for display.
pub fn format_snapshot_name(name: &str, show_timestamps: bool) -> (r: String)
    ensures
        r@ == display_name_spec(name@, show_timestamps),
        !show_timestamps ==> r@ == name@,
{
    if !show_timestamps {
        return String::from_str(name);
    }
    if !crate::scan::is_snapshot_exec(name) {
        return String::from_str(name);
    }
    let len = name.unicode_len();
    let dot = match find_char(name, '.') {
        Some(i) => i,
        None => {
            proof {
                crate::strkit::lemma_first_index_contains(name@, '.');
                assert(false);
            }
            0
        },
    };
    proof {
        lemma_first_index_from(name@, '.', dot + 1);
    }
    let next = match find_char_from(name, '.', dot + 1) {
        Some(j) => j,
        None => len,
    };
    let token = name.substring_char(dot + 1, next);
    let parsed = match parse_basic(token) {
        Some(t) => Some(t),
        None => parse_full(token),
    };
    match parsed {
        Some(t) => {
            if is_renderable(&t) {
                let stamp = human_stamp(&t);
                let mut out = String::from_str(name);
                out.append(" (");
                out.append(stamp.as_str());
                out.append(")");
                proof {
                    reveal_strlit(" (");
                    reveal_strlit(")");
                    assert(out@ =~= display_name_spec(name@, show_timestamps));
                }
                out
            } else {
                String::from_str(name)
            }
        },
        None => String::from_str(name),
    }
}

} // verus!
