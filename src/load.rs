use vstd::prelude::*;

use vstd::string::StrSliceExecFns;

use crate::number::{parse_i32, parse_u32, signed_literal, unsigned_literal};
use crate::route::{RouteError, TransferAddr};

verus! {

/// Why a source record could not be loaded.
#[derive(Clone, Copy, Debug, PartialEq, Eq)]
pub enum LoadError {
    /// The file name is not ASCII or too short to hold a capture date.
    BadFileName,
    /// The year, month or day of the capture date is not a number.
    BadDateField,
    /// The capture date does not exist in the calendar.
    InvalidDate,
    /// A subdataset metadata line holds no `=`.
    BadMetadata,
}

pub open spec fn is_leap_year(y: int) -> bool {
    (y % 4 == 0 && y % 100 != 0) || y % 400 == 0
}

pub open spec fn days_in_month(y: int, m: int) -> int {
    if m == 2 {
        if is_leap_year(y) { 29 } else { 28 }
    } else if m == 4 || m == 6 || m == 9 || m == 11 {
        30
    } else {
        31
    }
}

/// Whether year `y`, month `m`, day `d` is a day of the proleptic Gregorian
/// calendar.
pub open spec fn valid_date(y: int, m: int, d: int) -> bool {
    1 <= m <= 12 && 1 <= d <= days_in_month(y, m)
}

/// Days from 1970-01-01 to the given day of the proleptic Gregorian
/// calendar.
pub open spec fn days_from_civil(y: int, m: int, d: int) -> int {
    let yy = if m <= 2 { y - 1 } else { y };
    let era = yy / 400;
    let yoe = yy - era * 400;
    let mp = if m > 2 { m - 3 } else { m + 9 };
    let doy = (153 * mp + 2) / 5 + d - 1;
    let doe = yoe * 365 + yoe / 4 - yoe / 100 + doy;
    era * 146097 + doe - 719468
}

/// Relies on chrono's `Utc.with_ymd_and_hms(y, m, d, 0, 0, 0).single()` and
/// `DateTime::timestamp`: a day that exists, in chrono's range of years,
/// gives the seconds from the epoch to its midnight in UTC; any other
/// gives nothing.
#[verifier::external_body]
fn midnight_utc(year: i32, month: u32, day: u32) -> (r: Option<i64>)
    ensures
        r is Some ==> valid_date(year as int, month as int, day as int) && r->0 == 86400
            * days_from_civil(year as int, month as int, day as int),
        (-262143 <= year <= 262142 && valid_date(year as int, month as int, day as int))
            ==> r is Some,
{
    chrono::TimeZone::with_ymd_and_hms(&chrono::Utc, year, month, day, 0, 0, 0)
        .single()
        .map(|t| t.timestamp())
}

/// The eight characters of an NAIP file name that hold its capture date:
/// they end four characters before the end of the name.
pub open spec fn date_chars(name: Seq<char>) -> Seq<char> {
    name.subrange(name.len() - 12, name.len() - 4)
}

/// The capture date written as `YYYYMMDD` in an NAIP file name such as
/// `m_3712213_ne_10_060_20180624.tif`.
pub open spec fn naip_date_spec(name: Seq<char>) -> Result<(int, int, int), LoadError> {
    if !vstd::utf8::is_ascii_chars(name) || name.len() < 12 {
        Err(LoadError::BadFileName)
    } else {
        let s = date_chars(name);
        match (
            signed_literal(s.subrange(0, 4)),
            unsigned_literal(s.subrange(4, 6)),
            unsigned_literal(s.subrange(6, 8)),
        ) {
            (Some(y), Some(m), Some(d)) => Ok((y, m as int, d as int)),
            _ => Err(LoadError::BadDateField),
        }
    }
}

/// Reads the capture date out of an NAIP file name.
pub fn naip_capture_date(name: &str) -> (r: Result<(i32, u32, u32), LoadError>)
    ensures
        match naip_date_spec(name@) {
            Ok((y, m, d)) => r is Ok && r->Ok_0.0 == y && r->Ok_0.1 == m && r->Ok_0.2 == d,
            Err(e) => r == Err::<(i32, u32, u32), LoadError>(e),
        },
{
    if !name.is_ascii() {
        return Err(LoadError::BadFileName);
    }
    let n = name.unicode_len();
    if n < 12 {
        return Err(LoadError::BadFileName);
    }
    let date = name.substring_ascii(n - 12, n - 4);
    proof {
        assert(date@ == date_chars(name@));
    }
    let ys = date.substring_ascii(0, 4);
    let ms = date.substring_ascii(4, 6);
    let ds = date.substring_ascii(6, 8);
    let ghost s = date_chars(name@);
    assert(ys@ == s.subrange(0, 4) && ms@ == s.subrange(4, 6) && ds@ == s.subrange(6, 8));
    let year = parse_i32(ys);
    let month = parse_u32(ms);
    let day = parse_u32(ds);
    match (year, month, day) {
        (Some(y), Some(m), Some(d)) => Ok((y, m, d)),
        _ => {
            proof {
                lemma_short_literal_bounds(s.subrange(0, 4));
                lemma_short_literal_bounds(s.subrange(4, 6));
                lemma_short_literal_bounds(s.subrange(6, 8));
            }
            Err(LoadError::BadDateField)
        },
    }
}

proof fn lemma_digits_bound(s: Seq<char>)
    requires
        forall|i: int| 0 <= i < s.len() ==> crate::number::is_digit(#[trigger] s[i]),
    ensures
        crate::number::digits_value(s) < pow10(s.len()),
    decreases s.len(),
{
    if s.len() > 0 {
        lemma_digits_bound(s.drop_last());
        assert(crate::number::is_digit(s[s.len() - 1]));
    }
}

pub open spec fn pow10(n: nat) -> int
    decreases n,
{
    if n == 0 {
        1
    } else {
        10 * pow10((n - 1) as nat)
    }
}

/// A literal of at most four characters is well inside 32 bits.
proof fn lemma_short_literal_bounds(s: Seq<char>)
    requires
        s.len() <= 4,
    ensures
        unsigned_literal(s) is Some ==> unsigned_literal(s)->0 < 10000,
        signed_literal(s) is Some ==> -10000 < signed_literal(s)->0 < 10000,
{
    assert(pow10(0) == 1);
    assert(pow10(1) == 10);
    assert(pow10(2) == 100);
    assert(pow10(3) == 1000);
    assert(pow10(4) == 10000);
    if s.len() > 0 {
        let t = s.drop_first();
        if crate::number::all_digits(t) {
            lemma_digits_bound(t);
        }
    }
    if crate::number::all_digits(s) {
        lemma_digits_bound(s);
    }
}

/// The capture timestamp of an NAIP file: midnight UTC of the date in its
/// name, in seconds from the epoch.
pub fn naip_timestamp(name: &str) -> (r: Result<i64, LoadError>)
    ensures
        match naip_date_spec(name@) {
            Ok((y, m, d)) => if valid_date(y, m, d) {
                r == Ok::<i64, LoadError>((86400 * days_from_civil(y, m, d)) as i64)
            } else {
                r == Err::<i64, LoadError>(LoadError::InvalidDate)
            },
            Err(e) => r == Err::<i64, LoadError>(e),
        },
{
    let (y, m, d) = match naip_capture_date(name) {
        Ok(x) => x,
        Err(e) => return Err(e),
    };
    proof {
        let s = date_chars(name@);
        lemma_short_literal_bounds(s.subrange(0, 4));
    }
    match midnight_utc(y, m, d) {
        Some(t) => Ok(t),
        None => Err(LoadError::InvalidDate),
    }
}

/// Whether a pixel coverage, given by the bits of its 64-bit float, equals
/// zero (either sign).
pub open spec fn coverage_is_zero(bits: u64) -> bool {
    bits == 0 || bits == 0x8000_0000_0000_0000u64
}

/// What a load task does with one geocoded tile of a source image.
#[derive(Clone, Debug)]
pub enum TileAction {
    /// No pixel of the tile holds data: it is not sent.
    Skip,
    /// No node could be found for the tile: it is dropped, the others go on.
    Unroutable(RouteError),
    /// The tile goes to this transfer address.
    Send(TransferAddr),
}

/// Decides the fate of a tile from its pixel coverage and the outcome of
/// routing its geocode.
pub fn tile_action(coverage_bits: u64, route: Result<TransferAddr, RouteError>) -> (r: TileAction)
    ensures
        coverage_is_zero(coverage_bits) ==> r is Skip,
        !coverage_is_zero(coverage_bits) ==> match route {
            Ok(a) => r is Send && r->Send_0 == a,
            Err(e) => r == TileAction::Unroutable(e),
        },
{
    if coverage_bits == 0 || coverage_bits == 0x8000_0000_0000_0000u64 {
        return TileAction::Skip;
    }
    match route {
        Ok(a) => TileAction::Send(a),
        Err(e) => TileAction::Unroutable(e),
    }
}

/// The index of the first `=` in `s` at or after `from`, or the length of
/// `s` when there is none.
pub open spec fn first_eq(s: Seq<char>, from: int) -> int
    decreases s.len() - from,
{
    if from >= s.len() || from < 0 {
        s.len() as int
    } else if s[from] == '=' {
        from
    } else {
        first_eq(s, from + 1)
    }
}

/// The text between the first `=` of a metadata line and the next `=` (or
/// the end); `None` when the line holds no `=`.
pub open spec fn second_field(s: Seq<char>) -> Option<Seq<char>> {
    let i = first_eq(s, 0);
    if i >= s.len() {
        None
    } else {
        Some(s.subrange(i + 1, first_eq(s, i + 1)))
    }
}

proof fn lemma_first_eq_bounds(s: Seq<char>, from: int)
    requires
        0 <= from,
    ensures
        from <= first_eq(s, from) <= s.len() || (from > s.len() && first_eq(s, from) == s.len()),
    decreases s.len() - from,
{
    if from < s.len() && s[from] != '=' {
        lemma_first_eq_bounds(s, from + 1);
    }
}

/// The index of the first `=` in `s` at or after `from`, or its length.
fn find_eq(s: &str, from: usize) -> (r: usize)
    requires
        from <= s@.len(),
    ensures
        r == first_eq(s@, from as int),
{
    let n = s.unicode_len();
    let mut i = from;
    while i < n
        invariant
            from <= i <= n,
            n == s@.len(),
            first_eq(s@, from as int) == first_eq(s@, i as int),
        decreases n - i,
    {
        if s.get_char(i) == '=' {
            return i;
        }
        i = i + 1;
    }
    i
}

/// The value of a metadata line `KEY=value`: the text after the first `=`,
/// up to a second `=` if there is one.
pub fn metadata_value(line: &str) -> (r: Option<String>)
    ensures
        match second_field(line@) {
            Some(v) => r is Some && r->0@ == v,
            None => r is None,
        },
{
    let n = line.unicode_len();
    let i = find_eq(line, 0);
    if i >= n {
        return None;
    }
    let j = find_eq(line, i + 1);
    proof {
        lemma_first_eq_bounds(line@, i + 1);
    }
    Some(line.substring_char(i + 1, j).to_owned())
}

/// Whether every line of a whole name/description pair holds a value.
pub open spec fn pairs_complete(lines: Seq<Seq<char>>) -> bool {
    forall|i: int| 0 <= i < 2 * (lines.len() / 2) ==> (#[trigger] second_field(lines[i])) is Some
}

/// Pairs the subdataset metadata lines of a source image: each `_NAME` line
/// with the `_DESC` line after it, keeping the value of each; an odd last
/// line is left out.
pub fn subdataset_pairs(lines: &Vec<String>) -> (r: Result<Vec<(String, String)>, LoadError>)
    ensures
        pairs_complete(lines@.map_values(|l: String| l@)) <==> r is Ok,
        r is Err ==> r == Err::<Vec<(String, String)>, LoadError>(LoadError::BadMetadata),
        r is Ok ==> r->Ok_0@.len() == lines@.len() / 2,
        r is Ok ==> forall|k: int|
            0 <= k < r->Ok_0@.len() ==> (#[trigger] r->Ok_0@[k]).0@ == second_field(
                lines@[2 * k]@,
            )->0 && r->Ok_0@[k].1@ == second_field(lines@[2 * k + 1]@)->0,
{
    let ghost views = lines@.map_values(|l: String| l@);
    let mut out: Vec<(String, String)> = Vec::new();
    let mut count: usize = 0;
    while count + 1 < lines.len()
        invariant
            count % 2 == 0,
            count <= lines@.len(),
            out@.len() == count / 2,
            views == lines@.map_values(|l: String| l@),
            forall|i: int| 0 <= i < count ==> (#[trigger] second_field(views[i])) is Some,
            forall|k: int|
                0 <= k < out@.len() ==> (#[trigger] out@[k]).0@ == second_field(
                    lines@[2 * k]@,
                )->0 && out@[k].1@ == second_field(lines@[2 * k + 1]@)->0,
        decreases lines@.len() - count,
    {
        let name = match metadata_value(lines[count].as_str()) {
            Some(v) => v,
            None => {
                proof {
                    assert(second_field(views[count as int]) is None);
                    assert(count < 2 * (lines@.len() / 2));
                }
                return Err(LoadError::BadMetadata);
            },
        };
        let desc = match metadata_value(lines[count + 1].as_str()) {
            Some(v) => v,
            None => {
                proof {
                    assert(second_field(views[count + 1]) is None);
                    assert(count + 1 < 2 * (lines@.len() / 2));
                }
                return Err(LoadError::BadMetadata);
            },
        };
        out.push((name, desc));
        count = count + 2;
    }
    proof {
        let n = lines@.len() as int;
        assert(count == 2 * (n / 2));
        assert((2 * (n / 2)) / 2 == n / 2) by (nonlinear_arith);
        assert(out@.len() == n / 2);
    }
    let r: Result<Vec<(String, String)>, LoadError> = Ok(out);
    r
}

} // verus!
