//! The date folder resolver.
//!
//! Snapshot directories are named by calendar date, fixed-width, as
//! `YYYY-MM-DD`. [`SnapshotBaseFolder`] turns a destination root and a
//! calendar date into the path of a dated snapshot directory: today's, to
//! be created, and yesterday's, to be probed for. Today's date itself comes
//! from the caller, who reads the local clock; everything from there on —
//! calendar arithmetic and formatting — is computed and verified here.

use vstd::prelude::*;

use crate::errors::SnapError;

verus! {

/// A calendar date. The supported years are those the fixed-width
/// four-digit directory naming can carry.
#[derive(Clone, Copy, Debug, PartialEq, Eq, Structural)]
pub struct SnapDate {
    pub year: u32,
    pub month: u32,
    pub day: u32,
}

/// The proleptic Gregorian leap year rule.
pub open spec fn is_leap_year(y: int) -> bool {
    y % 4 == 0 && (y % 100 != 0 || y % 400 == 0)
}

/// How many days the given month of the given year has.
pub open spec fn days_in_month_spec(y: int, m: int) -> int {
    if m == 2 {
        if is_leap_year(y) {
            29
        } else {
            28
        }
    } else if m == 4 || m == 6 || m == 9 || m == 11 {
        30
    } else {
        31
    }
}

/// A date this resolver can work with: a real calendar date within the
/// four-digit year range.
pub open spec fn date_valid(d: SnapDate) -> bool {
    &&& d.year <= 9999
    &&& 1 <= d.month <= 12
    &&& 1 <= d.day <= days_in_month_spec(d.year as int, d.month as int)
}

/// The calendar date immediately preceding `d`, or nothing when `d` is the
/// first supported date, the calendar underflow case.
pub open spec fn prev_date_spec(d: SnapDate) -> Option<SnapDate> {
    if d.day > 1 {
        Option::Some(SnapDate { year: d.year, month: d.month, day: (d.day - 1) as u32 })
    } else if d.month > 1 {
        Option::Some(
            SnapDate {
                year: d.year,
                month: (d.month - 1) as u32,
                day: days_in_month_spec(d.year as int, d.month - 1) as u32,
            },
        )
    } else if d.year > 0 {
        Option::Some(SnapDate { year: (d.year - 1) as u32, month: 12, day: 31 })
    } else {
        Option::None
    }
}

/// The ten decimal digit characters, in value order.
pub open spec fn dec_digits() -> Seq<char> {
    "0123456789"@
}

/// The fixed-width rendering of a date: four year digits, two month
/// digits, two day digits, dash-separated.
pub open spec fn date_string(d: SnapDate) -> Seq<char> {
    seq![
        dec_digits()[d.year as int / 1000 % 10],
        dec_digits()[d.year as int / 100 % 10],
        dec_digits()[d.year as int / 10 % 10],
        dec_digits()[d.year as int % 10],
        '-',
        dec_digits()[d.month as int / 10],
        dec_digits()[d.month as int % 10],
        '-',
        dec_digits()[d.day as int / 10],
        dec_digits()[d.day as int % 10],
    ]
}

/// `name` appended to `base` as a path component.
pub open spec fn path_join_spec(base: Seq<char>, name: Seq<char>) -> Seq<char> {
    if base.len() > 0 && base.last() == '/' {
        base + name
    } else {
        base + seq!['/'] + name
    }
}

impl SnapDate {
    /// A date from its parts, validated: a date is returned exactly for
    /// real calendar dates within the supported year range.
    pub fn new(year: u32, month: u32, day: u32) -> (r: Option<SnapDate>)
        ensures
            match r {
                Option::Some(d) => d == (SnapDate { year, month, day }) && date_valid(d),
                Option::None => !date_valid(SnapDate { year, month, day }),
            },
    {
        let d = SnapDate { year, month, day };
        if year <= 9999 && 1 <= month && month <= 12 && 1 <= day && day <= days_in_month(
            year,
            month,
        ) {
            Option::Some(d)
        } else {
            Option::None
        }
    }
}

/// How many days the given month has.
pub fn days_in_month(year: u32, month: u32) -> (r: u32)
    requires
        1 <= month <= 12,
    ensures
        r == days_in_month_spec(year as int, month as int),
{
    if month == 2 {
        if year % 4 == 0 && (year % 100 != 0 || year % 400 == 0) {
            29
        } else {
            28
        }
    } else if month == 4 || month == 6 || month == 9 || month == 11 {
        30
    } else {
        31
    }
}

/// The calendar date immediately preceding `d`.
pub fn previous_day(d: &SnapDate) -> (r: Option<SnapDate>)
    requires
        date_valid(*d),
    ensures
        r == prev_date_spec(*d),
        r matches Option::Some(p) ==> date_valid(p),
{
    if d.day > 1 {
        Option::Some(SnapDate { year: d.year, month: d.month, day: d.day - 1 })
    } else if d.month > 1 {
        Option::Some(
            SnapDate {
                year: d.year,
                month: d.month - 1,
                day: days_in_month(d.year, d.month - 1),
            },
        )
    } else if d.year > 0 {
        Option::Some(SnapDate { year: d.year - 1, month: 12, day: 31 })
    } else {
        Option::None
    }
}

/// Renders a date in its fixed-width form.
pub fn format_date(d: &SnapDate) -> (r: String)
    requires
        date_valid(*d),
    ensures
        r@ == date_string(*d),
{
    let table: &str = "0123456789";
    proof {
        reveal_strlit("0123456789");
        assert(table@.len() == 10);
        reveal_strlit("-");
        assert("-"@ =~= seq!['-']);
    }
    let mut r = String::new();
    let y1 = (d.year / 1000 % 10) as usize;
    let y2 = (d.year / 100 % 10) as usize;
    let y3 = (d.year / 10 % 10) as usize;
    let y4 = (d.year % 10) as usize;
    let m1 = (d.month / 10) as usize;
    let m2 = (d.month % 10) as usize;
    let d1 = (d.day / 10) as usize;
    let d2 = (d.day % 10) as usize;
    r.append(table.substring_char(y1, y1 + 1));
    r.append(table.substring_char(y2, y2 + 1));
    r.append(table.substring_char(y3, y3 + 1));
    r.append(table.substring_char(y4, y4 + 1));
    r.append("-");
    r.append(table.substring_char(m1, m1 + 1));
    r.append(table.substring_char(m2, m2 + 1));
    r.append("-");
    r.append(table.substring_char(d1, d1 + 1));
    r.append(table.substring_char(d2, d2 + 1));
    proof {
        assert(r@ =~= date_string(*d));
    }
    r
}

/// `name` appended to `base` as a path component.
pub fn join_path(base: &str, name: &str) -> (r: String)
    ensures
        r@ == path_join_spec(base@, name@),
{
    proof {
        reveal_strlit("/");
        assert("/"@ =~= seq!['/']);
    }
    let n = base.unicode_len();
    let mut r = String::new();
    r.append(base);
    if n == 0 || base.get_char(n - 1) != '/' {
        r.append("/");
    }
    r.append(name);
    proof {
        assert(r@ =~= path_join_spec(base@, name@));
    }
    r
}

/// The date folder resolver: computes the dated directory paths directly
/// under a destination root.
pub struct SnapshotBaseFolder;

impl Default for SnapshotBaseFolder {
    fn default() -> (r: Self)
        ensures
            r == (SnapshotBaseFolder {  }),
    {
        SnapshotBaseFolder {}
    }
}

impl SnapshotBaseFolder {
    /// The path of today's snapshot directory under `base_path`. The caller
    /// creates the directory and reports `AlreadyExists` or an I/O failure
    /// if it cannot be created empty.
    pub fn create_today(&self, base_path: &str, today: &SnapDate) -> (r: String)
        requires
            date_valid(*today),
        ensures
            r@ == path_join_spec(base_path@, date_string(*today)),
    {
        let name = format_date(today);
        join_path(base_path, name.as_str())
    }

    /// The path where yesterday's snapshot directory would stand under
    /// `base_path`, from today's date. Fails with `DateComputationError`
    /// exactly when the preceding calendar date cannot be computed; whether
    /// the directory actually exists is for the caller to probe.
    pub fn get_yesterday(&self, base_path: &str, today: &SnapDate) -> (r: Result<
        String,
        SnapError,
    >)
        requires
            date_valid(*today),
        ensures
            match prev_date_spec(*today) {
                Option::Some(y) => r matches Result::Ok(p) && p@ == path_join_spec(
                    base_path@,
                    date_string(y),
                ),
                Option::None => r == Result::<String, SnapError>::Err(
                    SnapError::DateComputationError,
                ),
            },
    {
        match previous_day(today) {
            Option::Some(y) => {
                let name = format_date(&y);
                Result::Ok(join_path(base_path, name.as_str()))
            },
            Option::None => Result::Err(SnapError::DateComputationError),
        }
    }
}

} // verus!
