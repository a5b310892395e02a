use vstd::prelude::*;
use vstd::string::*;

use chrono::Datelike;
use chrono::Timelike;

use crate::errors::TeartError;
use crate::strutil::spec_digit_val;
use crate::strutil::spec_is_digit;
use crate::strutil::spec_padded;
use crate::strutil::padded_decimal;

verus! {

/// A calendar timestamp at minute resolution, the unit of the wire format's
/// `begin`/`end` fields.
#[derive(Clone, Copy, Debug, PartialEq, Eq, Structural)]
pub struct Timestamp {
    pub year: u16,
    pub month: u8,
    pub day: u8,
    pub hour: u8,
    pub minute: u8,
}

/// Gregorian leap-year rule.
pub open spec fn spec_is_leap_year(y: int) -> bool {
    (y % 4 == 0 && y % 100 != 0) || y % 400 == 0
}

/// Days in a month of the proleptic Gregorian calendar.  Meaningful for
/// `1 <= m <= 12`.
pub open spec fn spec_days_in_month(y: int, m: int) -> int {
    if m == 2 {
        if spec_is_leap_year(y) {
            29
        } else {
            28
        }
    } else if m == 4 || m == 6 || m == 9 || m == 11 {
        30
    } else {
        31
    }
}

impl Timestamp {
    /// The timestamp names an actual calendar datetime.
    pub open spec fn valid(self) -> bool {
        &&& 1 <= self.month <= 12
        &&& 1 <= self.day <= spec_days_in_month(self.year as int, self.month as int)
        &&& self.hour < 24
        &&& self.minute < 60
    }

    /// Valid, and the year fits the fixed four-digit field of the wire
    /// format.
    pub open spec fn formattable(self) -> bool {
        self.valid() && self.year <= 9999
    }

    /// Runtime check for `valid`.
    pub fn is_valid(&self) -> (r: bool)
        ensures
            r == self.valid(),
    {
        if self.month < 1 || self.month > 12 {
            return false;
        }
        let dim = days_in_month(self.year, self.month);
        self.day >= 1 && self.day <= dim && self.hour < 24 && self.minute < 60
    }
}

/// Runtime counterpart of `spec_is_leap_year`.
pub fn is_leap_year(y: u16) -> (r: bool)
    ensures
        r == spec_is_leap_year(y as int),
{
    (y % 4 == 0 && y % 100 != 0) || y % 400 == 0
}

/// Runtime counterpart of `spec_days_in_month`.
pub fn days_in_month(y: u16, m: u8) -> (r: u8)
    requires
        1 <= m <= 12,
    ensures
        r == spec_days_in_month(y as int, m as int),
{
    if m == 2 {
        if is_leap_year(y) {
            29
        } else {
            28
        }
    } else if m == 4 || m == 6 || m == 9 || m == 11 {
        30
    } else {
        31
    }
}

/// The wire format's timestamp text: `YYYYMMDDThhmm00`, minute resolution,
/// seconds always zero.
pub open spec fn spec_format_timestamp(t: Timestamp) -> Seq<char> {
    spec_padded(t.year as nat, 4) + spec_padded(t.month as nat, 2) + spec_padded(t.day as nat, 2)
        + "T"@ + spec_padded(t.hour as nat, 2) + spec_padded(t.minute as nat, 2) + "00"@
}

/// Renders a timestamp as `YYYYMMDDThhmm00`.  Fields wider than their fixed
/// slot are truncated to their low digits, so callers that need a faithful
/// rendering check `formattable` first.
pub fn format_timestamp(t: &Timestamp) -> (r: String)
    ensures
        r@ == spec_format_timestamp(*t),
{
    let mut s = padded_decimal(t.year as u32, 4);
    s.append(padded_decimal(t.month as u32, 2).as_str());
    s.append(padded_decimal(t.day as u32, 2).as_str());
    s.append("T");
    s.append(padded_decimal(t.hour as u32, 2).as_str());
    s.append(padded_decimal(t.minute as u32, 2).as_str());
    s.append("00");
    proof {
        assert(s@ =~= spec_format_timestamp(*t));
    }
    s
}

/// The character positions of `YYYYMMDDThhmm00`: digits everywhere except
/// the literal `T`, and a fixed `00` seconds field.
pub open spec fn spec_timestamp_shape_ok(s: Seq<char>) -> bool {
    &&& s.len() == 15
    &&& forall|i: int| 0 <= i < 15 && i != 8 ==> spec_is_digit(#[trigger] s[i])
    &&& s[8] == 'T'
    &&& s[13] == '0'
    &&& s[14] == '0'
}

/// The timestamp spelled by a well-shaped `YYYYMMDDThhmm00` text.
pub open spec fn spec_timestamp_of_text(s: Seq<char>) -> Timestamp {
    Timestamp {
        year: (spec_digit_val(s[0]) * 1000 + spec_digit_val(s[1]) * 100 + spec_digit_val(s[2])
            * 10 + spec_digit_val(s[3])) as u16,
        month: (spec_digit_val(s[4]) * 10 + spec_digit_val(s[5])) as u8,
        day: (spec_digit_val(s[6]) * 10 + spec_digit_val(s[7])) as u8,
        hour: (spec_digit_val(s[9]) * 10 + spec_digit_val(s[10])) as u8,
        minute: (spec_digit_val(s[11]) * 10 + spec_digit_val(s[12])) as u8,
    }
}

/// A text parses iff it is well shaped and spells an actual calendar
/// datetime.
pub open spec fn spec_parse_ok(s: Seq<char>) -> bool {
    spec_timestamp_shape_ok(s) && spec_timestamp_of_text(s).valid()
}

/// Runtime counterpart of `spec_is_digit` / `spec_digit_val`.
fn digit_val(c: char) -> (r: Option<u32>)
    ensures
        match r {
            Some(v) => spec_is_digit(c) && v == spec_digit_val(c) && v <= 9,
            None => !spec_is_digit(c),
        },
{
    match c {
        '0' => Some(0),
        '1' => Some(1),
        '2' => Some(2),
        '3' => Some(3),
        '4' => Some(4),
        '5' => Some(5),
        '6' => Some(6),
        '7' => Some(7),
        '8' => Some(8),
        '9' => Some(9),
        _ => None,
    }
}

/// Parses the configured start datetime, `YYYYMMDDThhmm00`.  Rejects any
/// text that is not exactly that shape or does not name an actual calendar
/// datetime.
pub fn parse_timestamp(s: &str) -> (r: Result<Timestamp, TeartError>)
    ensures
        match r {
            Ok(t) => spec_parse_ok(s@) && t == spec_timestamp_of_text(s@) && t.formattable(),
            Err(e) => !spec_parse_ok(s@) && e == TeartError::FormatError,
        },
{
    if s.unicode_len() != 15 {
        return Err(TeartError::FormatError);
    }
    let mut digits: [u32; 15] = [0; 15];
    let mut i: usize = 0;
    while i < 15
        invariant
            i <= 15,
            s@.len() == 15,
            forall|j: int| 0 <= j < i && j != 8 ==> spec_is_digit(s@[j]),
            forall|j: int| 0 <= j < i && j != 8 ==> digits@[j] == spec_digit_val(s@[j]),
        decreases 15 - i,
    {
        if i != 8 {
            match digit_val(s.get_char(i)) {
                Some(v) => {
                    digits[i] = v;
                },
                None => {
                    return Err(TeartError::FormatError);
                },
            }
        }
        i = i + 1;
    }
    if s.get_char(8) != 'T' {
        return Err(TeartError::FormatError);
    }
    if s.get_char(13) != '0' || s.get_char(14) != '0' {
        return Err(TeartError::FormatError);
    }
    let year: u32 = digits[0] * 1000 + digits[1] * 100 + digits[2] * 10 + digits[3];
    let month: u32 = digits[4] * 10 + digits[5];
    let day: u32 = digits[6] * 10 + digits[7];
    let hour: u32 = digits[9] * 10 + digits[10];
    let minute: u32 = digits[11] * 10 + digits[12];
    let t = Timestamp {
        year: year as u16,
        month: month as u8,
        day: day as u8,
        hour: hour as u8,
        minute: minute as u8,
    };
    proof {
        assert(spec_timestamp_shape_ok(s@));
        assert(t == spec_timestamp_of_text(s@));
    }
    if t.is_valid() {
        Ok(t)
    } else {
        Err(TeartError::FormatError)
    }
}

/// The calendar datetime `minutes` minutes after `t`, carrying across days,
/// months and years.  Left without a body of its own: the library reads the
/// value off the calendar arithmetic of an outside crate, and no caller
/// depends on more than it being a function of `t` and `minutes`.
pub uninterp spec fn spec_add_minutes(t: Timestamp, minutes: int) -> Timestamp;

/// Relies on chrono's `NaiveDate::from_ymd_opt`, `NaiveDate::and_hms_opt`
/// and `NaiveDateTime::checked_add_signed` for calendar arithmetic: the sum
/// of a valid datetime and a duration in minutes, a function of the two
/// arguments alone.  With a year at most 9999 and at most `u32::MAX` minutes
/// the result stays far below chrono's documented upper bound (year 262142),
/// so the addition cannot fail.
#[verifier::external_body]
pub fn add_minutes(t: &Timestamp, minutes: u32) -> (r: Timestamp)
    requires
        t.valid(),
        t.year <= 9999,
    ensures
        r == spec_add_minutes(*t, minutes as int),
{
    let d = chrono::NaiveDate::from_ymd_opt(t.year as i32, t.month as u32, t.day as u32)
        .unwrap()
        .and_hms_opt(t.hour as u32, t.minute as u32, 0)
        .unwrap()
        .checked_add_signed(chrono::Duration::minutes(minutes as i64))
        .unwrap();
    Timestamp {
        year: d.year() as u16,
        month: d.month() as u8,
        day: d.day() as u8,
        hour: d.hour() as u8,
        minute: d.minute() as u8,
    }
}

} // verus!
