use vstd::prelude::*;

use crate::text::{
    chars_of, field_contains, lowercase, occurs_in, parse_i32, parse_i32_spec, parse_u32,
    parse_u32_spec, split_at_char, split_on, split_words, to_lowercase, words,
};

verus! {

/// Zoom presets of the map view.
#[derive(Debug, Clone, Copy, PartialEq, Eq, Structural)]
pub enum ZoomLevel {
    Regional,
    X2,
    X4,
}

/// Colour contrast presets of the map view.
#[derive(Debug, Clone, Copy, PartialEq, Eq, Structural)]
pub enum MapContrastMode {
    Normal,
    High,
    TransparentSafe,
}

impl MapContrastMode {
    /// The mode that follows `self` in the cycle normal, high, transparent-safe.
    pub open spec fn spec_next(self) -> MapContrastMode {
        match self {
            MapContrastMode::Normal => MapContrastMode::High,
            MapContrastMode::High => MapContrastMode::TransparentSafe,
            MapContrastMode::TransparentSafe => MapContrastMode::Normal,
        }
    }

    pub fn next(self) -> (r: Self)
        ensures
            r == self.spec_next(),
    {
        match self {
            Self::Normal => Self::High,
            Self::High => Self::TransparentSafe,
            Self::TransparentSafe => Self::Normal,
        }
    }

    pub fn label(self) -> (r: &'static str)
        ensures
            self == MapContrastMode::Normal ==> r@ == "normal"@,
            self == MapContrastMode::High ==> r@ == "high"@,
            self == MapContrastMode::TransparentSafe ==> r@ == "transparent-safe"@,
    {
        match self {
            Self::Normal => "normal",
            Self::High => "high",
            Self::TransparentSafe => "transparent-safe",
        }
    }
}


impl ZoomLevel {
    /// The next deeper zoom preset; the deepest preset stays where it is.
    pub open spec fn spec_next(self) -> ZoomLevel {
        match self {
            ZoomLevel::Regional => ZoomLevel::X2,
            ZoomLevel::X2 => ZoomLevel::X4,
            ZoomLevel::X4 => ZoomLevel::X4,
        }
    }

    /// The next shallower zoom preset; the regional preset stays where it is.
    pub open spec fn spec_prev(self) -> ZoomLevel {
        match self {
            ZoomLevel::Regional => ZoomLevel::Regional,
            ZoomLevel::X2 => ZoomLevel::Regional,
            ZoomLevel::X4 => ZoomLevel::X2,
        }
    }

    /// How many times the zoom preset magnifies the region: 1, 2 or 4.
    pub open spec fn magnification(self) -> nat {
        match self {
            ZoomLevel::Regional => 1,
            ZoomLevel::X2 => 2,
            ZoomLevel::X4 => 4,
        }
    }

    pub fn next(self) -> (r: Self)
        ensures
            r == self.spec_next(),
    {
        match self {
            Self::Regional => Self::X2,
            Self::X2 => Self::X4,
            Self::X4 => Self::X4,
        }
    }

    pub fn prev(self) -> (r: Self)
        ensures
            r == self.spec_prev(),
    {
        match self {
            Self::Regional => Self::Regional,
            Self::X2 => Self::Regional,
            Self::X4 => Self::X2,
        }
    }

    pub fn label(self) -> (r: &'static str)
        ensures
            self == ZoomLevel::Regional ==> r@ == "regional"@,
            self == ZoomLevel::X2 ==> r@ == "2x"@,
            self == ZoomLevel::X4 ==> r@ == "4x"@,
    {
        match self {
            Self::Regional => "regional",
            Self::X2 => "2x",
            Self::X4 => "4x",
        }
    }
}

/// Severity of an incident, from least to most severe.
#[derive(Debug, Clone, Copy, PartialEq, Eq, Structural)]
pub enum Severity {
    Low,
    Medium,
    High,
    Critical,
}

impl Severity {
    /// Position of the severity in the order low, medium, high, critical.
    pub open spec fn spec_index(self) -> nat {
        match self {
            Severity::Low => 0,
            Severity::Medium => 1,
            Severity::High => 2,
            Severity::Critical => 3,
        }
    }

    /// The name of the severity in status messages.
    pub open spec fn spec_label(self) -> Seq<char> {
        match self {
            Severity::Low => "low"@,
            Severity::Medium => "medium"@,
            Severity::High => "high"@,
            Severity::Critical => "critical"@,
        }
    }

    pub fn label(self) -> (r: &'static str)
        ensures
            r@ == self.spec_label(),
    {
        match self {
            Self::Low => "low",
            Self::Medium => "medium",
            Self::High => "high",
            Self::Critical => "critical",
        }
    }

    pub fn symbol(self) -> (r: char)
        ensures
            self == Severity::Low ==> r == '·',
            self == Severity::Medium ==> r == '!',
            self == Severity::High ==> r == '▲',
            self == Severity::Critical ==> r == '◆',
    {
        match self {
            Self::Low => '·',
            Self::Medium => '!',
            Self::High => '▲',
            Self::Critical => '◆',
        }
    }

    pub fn index(self) -> (r: usize)
        ensures
            r == self.spec_index(),
            r < 4,
    {
        match self {
            Self::Low => 0,
            Self::Medium => 1,
            Self::High => 2,
            Self::Critical => 3,
        }
    }
}

/// Whether a vessel (or an aircraft) is moving or at rest.
#[derive(Debug, Clone, Copy, PartialEq, Eq, Structural)]
pub enum ShipStatus {
    Underway,
    Anchored,
}

impl ShipStatus {
    pub fn symbol(self) -> (r: char)
        ensures
            self == ShipStatus::Underway ==> r == '⛴',
            self == ShipStatus::Anchored ==> r == '◇',
    {
        match self {
            Self::Underway => '⛴',
            Self::Anchored => '◇',
        }
    }
}

/// Map projection of a region preset.
#[derive(Debug, Clone, Copy, PartialEq, Eq, Structural)]
pub enum ProjectionKind {
    Equirectangular,
    Mercator,
    NorthPolar,
}

/// What a feed object stands for.
#[derive(Debug, Clone, Copy, PartialEq, Eq, Structural)]
pub enum ObjectKind {
    Incident,
    Ship,
    Aircraft,
}

/// Three steps of `next` bring every contrast mode back to itself.
pub proof fn contrast_cycle_has_period_three(m: MapContrastMode)
    ensures
        m.spec_next().spec_next().spec_next() == m,
        m.spec_next() != m,
{
}

/// Zooming in and then out again returns to the starting preset, except at
/// the deepest preset, where zooming in has no effect; zooming out and then
/// in again returns to the start except at the regional preset.
pub proof fn zoom_in_then_out(z: ZoomLevel)
    ensures
        z != ZoomLevel::X4 ==> z.spec_next().spec_prev() == z,
        z != ZoomLevel::Regional ==> z.spec_prev().spec_next() == z,
        z.spec_next().magnification() >= z.magnification(),
        z.spec_prev().magnification() <= z.magnification(),
        ZoomLevel::X4.spec_next() == ZoomLevel::X4,
        ZoomLevel::Regional.spec_prev() == ZoomLevel::Regional,
{
}

/// Distinct severities have distinct switch indices, each below four.
pub proof fn severity_index_is_injective(a: Severity, b: Severity)
    ensures
        a.spec_index() == b.spec_index() ==> a == b,
        a.spec_index() < 4,
{
}


/// Quotient of `a` by a positive `b` rounded toward zero, as Rust's integer
/// division computes it.
pub open spec fn trunc_div(a: int, b: int) -> int {
    if a >= 0 {
        a / b
    } else {
        -((-a) / b)
    }
}

/// Whether `year` is a leap year of the Gregorian calendar.
pub open spec fn is_leap(year: int) -> bool {
    (year % 4 == 0 && year % 100 != 0) || year % 400 == 0
}

/// Days of the year that come before the first day of `month` (1 to 12) in
/// a common year.
pub open spec fn month_offset(month: int) -> int {
    if month <= 1 {
        0
    } else if month == 2 {
        31
    } else if month == 3 {
        59
    } else if month == 4 {
        90
    } else if month == 5 {
        120
    } else if month == 6 {
        151
    } else if month == 7 {
        181
    } else if month == 8 {
        212
    } else if month == 9 {
        243
    } else if month == 10 {
        273
    } else if month == 11 {
        304
    } else {
        334
    }
}

/// The value of `day as i32` for a `u32` day.
pub open spec fn day_as_i32(day: u32) -> int {
    if day <= i32::MAX {
        day as int
    } else {
        day - 0x1_0000_0000
    }
}

/// Days from 0001-01-01 to the first day of `year` (proleptic Gregorian),
/// with Rust's rounding toward zero for the year before year 1.
pub open spec fn days_before_year(year: int) -> int {
    let y = year - 1;
    y * 365 + trunc_div(y, 4) - trunc_div(y, 100) + trunc_div(y, 400)
}

/// The day number of `year-month-day` counted from 1970-01-01.
pub open spec fn days_from_civil(year: int, month: int, day: int) -> int {
    days_before_year(year) + month_offset(month) + day - 1 + (if month > 2 && is_leap(year) {
        1int
    } else {
        0
    }) - 719162
}

/// Whether `x` fits in an `i32`.
pub open spec fn fits_i32(x: int) -> bool {
    i32::MIN <= x <= i32::MAX
}

/// Whether the day count of `year-month-day` can be computed: the month is
/// 1 to 12 (the month table is indexed by it) and every intermediate sum of
/// the computation, done in `i32`, stays in range.
pub open spec fn days_computable(year: i32, month: u32, day: u32) -> bool {
    let y = year - 1;
    let d = day_as_i32(day);
    let p2 = y * 365;
    let p3 = p2 + trunc_div(y, 4);
    let p4 = p3 - trunc_div(y, 100);
    let p5 = p4 + trunc_div(y, 400);
    let q1 = month_offset(month as int) + d;
    let q2 = q1 - 1;
    let p6 = p5 + q2;
    let p7 = p6 + (if month > 2 && is_leap(year as int) {
        1int
    } else {
        0
    });
    &&& 1 <= month <= 12
    &&& fits_i32(y)
    &&& fits_i32(p2)
    &&& fits_i32(p3)
    &&& fits_i32(p4)
    &&& fits_i32(p5)
    &&& fits_i32(q1)
    &&& fits_i32(q2)
    &&& fits_i32(p6)
    &&& fits_i32(p7)
    &&& fits_i32(p7 - 719162)
}

/// Seconds since 1970-01-01 00:00:00 of the given date and time of day.
pub open spec fn civil_seconds(
    year: i32,
    month: u32,
    day: u32,
    hour: u32,
    minute: u32,
    second: u32,
) -> int {
    days_from_civil(year as int, month as int, day_as_i32(day)) * 86400 + hour * 3600 + minute
        * 60 + second
}

/// The six numeric fields of a "YYYY-MM-DD hh:mm:ss" text: exactly two
/// white-space separated words, the first made of three '-'-separated
/// numbers, the second of three ':'-separated numbers; the year parses as an
/// `i32`, the other fields as `u32`.
pub open spec fn timestamp_fields(s: Seq<char>) -> Option<(i32, u32, u32, u32, u32, u32)> {
    let parts = words(s);
    if parts.len() != 2 {
        None
    } else {
        let d = split_on(parts[0], '-');
        let t = split_on(parts[1], ':');
        if d.len() != 3 || t.len() != 3 {
            None
        } else {
            let year = parse_i32_spec(d[0]);
            let month = parse_u32_spec(d[1]);
            let day = parse_u32_spec(d[2]);
            let hour = parse_u32_spec(t[0]);
            let minute = parse_u32_spec(t[1]);
            let second = parse_u32_spec(t[2]);
            if year is Some && month is Some && day is Some && hour is Some && minute is Some
                && second is Some {
                Some(
                    (
                        year->0,
                        month->0,
                        day->0,
                        hour->0,
                        minute->0,
                        second->0,
                    ),
                )
            } else {
                None
            }
        }
    }
}

/// Whether `parse_timestamp` can run on `s` without a failing index or an
/// overflow: either the text is not a timestamp, or its date is computable.
pub open spec fn timestamp_computable(s: Seq<char>) -> bool {
    match timestamp_fields(s) {
        None => true,
        Some(f) => days_computable(f.0, f.1, f.2),
    }
}

/// The Unix time that a "YYYY-MM-DD hh:mm:ss" text denotes, if it is one.
pub open spec fn timestamp_value(s: Seq<char>) -> Option<i64> {
    match timestamp_fields(s) {
        None => None,
        Some(f) => Some(civil_seconds(f.0, f.1, f.2, f.3, f.4, f.5) as i64),
    }
}

/// The six numeric fields of a timestamp text, if it is one.
fn timestamp_fields_of(datetime: &str) -> (r: Option<(i32, u32, u32, u32, u32, u32)>)
    ensures
        r == timestamp_fields(datetime@),
{
    let chars = chars_of(datetime);
    let parts = split_words(chars.as_slice());
    if parts.len() != 2 {
        return None;
    }
    assert(parts@[0]@ == words(datetime@)[0]);
    assert(parts@[1]@ == words(datetime@)[1]);
    let date_parts = split_at_char(parts[0].as_slice(), '-');
    let time_parts = split_at_char(parts[1].as_slice(), ':');
    if date_parts.len() != 3 || time_parts.len() != 3 {
        return None;
    }
    assert(date_parts@[0]@ == split_on(parts@[0]@, '-')[0]);
    assert(date_parts@[1]@ == split_on(parts@[0]@, '-')[1]);
    assert(date_parts@[2]@ == split_on(parts@[0]@, '-')[2]);
    assert(time_parts@[0]@ == split_on(parts@[1]@, ':')[0]);
    assert(time_parts@[1]@ == split_on(parts@[1]@, ':')[1]);
    assert(time_parts@[2]@ == split_on(parts@[1]@, ':')[2]);
    let year = match parse_i32(date_parts[0].as_slice()) {
        Some(v) => v,
        None => return None,
    };
    let month = match parse_u32(date_parts[1].as_slice()) {
        Some(v) => v,
        None => return None,
    };
    let day = match parse_u32(date_parts[2].as_slice()) {
        Some(v) => v,
        None => return None,
    };
    let hour = match parse_u32(time_parts[0].as_slice()) {
        Some(v) => v,
        None => return None,
    };
    let minute = match parse_u32(time_parts[1].as_slice()) {
        Some(v) => v,
        None => return None,
    };
    let second = match parse_u32(time_parts[2].as_slice()) {
        Some(v) => v,
        None => return None,
    };
    Some((year, month, day, hour, minute, second))
}

/// Parse datetime string "2026-03-16 22:05:36" into Unix timestamp
pub fn parse_timestamp(datetime: &str) -> (r: Option<i64>)
    requires
        timestamp_computable(datetime@),
    ensures
        r == timestamp_value(datetime@),
{
    match timestamp_fields_of(datetime) {
        Some((year, month, day, hour, minute, second)) => Some(
            datetime_to_seconds(year, month, day, hour, minute, second),
        ),
        None => None,
    }
}

/// Whether `parse_timestamp` may be applied to `datetime`: the text is not a
/// timestamp, or its date has a month from 1 to 12 and a day count that the
/// computation can hold.
pub fn timestamp_is_computable(datetime: &str) -> (r: bool)
    ensures
        r == timestamp_computable(datetime@),
{
    match timestamp_fields_of(datetime) {
        Some((year, month, day, _, _, _)) => days_are_computable(year, month, day),
        None => true,
    }
}

fn in_i32(x: i64) -> (r: bool)
    ensures
        r == fits_i32(x as int),
{
    -0x8000_0000 <= x && x <= 0x7fff_ffff
}

fn days_are_computable(year: i32, month: u32, day: u32) -> (r: bool)
    ensures
        r == days_computable(year, month, day),
{
    if month < 1 || month > 12 {
        return false;
    }
    let y: i64 = year as i64 - 1;
    if !in_i32(y) {
        return false;
    }
    let d: i64 = if day <= 0x7fff_ffff {
        day as i64
    } else {
        day as i64 - 0x1_0000_0000
    };
    let q4 = y / 4;
    let q100 = y / 100;
    let q400 = y / 400;
    assert(q4 == trunc_div(y as int, 4));
    assert(q100 == trunc_div(y as int, 100));
    assert(q400 == trunc_div(y as int, 400));
    let offsets: [i64; 12] = [0, 31, 59, 90, 120, 151, 181, 212, 243, 273, 304, 334];
    assert(offsets@[(month - 1) as int] == month_offset(month as int));
    let p2 = y * 365;
    let p3 = p2 + q4;
    let p4 = p3 - q100;
    let p5 = p4 + q400;
    let q1 = offsets[(month - 1) as usize] + d;
    let q2 = q1 - 1;
    let p6 = p5 + q2;
    let p7 = if month > 2 && is_leap_year(year) {
        p6 + 1
    } else {
        p6
    };
    in_i32(p2) && in_i32(p3) && in_i32(p4) && in_i32(p5) && in_i32(q1) && in_i32(q2) && in_i32(p6)
        && in_i32(p7) && in_i32(p7 - 719162)
}

fn datetime_to_seconds(year: i32, month: u32, day: u32, hour: u32, minute: u32, second: u32) -> (r:
    i64)
    requires
        days_computable(year, month, day),
    ensures
        r == civil_seconds(year, month, day, hour, minute, second),
{
    let days = days_from_ymd(year, month, day);
    (days as i64) * 86400 + (hour as i64) * 3600 + (minute as i64) * 60 + (second as i64)
}

fn days_from_ymd(year: i32, month: u32, day: u32) -> (r: i32)
    requires
        days_computable(year, month, day),
    ensures
        r == days_from_civil(year as int, month as int, day_as_i32(day)),
{
    let y = year - 1;
    let q4 = y / 4;
    let q100 = y / 100;
    let q400 = y / 400;
    assert(q4 == trunc_div(y as int, 4));
    assert(q100 == trunc_div(y as int, 100));
    assert(q400 == trunc_div(y as int, 400));
    let mut days = y * 365 + q4 - q100 + q400;
    let month_days: [i32; 12] = [0, 31, 59, 90, 120, 151, 181, 212, 243, 273, 304, 334];
    assert(month_days@[(month - 1) as int] == month_offset(month as int));
    let d = day as i32;
    if day <= 0x7fff_ffff {
        assert(d == day) by (bit_vector)
            requires
                d == day as i32,
                day <= 0x7fff_ffff,
        ;
    } else {
        assert(d == day - 0x1_0000_0000) by (bit_vector)
            requires
                d == day as i32,
                day > 0x7fff_ffff,
        ;
    }
    days += month_days[(month - 1) as usize] + d - 1;
    if month > 2 && is_leap_year(year) {
        days += 1;
    }
    days - 719162
}

fn is_leap_year(year: i32) -> (r: bool)
    ensures
        r == is_leap(year as int),
{
    (year % 4 == 0 && year % 100 != 0) || (year % 400 == 0)
}


/// Number of days of `month` (1 to 12) in `year`.
pub open spec fn month_length(year: int, month: int) -> int {
    if month == 2 {
        if is_leap(year) {
            29
        } else {
            28
        }
    } else if month == 4 || month == 6 || month == 9 || month == 11 {
        30
    } else {
        31
    }
}

proof fn lemma_step_quotient(a: int, b: int)
    requires
        a >= 1,
        b >= 1,
    ensures
        a / b - (a - 1) / b == (if a % b == 0 {
            1int
        } else {
            0
        }),
{
    vstd::arithmetic::div_mod::lemma_fundamental_div_mod(a, b);
    vstd::arithmetic::div_mod::lemma_fundamental_div_mod(a - 1, b);
    let q = a / b;
    let r = a % b;
    let q1 = (a - 1) / b;
    let r1 = (a - 1) % b;
    assert(0 <= r < b);
    assert(0 <= r1 < b);
    if r == 0 {
        assert(q - q1 == 1) by (nonlinear_arith)
            requires
                a == b * q + r,
                a - 1 == b * q1 + r1,
                r == 0,
                0 <= r1 < b,
        ;
    } else {
        assert(q - q1 == 0) by (nonlinear_arith)
            requires
                a == b * q + r,
                a - 1 == b * q1 + r1,
                1 <= r < b,
                0 <= r1 < b,
        ;
    }
}

/// The day count is zero on 1970-01-01: timestamps count from the Unix epoch.
pub proof fn epoch_is_day_zero()
    ensures
        days_from_civil(1970, 1, 1) == 0,
        civil_seconds(1970, 1, 1, 0, 0, 0) == 0,
{
    assert(trunc_div(1969, 4) == 492);
    assert(trunc_div(1969, 100) == 19);
    assert(trunc_div(1969, 400) == 4);
}

/// Within a month, the next day is one day later.
pub proof fn next_day_is_one_day_later(year: int, month: int, day: int)
    ensures
        days_from_civil(year, month, day + 1) == days_from_civil(year, month, day) + 1,
{
}

/// The first day of a month lies as many days after the first day of the
/// previous month as that month has days (29 for February of a leap year).
pub proof fn next_month_starts_after_month_length(year: int, month: int)
    requires
        1 <= month < 12,
    ensures
        days_from_civil(year, month + 1, 1) == days_from_civil(year, month, 1) + month_length(
            year,
            month,
        ),
{
}

/// New year's day of the next year lies 365 days, or 366 after a leap year,
/// after new year's day.
pub proof fn next_year_starts_after_year_length(year: int)
    requires
        year >= 1,
    ensures
        days_from_civil(year + 1, 1, 1) == days_from_civil(year, 1, 1) + 365 + (if is_leap(
            year,
        ) {
            1int
        } else {
            0
        }),
{
    lemma_step_quotient(year, 4);
    lemma_step_quotient(year, 100);
    lemma_step_quotient(year, 400);
}

/// The last day of December is followed by new year's day of the next year.
pub proof fn year_end_is_followed_by_new_year(year: int)
    requires
        year >= 1,
    ensures
        days_from_civil(year + 1, 1, 1) == days_from_civil(year, 12, 31) + 1,
{
    next_year_starts_after_year_length(year);
}

/// Seconds advance with the time of day as a clock does.
pub proof fn seconds_follow_the_clock(
    year: i32,
    month: u32,
    day: u32,
    hour: u32,
    minute: u32,
    second: u32,
)
    ensures
        civil_seconds(year, month, day, hour, minute, second) == civil_seconds(
            year,
            month,
            day,
            0,
            0,
            0,
        ) + hour * 3600 + minute * 60 + second,
{
}


/// A copy of an optional string.
pub fn copy_opt_string(o: &Option<String>) -> (r: Option<String>)
    ensures
        r == *o,
{
    match o {
        Some(s) => Some(s.clone()),
        None => None,
    }
}

/// One report that backs an incident.
#[derive(Debug)]
pub struct Signal {
    pub id: String,
    pub source_type: String,
    pub content: String,
    pub timestamp: String,
}

impl Clone for Signal {
    fn clone(&self) -> (r: Self)
        ensures
            r == *self,
    {
        Signal {
            id: self.id.clone(),
            source_type: self.source_type.clone(),
            content: self.content.clone(),
            timestamp: self.timestamp.clone(),
        }
    }
}

/// Descriptive details of a feed object; incidents and aircraft each fill
/// their own part.
#[derive(Debug)]
pub struct ObjectMetadata {
    pub summary: Option<String>,
    pub category: Option<String>,
    pub subtype: Option<String>,
    pub location: Option<String>,
    pub country: Option<String>,
    pub region: Option<String>,
    pub signal_count: Option<i32>,
    pub confidence: Option<i32>,
    pub source_types: Option<String>,
    pub created_at: Option<String>,
    pub updated_at: Option<String>,
    pub is_active: Option<bool>,
    pub altitude: Option<i32>,
    pub heading: Option<i32>,
    pub speed: Option<i32>,
    pub aircraft_type: Option<String>,
    pub callsign: Option<String>,
}

impl ObjectMetadata {
    /// Whether every field is empty.
    pub open spec fn is_blank(&self) -> bool {
        &&& self.summary is None
        &&& self.category is None
        &&& self.subtype is None
        &&& self.location is None
        &&& self.country is None
        &&& self.region is None
        &&& self.signal_count is None
        &&& self.confidence is None
        &&& self.source_types is None
        &&& self.created_at is None
        &&& self.updated_at is None
        &&& self.is_active is None
        &&& self.altitude is None
        &&& self.heading is None
        &&& self.speed is None
        &&& self.aircraft_type is None
        &&& self.callsign is None
    }
}

impl Default for ObjectMetadata {
    fn default() -> (r: Self)
        ensures
            r.is_blank(),
    {
        ObjectMetadata {
            summary: None,
            category: None,
            subtype: None,
            location: None,
            country: None,
            region: None,
            signal_count: None,
            confidence: None,
            source_types: None,
            created_at: None,
            updated_at: None,
            is_active: None,
            altitude: None,
            heading: None,
            speed: None,
            aircraft_type: None,
            callsign: None,
        }
    }
}

impl Clone for ObjectMetadata {
    fn clone(&self) -> (r: Self)
        ensures
            r == *self,
    {
        ObjectMetadata {
            summary: copy_opt_string(&self.summary),
            category: copy_opt_string(&self.category),
            subtype: copy_opt_string(&self.subtype),
            location: copy_opt_string(&self.location),
            country: copy_opt_string(&self.country),
            region: copy_opt_string(&self.region),
            signal_count: self.signal_count,
            confidence: self.confidence,
            source_types: copy_opt_string(&self.source_types),
            created_at: copy_opt_string(&self.created_at),
            updated_at: copy_opt_string(&self.updated_at),
            is_active: self.is_active,
            altitude: self.altitude,
            heading: self.heading,
            speed: self.speed,
            aircraft_type: copy_opt_string(&self.aircraft_type),
            callsign: copy_opt_string(&self.callsign),
        }
    }
}

/// One entry of the feed: an incident or a tracked craft. Coordinates are
/// kept as the IEEE-754 bit patterns of their degree values.
#[derive(Debug)]
pub struct MapObject {
    pub id: String,
    pub label: String,
    pub kind: ObjectKind,
    pub severity: Option<Severity>,
    pub ship_status: Option<ShipStatus>,
    pub lat_bits: u64,
    pub lng_bits: u64,
    pub metadata: ObjectMetadata,
    /// Unix timestamp for sorting
    pub timestamp: Option<i64>,
}

impl Clone for MapObject {
    fn clone(&self) -> (r: Self)
        ensures
            r == *self,
    {
        MapObject {
            id: self.id.clone(),
            label: self.label.clone(),
            kind: self.kind,
            severity: self.severity,
            ship_status: self.ship_status,
            lat_bits: self.lat_bits,
            lng_bits: self.lng_bits,
            metadata: self.metadata.clone(),
            timestamp: self.timestamp,
        }
    }
}

/// Whether the optional text field is present and holds `query`, both
/// lower-cased.
pub open spec fn opt_field_matches(field: Option<String>, query: Seq<char>) -> bool {
    match field {
        Some(f) => occurs_in(lowercase(f@), lowercase(query)),
        None => false,
    }
}

/// Whether the text field holds `query`, both lower-cased.
pub open spec fn text_matches(field: Seq<char>, query: Seq<char>) -> bool {
    occurs_in(lowercase(field), lowercase(query))
}

fn opt_field_contains(field: &Option<String>, lowered_query: &str) -> (r: bool)
    ensures
        r == match field {
            Some(f) => occurs_in(lowercase(f@), lowered_query@),
            None => false,
        },
{
    match field {
        Some(f) => field_contains(f.as_str(), lowered_query),
        None => false,
    }
}

impl MapObject {
    /// Rank of the object in the feed: critical incidents 4, high 3,
    /// medium 2, other incidents 1; aircraft 2; ships 1.
    pub open spec fn spec_weight(&self) -> u8 {
        match self.kind {
            ObjectKind::Incident => match self.severity {
                Some(Severity::Critical) => 4,
                Some(Severity::High) => 3,
                Some(Severity::Medium) => 2,
                _ => 1,
            },
            ObjectKind::Ship => 1,
            ObjectKind::Aircraft => 2,
        }
    }

    pub fn weight(&self) -> (r: u8)
        ensures
            r == self.spec_weight(),
            1 <= r <= 4,
            self.kind == ObjectKind::Incident && self.severity is Some ==> r
                == self.severity->0.spec_index() + 1,
    {
        match self.kind {
            ObjectKind::Incident => match self.severity {
                Some(Severity::Critical) => 4,
                Some(Severity::High) => 3,
                Some(Severity::Medium) => 2,
                _ => 1,
            },
            ObjectKind::Ship => 1,
            ObjectKind::Aircraft => 2,
        }
    }

    /// Whether the query, case-insensitively, occurs in the label, summary,
    /// category, location or country of the object.
    pub open spec fn spec_matches_search(&self, query: Seq<char>) -> bool {
        ||| text_matches(self.label@, query)
        ||| opt_field_matches(self.metadata.summary, query)
        ||| opt_field_matches(self.metadata.category, query)
        ||| opt_field_matches(self.metadata.location, query)
        ||| opt_field_matches(self.metadata.country, query)
    }

    pub fn matches_search(&self, query: &str) -> (r: bool)
        ensures
            r == self.spec_matches_search(query@),
            r == (occurs_in(lowercase(self.label@), lowercase(query@)) || (
            self.metadata.summary is Some && occurs_in(
                lowercase(self.metadata.summary->0@),
                lowercase(query@),
            )) || (self.metadata.category is Some && occurs_in(
                lowercase(self.metadata.category->0@),
                lowercase(query@),
            )) || (self.metadata.location is Some && occurs_in(
                lowercase(self.metadata.location->0@),
                lowercase(query@),
            )) || (self.metadata.country is Some && occurs_in(
                lowercase(self.metadata.country->0@),
                lowercase(query@),
            ))),
    {
        let q = to_lowercase(query);
        field_contains(self.label.as_str(), q.as_str()) || opt_field_contains(
            &self.metadata.summary,
            q.as_str(),
        ) || opt_field_contains(&self.metadata.category, q.as_str()) || opt_field_contains(
            &self.metadata.location,
            q.as_str(),
        ) || opt_field_contains(&self.metadata.country, q.as_str())
    }
}

/// A naval vessel tracked in the fleet column. Coordinates are kept as the
/// IEEE-754 bit patterns of their degree values.
#[derive(Debug)]
pub struct Warship {
    pub id: String,
    pub name: String,
    pub ship_type: String,
    pub hull_number: Option<String>,
    pub region: String,
    pub lat_bits: u64,
    pub lng_bits: u64,
    pub country: String,
    pub status: String,
    pub group_name: Option<String>,
    pub group_type: Option<String>,
    pub flagship: bool,
    pub source_url: Option<String>,
    pub source_date: Option<String>,
    pub updated_at: String,
}

impl Clone for Warship {
    fn clone(&self) -> (r: Self)
        ensures
            r == *self,
    {
        Warship {
            id: self.id.clone(),
            name: self.name.clone(),
            ship_type: self.ship_type.clone(),
            hull_number: copy_opt_string(&self.hull_number),
            region: self.region.clone(),
            lat_bits: self.lat_bits,
            lng_bits: self.lng_bits,
            country: self.country.clone(),
            status: self.status.clone(),
            group_name: copy_opt_string(&self.group_name),
            group_type: copy_opt_string(&self.group_type),
            flagship: self.flagship,
            source_url: copy_opt_string(&self.source_url),
            source_date: copy_opt_string(&self.source_date),
            updated_at: self.updated_at.clone(),
        }
    }
}

impl Warship {
    /// Whether the query, case-insensitively, occurs in the name, type,
    /// country or region of the ship.
    pub open spec fn spec_matches_search(&self, query: Seq<char>) -> bool {
        ||| text_matches(self.name@, query)
        ||| text_matches(self.ship_type@, query)
        ||| text_matches(self.country@, query)
        ||| text_matches(self.region@, query)
    }

    pub fn matches_search(&self, query: &str) -> (r: bool)
        ensures
            r == self.spec_matches_search(query@),
            r == (occurs_in(lowercase(self.name@), lowercase(query@)) || occurs_in(
                lowercase(self.ship_type@),
                lowercase(query@),
            ) || occurs_in(lowercase(self.country@), lowercase(query@)) || occurs_in(
                lowercase(self.region@),
                lowercase(query@),
            )),
    {
        let q = to_lowercase(query);
        field_contains(self.name.as_str(), q.as_str()) || field_contains(
            self.ship_type.as_str(),
            q.as_str(),
        ) || field_contains(self.country.as_str(), q.as_str()) || field_contains(
            self.region.as_str(),
            q.as_str(),
        )
    }
}

/// A head of state or government and what they are doing. Coordinates are
/// kept as the IEEE-754 bit patterns of their degree values.
#[derive(Debug)]
pub struct WorldLeader {
    pub id: String,
    pub name: String,
    pub title: String,
    pub country_code: String,
    pub location_name: String,
    pub lat_bits: u64,
    pub lng_bits: u64,
    pub activity: String,
    pub next_activity: Option<String>,
    pub source_summary: String,
    pub confidence: String,
    pub updated_at: String,
}

impl Clone for WorldLeader {
    fn clone(&self) -> (r: Self)
        ensures
            r == *self,
    {
        WorldLeader {
            id: self.id.clone(),
            name: self.name.clone(),
            title: self.title.clone(),
            country_code: self.country_code.clone(),
            location_name: self.location_name.clone(),
            lat_bits: self.lat_bits,
            lng_bits: self.lng_bits,
            activity: self.activity.clone(),
            next_activity: copy_opt_string(&self.next_activity),
            source_summary: self.source_summary.clone(),
            confidence: self.confidence.clone(),
            updated_at: self.updated_at.clone(),
        }
    }
}

impl WorldLeader {
    /// Whether the query, case-insensitively, occurs in the name, title,
    /// location or activity of the leader.
    pub open spec fn spec_matches_search(&self, query: Seq<char>) -> bool {
        ||| text_matches(self.name@, query)
        ||| text_matches(self.title@, query)
        ||| text_matches(self.location_name@, query)
        ||| text_matches(self.activity@, query)
    }

    pub fn matches_search(&self, query: &str) -> (r: bool)
        ensures
            r == self.spec_matches_search(query@),
            r == (occurs_in(lowercase(self.name@), lowercase(query@)) || occurs_in(
                lowercase(self.title@),
                lowercase(query@),
            ) || occurs_in(lowercase(self.location_name@), lowercase(query@)) || occurs_in(
                lowercase(self.activity@),
                lowercase(query@),
            )),
    {
        let q = to_lowercase(query);
        field_contains(self.name.as_str(), q.as_str()) || field_contains(
            self.title.as_str(),
            q.as_str(),
        ) || field_contains(self.location_name.as_str(), q.as_str()) || field_contains(
            self.activity.as_str(),
            q.as_str(),
        )
    }
}

/// Among incidents the more severe weighs more: an incident's weight is
/// one more than its severity's rank, from 1 for low to 4 for critical, so
/// it grows strictly with the severity.
pub proof fn weight_grows_with_severity(a: MapObject, b: MapObject)
    requires
        a.kind == ObjectKind::Incident,
        b.kind == ObjectKind::Incident,
        a.severity is Some,
        b.severity is Some,
    ensures
        a.spec_weight() == a.severity->0.spec_index() + 1,
        a.severity->0.spec_index() < b.severity->0.spec_index() ==> a.spec_weight()
            < b.spec_weight(),
{
}

/// A feed object is found by a query, case-insensitively, exactly when the
/// query occurs in its label or in one of its summary, category, location
/// and country, where present.
pub proof fn search_looks_at_every_text_field(o: MapObject, query: Seq<char>)
    ensures
        o.spec_matches_search(query) == (occurs_in(lowercase(o.label@), lowercase(query)) || (
        o.metadata.summary is Some && occurs_in(
            lowercase(o.metadata.summary->0@),
            lowercase(query),
        )) || (o.metadata.category is Some && occurs_in(
            lowercase(o.metadata.category->0@),
            lowercase(query),
        )) || (o.metadata.location is Some && occurs_in(
            lowercase(o.metadata.location->0@),
            lowercase(query),
        )) || (o.metadata.country is Some && occurs_in(
            lowercase(o.metadata.country->0@),
            lowercase(query),
        ))),
{
}

} // verus!
