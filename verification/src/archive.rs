//! Date/time stamps, entry paths, and the sans-IO archive encoder.

use std::borrow::Cow;

use vstd::prelude::*;
use vstd::utf8::encode_utf8;

use crate::foreign::{
    buffer_limit, bytes_mut_len, bytes_mut_put_slice, bytes_mut_put_u16_le, bytes_mut_put_u32_le,
    bytes_mut_put_u64_le, bytes_mut_put_u8, bytes_mut_reserve, bytes_mut_view, crc32_of,
    crc_hasher_finalize, crc_hasher_input, crc_hasher_new, crc_hasher_update,
};
use crate::format::{
    central_entry, central_entry_len, central_fixed, data_descriptor, data_descriptor_len, eocd,
    external_attributes, le_u16, le_u32, lemma_record_lengths, local_header, local_header_len,
    timestamp_extra, timestamp_extra_len, zip64_eocd, zip64_extra, zip64_locator, CD_ZIP64_EXTRA_LEN,
    DIR_ATTRIBUTES, FILE_ATTRIBUTES, GP_FLAGS, MAX_U32_SIZE, SIG_CENTRAL, SIG_DATA_DESC, SIG_EOCD,
    SIG_LOCAL, SIG_ZIP64_EOCD, SIG_ZIP64_EOCD_LOC, TAG_EXTENDED_TIMESTAMP, TAG_ZIP64,
    VERSION_MADE_BY, VERSION_NEEDED,
};

verus! {

// ── Date / time ──────────────────────────────────────────────────────────────

/// Error returned when MS-DOS date/time components are out of range.
#[derive(Debug)]
#[non_exhaustive]
pub struct InvalidMsDosDateTime;

/// Whether `year` is a leap year in the Gregorian calendar.
pub open spec fn is_leap_year(year: int) -> bool {
    (year % 4 == 0 && year % 100 != 0) || year % 400 == 0
}

/// The number of days in `month` of `year`; `0` for months outside 1..=12.
pub open spec fn spec_days_in_month(year: int, month: int) -> int {
    if month == 1 || month == 3 || month == 5 || month == 7 || month == 8 || month == 10 || month
        == 12 {
        31
    } else if month == 4 || month == 6 || month == 9 || month == 11 {
        30
    } else if month == 2 {
        if is_leap_year(year) {
            29
        } else {
            28
        }
    } else {
        0
    }
}

/// Whether the components name a date and time that MS-DOS can store:
/// years 1980..=2107, a real calendar day, and a time of day.
pub open spec fn valid_dos_components(
    year: int,
    month: int,
    day: int,
    hour: int,
    minute: int,
    second: int,
) -> bool {
    &&& 1980 <= year <= 2107
    &&& 1 <= month <= 12
    &&& 1 <= day <= spec_days_in_month(year, month)
    &&& 0 <= hour <= 23
    &&& 0 <= minute <= 59
    &&& 0 <= second <= 59
}

/// The packed MS-DOS time field: hour in bits 11-15, minute in bits 5-10,
/// seconds halved in bits 0-4.
pub open spec fn dos_time_field(hour: int, minute: int, second: int) -> int {
    hour * 2048 + minute * 32 + second / 2
}

/// The packed MS-DOS date field: years since 1980 in bits 9-15, month in
/// bits 5-8, day in bits 0-4.
pub open spec fn dos_date_field(year: int, month: int, day: int) -> int {
    (year - 1980) * 512 + month * 32 + day
}

/// Return the number of days in the given month and year.
///
/// Returns `0` for months outside 1..=12.
pub fn days_in_month(year: u16, month: u16) -> (days: u16)
    ensures
        days == spec_days_in_month(year as int, month as int),
{
    match month {
        1 | 3 | 5 | 7 | 8 | 10 | 12 => 31,
        4 | 6 | 9 | 11 => 30,
        2 => {
            if (year % 4 == 0 && year % 100 != 0) || year % 400 == 0 {
                29
            } else {
                28
            }
        },
        _ => 0,
    }
}

/// MS-DOS date and time as stored in ZIP file headers.
///
/// The default value is all zeros, which most extractors display as
/// `1980-00-00 00:00:00`.
#[derive(Clone, Copy, Debug)]
pub struct MsDosDateTime {
    time: u16,
    date: u16,
}

impl MsDosDateTime {
    /// The packed time field written into headers.
    pub closed spec fn dos_time(self) -> u16 {
        self.time
    }

    /// The packed date field written into headers.
    pub closed spec fn dos_date(self) -> u16 {
        self.date
    }

    /// Create from individual calendar components.
    ///
    /// Returns `None` if any field is out of the valid MS-DOS range. The day
    /// is validated against the number of days in the given month and year
    /// (including leap years for February). Seconds are truncated to even.
    ///
    /// * `year` - 1980..=2107
    /// * `month` - 1..=12
    /// * `day` - 1..=days-in-month
    /// * `hour` - 0..=23
    /// * `minute` - 0..=59
    /// * `second` - 0..=59
    pub fn new(year: u16, month: u16, day: u16, hour: u16, minute: u16, second: u16) -> (r:
        Option<Self>)
        ensures
            r is Some <==> valid_dos_components(
                year as int,
                month as int,
                day as int,
                hour as int,
                minute as int,
                second as int,
            ),
            r matches Some(d) ==> {
                &&& d.dos_time() == dos_time_field(hour as int, minute as int, second as int)
                &&& d.dos_date() == dos_date_field(year as int, month as int, day as int)
            },
    {
        if year < 1980 || year > 2107 || month < 1 || month > 12 || day < 1 || day > days_in_month(
            year,
            month,
        ) || hour > 23 || minute > 59 || second > 59 {
            return None;
        }
        let y = year - 1980;
        let time: u16 = (hour << 11u16) | (minute << 5u16) | (second / 2);
        let date: u16 = (y << 9u16) | (month << 5u16) | day;
        assert(time == hour * 2048 + minute * 32 + second / 2) by (bit_vector)
            requires
                hour <= 23,
                minute <= 59,
                second <= 59,
                time == (hour << 11u16) | (minute << 5u16) | (second / 2),
        ;
        assert(date == y * 512 + month * 32 + day) by (bit_vector)
            requires
                y <= 127,
                month <= 12,
                day <= 31,
                date == (y << 9u16) | (month << 5u16) | day,
        ;
        Some(MsDosDateTime { time, date })
    }
}

impl MsDosDateTime {
    /// Create from signed calendar components, as a calendar library such
    /// as `jiff` reports them (`DateTime::year`, `month`, `day`, `hour`,
    /// `minute`, `second`).
    ///
    /// # Errors
    ///
    /// Returns [`InvalidMsDosDateTime`] when a component is negative or the
    /// date or time is outside the MS-DOS range (see [`new`](Self::new)).
    pub fn from_civil(year: i16, month: i8, day: i8, hour: i8, minute: i8, second: i8) -> (r:
        Result<Self, InvalidMsDosDateTime>)
        ensures
            r is Ok <==> valid_dos_components(
                year as int,
                month as int,
                day as int,
                hour as int,
                minute as int,
                second as int,
            ),
            r matches Ok(d) ==> {
                &&& d.dos_time() == dos_time_field(hour as int, minute as int, second as int)
                &&& d.dos_date() == dos_date_field(year as int, month as int, day as int)
            },
    {
        if year < 0 || month < 0 || day < 0 || hour < 0 || minute < 0 || second < 0 {
            return Err(InvalidMsDosDateTime);
        }
        match Self::new(
            year as u16,
            month as u16,
            day as u16,
            hour as u16,
            minute as u16,
            second as u16,
        ) {
            Some(d) => Ok(d),
            None => Err(InvalidMsDosDateTime),
        }
    }
}

impl Default for MsDosDateTime {
    /// All zero fields.
    fn default() -> (r: Self)
        ensures
            r.dos_time() == 0,
            r.dos_date() == 0,
    {
        MsDosDateTime { time: 0, date: 0 }
    }
}

/// Month lengths follow the Gregorian calendar: February has 29 days in a
/// leap year and 28 otherwise; the other months alternate 31 and 30 from
/// January to July and again from August to December, which is
/// `30 + (month + month / 8) % 2`. The twelve months add up to 366 days in
/// a leap year and 365 otherwise.
pub proof fn law_month_lengths(year: int, month: int)
    requires
        1 <= month <= 12,
    ensures
        spec_days_in_month(year, month) == if month == 2 {
            if is_leap_year(year) {
                29int
            } else {
                28int
            }
        } else {
            30 + (month + month / 8) % 2
        },
        spec_days_in_month(year, 1) + spec_days_in_month(year, 2) + spec_days_in_month(year, 3)
            + spec_days_in_month(year, 4) + spec_days_in_month(year, 5) + spec_days_in_month(
            year,
            6,
        ) + spec_days_in_month(year, 7) + spec_days_in_month(year, 8) + spec_days_in_month(year, 9)
            + spec_days_in_month(year, 10) + spec_days_in_month(year, 11) + spec_days_in_month(
            year,
            12,
        ) == if is_leap_year(year) {
            366int
        } else {
            365int
        },
{
}

/// Within the MS-DOS year range and for a valid time of day, a date is
/// accepted exactly when its day lies within its month's Gregorian length:
/// up to 31 in January, March, May, July, August, October and December,
/// up to 30 in April, June, September and November, and up to 29 or 28 in
/// February as the year is a leap year or not.
pub proof fn law_dos_day_range(
    year: int,
    month: int,
    day: int,
    hour: int,
    minute: int,
    second: int,
)
    requires
        1980 <= year <= 2107,
        1 <= month <= 12,
        0 <= hour <= 23,
        0 <= minute <= 59,
        0 <= second <= 59,
    ensures
        valid_dos_components(year, month, day, hour, minute, second) <==> 1 <= day <= if month
            == 2 {
            if (year % 4 == 0 && year % 100 != 0) || year % 400 == 0 {
                29int
            } else {
                28int
            }
        } else if month == 4 || month == 6 || month == 9 || month == 11 {
            30int
        } else {
            31int
        },
{
}

/// A packed value decodes back to the components it was made from: the
/// fields hold the year, month and day, and the hour, minute and halved
/// second, each in its own bits.
pub proof fn law_dos_fields_decode(
    year: int,
    month: int,
    day: int,
    hour: int,
    minute: int,
    second: int,
)
    requires
        valid_dos_components(year, month, day, hour, minute, second),
    ensures
        dos_date_field(year, month, day) / 512 + 1980 == year,
        dos_date_field(year, month, day) / 32 % 16 == month,
        dos_date_field(year, month, day) % 32 == day,
        dos_time_field(hour, minute, second) / 2048 == hour,
        dos_time_field(hour, minute, second) / 32 % 64 == minute,
        dos_time_field(hour, minute, second) % 32 * 2 == second - second % 2,
{
    let d = dos_date_field(year, month, day);
    let t = dos_time_field(hour, minute, second);
    assert(d / 512 == year - 1980) by (nonlinear_arith)
        requires
            d == (year - 1980) * 512 + month * 32 + day,
            0 <= month * 32 + day < 512,
            year >= 1980,
    ;
    assert(d / 32 == (year - 1980) * 16 + month) by (nonlinear_arith)
        requires
            d == (year - 1980) * 512 + month * 32 + day,
            1 <= day < 32,
            year >= 1980,
    ;
    assert(d % 32 == day) by (nonlinear_arith)
        requires
            d == (year - 1980) * 512 + month * 32 + day,
            1 <= day < 32,
            year >= 1980,
    ;
    assert(t / 2048 == hour) by (nonlinear_arith)
        requires
            t == hour * 2048 + minute * 32 + second / 2,
            0 <= minute <= 59,
            0 <= second <= 59,
            hour >= 0,
    ;
    assert(t / 32 == hour * 64 + minute) by (nonlinear_arith)
        requires
            t == hour * 2048 + minute * 32 + second / 2,
            0 <= second <= 59,
            hour >= 0,
            minute >= 0,
    ;
    assert(t % 32 == second / 2) by (nonlinear_arith)
        requires
            t == hour * 2048 + minute * 32 + second / 2,
            0 <= second <= 59,
            hour >= 0,
            minute >= 0,
    ;
}

/// Last-modified time of an entry: the MS-DOS stamp that every ZIP header
/// carries and, optionally, the same instant in Unix seconds, which is
/// written as an extended timestamp extra field.
#[derive(Clone, Copy, Debug)]
pub struct FileTimes {
    dos: MsDosDateTime,
    unix: Option<u32>,
}

impl FileTimes {
    /// The MS-DOS stamp.
    pub closed spec fn dos(self) -> MsDosDateTime {
        self.dos
    }

    /// The Unix time in seconds, if known.
    pub closed spec fn unix(self) -> Option<u32> {
        self.unix
    }

    /// Both the MS-DOS stamp and the same instant in seconds since
    /// 1970-01-01 UTC.
    pub fn new(dos: MsDosDateTime, unix_seconds: u32) -> (t: Self)
        ensures
            t.dos() == dos,
            t.unix() == Some(unix_seconds),
    {
        FileTimes { dos, unix: Some(unix_seconds) }
    }

    /// Whether a Unix time is known.
    pub fn has_unix_time(&self) -> (known: bool)
        ensures
            known == self.unix() is Some,
    {
        self.unix.is_some()
    }

    /// Only the MS-DOS stamp; no extended timestamp is written.
    pub fn dos_only(dos: MsDosDateTime) -> (t: Self)
        ensures
            t.dos() == dos,
            t.unix() == None::<u32>,
    {
        FileTimes { dos, unix: None }
    }
}

impl FileTimes {
    /// Create from signed calendar components and the same instant in
    /// seconds since 1970-01-01 UTC, as a calendar library such as `jiff`
    /// reports them (`Zoned::datetime` and `Zoned::timestamp`).
    ///
    /// # Errors
    ///
    /// Returns [`InvalidMsDosDateTime`] when the calendar components are out
    /// of the MS-DOS range (see [`MsDosDateTime::from_civil`]) or the
    /// seconds do not fit the 32-bit unsigned field of the extended
    /// timestamp.
    pub fn from_civil(
        year: i16,
        month: i8,
        day: i8,
        hour: i8,
        minute: i8,
        second: i8,
        unix_seconds: i64,
    ) -> (r: Result<Self, InvalidMsDosDateTime>)
        ensures
            r is Ok <==> valid_dos_components(
                year as int,
                month as int,
                day as int,
                hour as int,
                minute as int,
                second as int,
            ) && 0 <= unix_seconds <= u32::MAX,
            r matches Ok(t) ==> {
                &&& t.dos().dos_time() == dos_time_field(hour as int, minute as int, second as int)
                &&& t.dos().dos_date() == dos_date_field(year as int, month as int, day as int)
                &&& t.unix() == Some(unix_seconds as u32)
            },
    {
        let dos = match MsDosDateTime::from_civil(year, month, day, hour, minute, second) {
            Ok(d) => d,
            Err(e) => return Err(e),
        };
        if unix_seconds < 0 || unix_seconds > 0xFFFF_FFFF {
            return Err(InvalidMsDosDateTime);
        }
        Ok(FileTimes::new(dos, unix_seconds as u32))
    }
}

impl From<MsDosDateTime> for FileTimes {
    /// Only the MS-DOS stamp, as [`FileTimes::dos_only`].
    fn from(dos: MsDosDateTime) -> (t: Self)
        ensures
            t.dos() == dos,
            t.unix() == None::<u32>,
    {
        FileTimes::dos_only(dos)
    }
}

impl vstd::std_specs::convert::FromSpecImpl<MsDosDateTime> for FileTimes {
    open spec fn obeys_from_spec() -> bool {
        true
    }

    closed spec fn from_spec(dos: MsDosDateTime) -> FileTimes {
        FileTimes { dos, unix: None }
    }
}

impl Default for FileTimes {
    /// The all-zero MS-DOS stamp and no Unix time.
    fn default() -> (t: Self)
        ensures
            t.dos().dos_time() == 0,
            t.dos().dos_date() == 0,
            t.unix() == None::<u32>,
    {
        FileTimes { dos: MsDosDateTime::default(), unix: None }
    }
}


// ── Paths ─────────────────────────────────────────────────────────────────────

/// The longest name, in bytes, that ZIP's 16-bit name length field holds.
pub const MAX_NAME_LEN: usize = 65535;

/// `/`, the path separator.
pub const SLASH: u8 = 0x2F;

/// `.`
pub const DOT: u8 = 0x2E;

/// `\`
pub const BACKSLASH: u8 = 0x5C;

/// `:`
pub const COLON: u8 = 0x3A;

/// Why a path was refused as a ZIP entry name.
#[derive(Clone, Copy, Debug, PartialEq, Eq, Structural)]
pub enum PathProblem {
    /// Longer than 65535 bytes.
    TooLong,
    /// Contains a NUL byte.
    NulByte,
    /// Contains a backslash.
    Backslash,
    /// Contains a colon (this covers drive letters such as `C:`).
    Colon,
    /// Starts with `/`.
    Absolute,
    /// Has a `..` component.
    ParentTraversal,
    /// A file entry's path ends with `/`.
    FileWithTrailingSlash,
    /// A directory entry's path does not end with `/`.
    DirectoryWithoutSlash,
}

/// Whether a `..` component starts at byte `i`: it is preceded by the
/// start or by `/`, and followed by the end or by `/`.
pub open spec fn parent_component_at(b: Seq<u8>, i: int) -> bool {
    &&& 0 <= i
    &&& i + 2 <= b.len()
    &&& (i == 0 || b[i - 1] == 0x2Fu8)
    &&& b[i] == 0x2Eu8
    &&& b[i + 1] == 0x2Eu8
    &&& (i + 2 == b.len() || b[i + 2] == 0x2Fu8)
}

/// Whether some component of the path is `..`.
pub open spec fn has_parent_component(b: Seq<u8>) -> bool {
    exists|i: int| parent_component_at(b, i)
}

/// The first rule, in the order checked, that a path's UTF-8 bytes break;
/// `None` when the path is accepted.
pub open spec fn path_problem(b: Seq<u8>) -> Option<PathProblem> {
    if b.len() > MAX_NAME_LEN {
        Some(PathProblem::TooLong)
    } else if b.contains(0u8) {
        Some(PathProblem::NulByte)
    } else if b.contains(0x5Cu8) {
        Some(PathProblem::Backslash)
    } else if b.contains(0x3Au8) {
        Some(PathProblem::Colon)
    } else if b.len() > 0 && b[0] == 0x2Fu8 {
        Some(PathProblem::Absolute)
    } else if has_parent_component(b) {
        Some(PathProblem::ParentTraversal)
    } else {
        None
    }
}

/// Error returned when a path cannot be used as a ZIP entry name. Each
/// variant carries the rejected path, which [`into_inner`](Self::into_inner)
/// gives back.
#[derive(Debug)]
pub enum InvalidZipPath {
    /// The name is longer than 65535 bytes.
    TooLong(Cow<'static, str>),
    /// The name contains a NUL byte.
    NulByte(Cow<'static, str>),
    /// The name contains a backslash.
    Backslash(Cow<'static, str>),
    /// The name contains a colon (drive letters included).
    Colon(Cow<'static, str>),
    /// The name is absolute.
    Absolute(Cow<'static, str>),
    /// The name has a `..` component.
    ParentTraversal(Cow<'static, str>),
    /// A file entry was given a name ending with `/`.
    FileWithTrailingSlash(Cow<'static, str>),
    /// A directory entry was given a name not ending with `/`.
    DirectoryWithoutSlash(Cow<'static, str>),
}

impl InvalidZipPath {
    /// The rule the path broke.
    pub open spec fn problem(&self) -> PathProblem {
        match self {
            InvalidZipPath::TooLong(_) => PathProblem::TooLong,
            InvalidZipPath::NulByte(_) => PathProblem::NulByte,
            InvalidZipPath::Backslash(_) => PathProblem::Backslash,
            InvalidZipPath::Colon(_) => PathProblem::Colon,
            InvalidZipPath::Absolute(_) => PathProblem::Absolute,
            InvalidZipPath::ParentTraversal(_) => PathProblem::ParentTraversal,
            InvalidZipPath::FileWithTrailingSlash(_) => PathProblem::FileWithTrailingSlash,
            InvalidZipPath::DirectoryWithoutSlash(_) => PathProblem::DirectoryWithoutSlash,
        }
    }

    /// The rejected path.
    pub open spec fn rejected(&self) -> Cow<'static, str> {
        match self {
            InvalidZipPath::TooLong(p) => *p,
            InvalidZipPath::NulByte(p) => *p,
            InvalidZipPath::Backslash(p) => *p,
            InvalidZipPath::Colon(p) => *p,
            InvalidZipPath::Absolute(p) => *p,
            InvalidZipPath::ParentTraversal(p) => *p,
            InvalidZipPath::FileWithTrailingSlash(p) => *p,
            InvalidZipPath::DirectoryWithoutSlash(p) => *p,
        }
    }

    /// The error for `problem`, carrying `path`.
    pub open spec fn for_problem(problem: PathProblem, path: Cow<'static, str>) -> Self {
        match problem {
            PathProblem::TooLong => InvalidZipPath::TooLong(path),
            PathProblem::NulByte => InvalidZipPath::NulByte(path),
            PathProblem::Backslash => InvalidZipPath::Backslash(path),
            PathProblem::Colon => InvalidZipPath::Colon(path),
            PathProblem::Absolute => InvalidZipPath::Absolute(path),
            PathProblem::ParentTraversal => InvalidZipPath::ParentTraversal(path),
            PathProblem::FileWithTrailingSlash => InvalidZipPath::FileWithTrailingSlash(path),
            PathProblem::DirectoryWithoutSlash => InvalidZipPath::DirectoryWithoutSlash(path),
        }
    }

    /// Build the error for `problem`, carrying `path`.
    pub fn from_problem(problem: PathProblem, path: Cow<'static, str>) -> (e: Self)
        ensures
            e == Self::for_problem(problem, path),
            e.problem() == problem,
            e.rejected() == path,
    {
        match problem {
            PathProblem::TooLong => InvalidZipPath::TooLong(path),
            PathProblem::NulByte => InvalidZipPath::NulByte(path),
            PathProblem::Backslash => InvalidZipPath::Backslash(path),
            PathProblem::Colon => InvalidZipPath::Colon(path),
            PathProblem::Absolute => InvalidZipPath::Absolute(path),
            PathProblem::ParentTraversal => InvalidZipPath::ParentTraversal(path),
            PathProblem::FileWithTrailingSlash => InvalidZipPath::FileWithTrailingSlash(path),
            PathProblem::DirectoryWithoutSlash => InvalidZipPath::DirectoryWithoutSlash(path),
        }
    }

    /// Return the rejected path.
    pub fn into_inner(self) -> (p: Cow<'static, str>)
        ensures
            p == self.rejected(),
    {
        match self {
            InvalidZipPath::TooLong(p) => p,
            InvalidZipPath::NulByte(p) => p,
            InvalidZipPath::Backslash(p) => p,
            InvalidZipPath::Colon(p) => p,
            InvalidZipPath::Absolute(p) => p,
            InvalidZipPath::ParentTraversal(p) => p,
            InvalidZipPath::FileWithTrailingSlash(p) => p,
            InvalidZipPath::DirectoryWithoutSlash(p) => p,
        }
    }
}

/// Text that can become the name of a ZIP entry: a `&'static str` (kept
/// borrowed, no allocation), a `String`, or a `Cow<'static, str>`.
pub trait PathText {
    /// The characters of the text.
    spec fn text(&self) -> Seq<char>;

    /// The `Cow` that holds the text: borrowed where it was borrowed.
    spec fn cow(self) -> Cow<'static, str>;

    /// The text as a `Cow`, borrowed where it was borrowed.
    fn into_cow(self) -> (c: Cow<'static, str>)
        ensures
            c == self.cow(),
            c@ == self.text(),
    ;
}

impl PathText for &'static str {
    open spec fn text(&self) -> Seq<char> {
        (*self)@
    }

    open spec fn cow(self) -> Cow<'static, str> {
        Cow::Borrowed(self)
    }

    fn into_cow(self) -> (c: Cow<'static, str>) {
        Cow::Borrowed(self)
    }
}

impl PathText for String {
    open spec fn text(&self) -> Seq<char> {
        self@
    }

    open spec fn cow(self) -> Cow<'static, str> {
        Cow::Owned(self)
    }

    fn into_cow(self) -> (c: Cow<'static, str>) {
        Cow::Owned(self)
    }
}

impl PathText for Cow<'static, str> {
    open spec fn text(&self) -> Seq<char> {
        self@
    }

    open spec fn cow(self) -> Cow<'static, str> {
        self
    }

    fn into_cow(self) -> (c: Cow<'static, str>) {
        self
    }
}

/// The string slice a `Cow<str>` holds.
fn cow_str<'a>(c: &'a Cow<'static, str>) -> (s: &'a str)
    ensures
        s@ == c@,
{
    match c {
        Cow::Borrowed(s) => s,
        Cow::Owned(s) => s.as_str(),
    }
}

/// Whether `b` holds the byte `x`.
fn contains_byte(b: &[u8], x: u8) -> (found: bool)
    ensures
        found == b@.contains(x),
{
    let mut i: usize = 0;
    while i < b.len()
        invariant
            i <= b@.len(),
            forall|j: int| 0 <= j < i ==> b@[j] != x,
        decreases b@.len() - i,
    {
        if b[i] == x {
            assert(b@[i as int] == x);
            return true;
        }
        i = i + 1;
    }
    false
}

/// Whether some component of the path whose bytes are `b` is `..`.
fn contains_parent_component(b: &[u8]) -> (found: bool)
    ensures
        found == has_parent_component(b@),
{
    let n = b.len();
    let mut i: usize = 0;
    while i < n
        invariant
            n == b@.len(),
            i <= n,
            forall|j: int| 0 <= j < i ==> !parent_component_at(b@, j),
        decreases n - i,
    {
        if n - i >= 2 && (i == 0 || b[i - 1] == SLASH) && b[i] == DOT && b[i + 1] == DOT && (i
            + 2 == n || b[i + 2] == SLASH) {
            assert(parent_component_at(b@, i as int));
            return true;
        }
        i = i + 1;
    }
    assert forall|j: int| !parent_component_at(b@, j) by {
        if 0 <= j < n {
        }
    }
    false
}

/// The first rule that the path bytes `b` break, as `path_problem` orders
/// them.
fn find_path_problem(b: &[u8]) -> (p: Option<PathProblem>)
    ensures
        p == path_problem(b@),
{
    if b.len() > MAX_NAME_LEN {
        Some(PathProblem::TooLong)
    } else if contains_byte(b, 0) {
        Some(PathProblem::NulByte)
    } else if contains_byte(b, BACKSLASH) {
        Some(PathProblem::Backslash)
    } else if contains_byte(b, COLON) {
        Some(PathProblem::Colon)
    } else if b.len() > 0 && b[0] == SLASH {
        Some(PathProblem::Absolute)
    } else if contains_parent_component(b) {
        Some(PathProblem::ParentTraversal)
    } else {
        None
    }
}

/// A ZIP entry path, validated on construction.
///
/// Holds a [`Cow`], so paths built from `&'static str` (e.g. string
/// literals) don't allocate. The UTF-8 name fits ZIP's 16-bit name length
/// field and breaks none of the rules of `path_problem`: no NUL bytes,
/// backslashes or colons, not absolute, and no `..` component.
#[derive(Debug, PartialEq, Eq, Hash)]
pub struct ZipPath(Cow<'static, str>);

impl View for ZipPath {
    type V = Seq<char>;

    closed spec fn view(&self) -> Seq<char> {
        self.0@
    }
}

impl ZipPath {
    /// Every `ZipPath` holds an accepted name.
    #[verifier::type_invariant]
    spec fn accepted(self) -> bool {
        path_problem(encode_utf8(self.0@)) is None
    }

    /// The `Cow` the path holds: borrowed where the text it was made from
    /// was borrowed.
    pub closed spec fn stored(self) -> Cow<'static, str> {
        self.0
    }

    /// The UTF-8 bytes of the name, as written into headers.
    pub open spec fn utf8(self) -> Seq<u8> {
        encode_utf8(self@)
    }

    /// The outcome of validating `path`: the path itself when it breaks no
    /// rule, else the error of the first rule it breaks, carrying it.
    pub closed spec fn accept(path: Cow<'static, str>) -> Result<ZipPath, InvalidZipPath> {
        match path_problem(encode_utf8(path@)) {
            None => Ok(ZipPath(path)),
            Some(problem) => Err(InvalidZipPath::for_problem(problem, path)),
        }
    }

    /// Validate a `Cow` as an entry name; see [`new`](Self::new).
    pub fn from_cow(path: Cow<'static, str>) -> (r: Result<Self, InvalidZipPath>)
        ensures
            r == Self::accept(path),
            match r {
                Ok(p) => p.stored() == path && p@ == path@ && path_problem(encode_utf8(path@))
                    is None,
                Err(e) => e.rejected() == path && path_problem(encode_utf8(path@)) == Some(
                    e.problem(),
                ),
            },
    {
        let problem = find_path_problem(cow_str(&path).as_bytes());
        match problem {
            None => Ok(ZipPath(path)),
            Some(problem) => Err(InvalidZipPath::from_problem(problem, path)),
        }
    }

    /// Validate `path` as an entry name.
    ///
    /// # Errors
    ///
    /// Returns the [`InvalidZipPath`] variant of the first rule that the
    /// path breaks (see `path_problem`); the rejected path can be recovered
    /// from the error.
    pub fn new<P: PathText>(path: P) -> (r: Result<Self, InvalidZipPath>)
        ensures
            match r {
                Ok(p) => p.stored() == path.cow() && p@ == path.text() && path_problem(
                    encode_utf8(path.text()),
                ) is None,
                Err(e) => e.rejected() == path.cow() && e.rejected()@ == path.text()
                    && path_problem(encode_utf8(path.text())) == Some(e.problem()),
            },
    {
        Self::from_cow(path.into_cow())
    }

    /// View the path as a string slice.
    pub fn as_str(&self) -> (s: &str)
        ensures
            s@ == self@,
    {
        cow_str(&self.0)
    }

    /// Whether the name ends with `/`, the mark of a directory.
    pub fn ends_with_slash(&self) -> (slash: bool)
        ensures
            slash == crate::format::names_directory(self.utf8()),
            path_problem(self.utf8()) is None,
            self.utf8().len() <= MAX_NAME_LEN,
    {
        proof {
            use_type_invariant(self);
        }
        let b = self.as_str().as_bytes();
        b.len() > 0 && b[b.len() - 1] == SLASH
    }

    /// Extract the inner [`Cow`].
    pub fn into_inner(self) -> (c: Cow<'static, str>)
        ensures
            c == self.stored(),
            c@ == self@,
    {
        self.0
    }
}

impl AsRef<str> for ZipPath {
    /// The path's text.
    fn as_ref(&self) -> (s: &str)
        ensures
            s@ == self@,
    {
        self.as_str()
    }
}

/// A copy of `c`: the same borrowed slice, or an owned copy of the string.
fn cow_clone(c: &Cow<'static, str>) -> (d: Cow<'static, str>)
    ensures
        d == *c,
{
    match c {
        Cow::Borrowed(s) => Cow::Borrowed(*s),
        Cow::Owned(s) => Cow::Owned(s.clone()),
    }
}

impl Clone for ZipPath {
    /// The same path.
    fn clone(&self) -> (p: Self)
        ensures
            p.stored() == self.stored(),
            p@ == self@,
    {
        proof {
            use_type_invariant(self);
        }
        ZipPath(cow_clone(&self.0))
    }
}

impl TryFrom<&'static str> for ZipPath {
    type Error = InvalidZipPath;

    fn try_from(path: &'static str) -> Result<Self, Self::Error> {
        Self::from_cow(Cow::Borrowed(path))
    }
}

impl vstd::std_specs::convert::TryFromSpecImpl<&'static str> for ZipPath {
    open spec fn obeys_try_from_spec() -> bool {
        true
    }

    open spec fn try_from_spec(path: &'static str) -> Result<Self, InvalidZipPath> {
        ZipPath::accept(Cow::Borrowed(path))
    }
}

impl TryFrom<String> for ZipPath {
    type Error = InvalidZipPath;

    fn try_from(path: String) -> Result<Self, Self::Error> {
        Self::from_cow(Cow::Owned(path))
    }
}

impl vstd::std_specs::convert::TryFromSpecImpl<String> for ZipPath {
    open spec fn obeys_try_from_spec() -> bool {
        true
    }

    open spec fn try_from_spec(path: String) -> Result<Self, InvalidZipPath> {
        ZipPath::accept(Cow::Owned(path))
    }
}

impl TryFrom<Cow<'static, str>> for ZipPath {
    type Error = InvalidZipPath;

    fn try_from(path: Cow<'static, str>) -> Result<Self, Self::Error> {
        Self::from_cow(path)
    }
}

impl vstd::std_specs::convert::TryFromSpecImpl<Cow<'static, str>> for ZipPath {
    open spec fn obeys_try_from_spec() -> bool {
        true
    }

    open spec fn try_from_spec(path: Cow<'static, str>) -> Result<Self, InvalidZipPath> {
        ZipPath::accept(path)
    }
}

// ── Compression ──────────────────────────────────────────────────────────────

/// Compression method stored in ZIP file headers.
#[derive(Clone, Copy, Debug, PartialEq, Eq, Structural)]
#[non_exhaustive]
pub enum CompressionMethod {
    /// No compression (method 0).
    Stored,
    /// DEFLATE (method 8).
    Deflate,
    /// BZIP2 (method 12).
    Bzip2,
    /// LZMA (method 14).
    Lzma,
    /// Zstandard (method 93).
    Zstd,
}

/// The method number written into headers.
pub open spec fn method_code(m: CompressionMethod) -> u16 {
    match m {
        CompressionMethod::Stored => 0,
        CompressionMethod::Deflate => 8,
        CompressionMethod::Bzip2 => 12,
        CompressionMethod::Lzma => 14,
        CompressionMethod::Zstd => 93,
    }
}

impl CompressionMethod {
    /// The method number written into headers.
    pub fn code(self) -> (c: u16)
        ensures
            c == method_code(self),
    {
        match self {
            CompressionMethod::Stored => 0,
            CompressionMethod::Deflate => 8,
            CompressionMethod::Bzip2 => 12,
            CompressionMethod::Lzma => 14,
            CompressionMethod::Zstd => 93,
        }
    }
}

impl Default for CompressionMethod {
    /// No compression.
    fn default() -> (m: Self)
        ensures
            m == CompressionMethod::Stored,
    {
        CompressionMethod::Stored
    }
}

// ── Record encoders ──────────────────────────────────────────────────────────

/// The local header of an entry with this name, times and method.
pub open spec fn header_bytes(name: Seq<u8>, times: FileTimes, method: CompressionMethod) -> Seq<
    u8,
> {
    local_header(
        name,
        method_code(method),
        times.dos().dos_time(),
        times.dos().dos_date(),
        times.unix(),
    )
}

/// Encode the extended timestamp extra field, if a Unix time is known.
fn encode_timestamp_extra(unix: Option<u32>, b: &mut bytes::BytesMut)
    requires
        bytes_mut_view(*old(b)).len() + timestamp_extra_len(unix) <= buffer_limit(),
    ensures
        bytes_mut_view(*final(b)) == bytes_mut_view(*old(b)) + timestamp_extra(unix),
{
    let ghost start = bytes_mut_view(*b);
    match unix {
        Some(secs) => {
            bytes_mut_put_u16_le(b, TAG_EXTENDED_TIMESTAMP);
            bytes_mut_put_u16_le(b, 5);
            bytes_mut_put_u8(b, 1);
            bytes_mut_put_u32_le(b, secs);
            assert(bytes_mut_view(*b) =~= start + timestamp_extra(unix));
        },
        None => {
            assert(bytes_mut_view(*b) =~= start + timestamp_extra(unix));
        },
    }
}

/// Local file header: 30 bytes + name + extended timestamp (if any).
///
/// CRC-32 and sizes are all zero because GP bit 3 (data descriptor) is set.
/// The real values appear in the data descriptor that follows the file
/// data, and in the central directory's ZIP64 extra field.
#[verifier::rlimit(40)]
pub fn encode_local_header(
    path: &str,
    modified: FileTimes,
    method: CompressionMethod,
    b: &mut bytes::BytesMut,
)
    requires
        encode_utf8(path@).len() <= MAX_NAME_LEN,
        bytes_mut_view(*old(b)).len() + local_header_len(encode_utf8(path@).len(), modified.unix())
            <= buffer_limit(),
    ensures
        bytes_mut_view(*final(b)) == bytes_mut_view(*old(b)) + header_bytes(
            encode_utf8(path@),
            modified,
            method,
        ),
{
    let ghost start = bytes_mut_view(*b);
    let name = path.as_bytes();
    let extra_len: u16 = match modified.unix {
        Some(_) => 9,
        None => 0,
    };
    bytes_mut_reserve(b, 30 + name.len() + extra_len as usize);
    bytes_mut_put_u32_le(b, SIG_LOCAL);
    bytes_mut_put_u16_le(b, VERSION_NEEDED);
    bytes_mut_put_u16_le(b, GP_FLAGS);
    bytes_mut_put_u16_le(b, method.code());
    bytes_mut_put_u16_le(b, modified.dos.time);
    bytes_mut_put_u16_le(b, modified.dos.date);
    bytes_mut_put_u32_le(b, 0);
    bytes_mut_put_u32_le(b, 0);
    bytes_mut_put_u32_le(b, 0);
    bytes_mut_put_u16_le(b, name.len() as u16);
    bytes_mut_put_u16_le(b, extra_len);
    let ghost fixed = bytes_mut_view(*b);
    proof {
        lemma_record_lengths(name@, 0, 0, 0, modified.unix, 0, 0, 0, 0);
        assert(fixed =~= start + (le_u32(SIG_LOCAL) + le_u16(VERSION_NEEDED) + le_u16(GP_FLAGS)
            + le_u16(method_code(method)) + le_u16(modified.dos.time) + le_u16(modified.dos.date)
            + le_u32(0) + le_u32(0) + le_u32(0) + le_u16(name.len() as u16) + le_u16(extra_len)));
    }
    bytes_mut_put_slice(b, name);
    encode_timestamp_extra(modified.unix, b);
    proof {
        assert(bytes_mut_view(*b) =~= fixed + (name@ + timestamp_extra(modified.unix)));
        assert(bytes_mut_view(*b) =~= start + header_bytes(name@, modified, method));
    }
}

/// Data descriptor: 16 bytes, or 24 bytes when a size needs 8 bytes.
///
/// `sig(4) + crc32(4) + compressed_size(4|8) + uncompressed_size(4|8)`
///
/// The local header carries no ZIP64 extra field, so readers expect the
/// classic 4-byte sizes; the ZIP64 form is used only when a size needs it.
pub fn encode_data_descriptor(
    crc32: u32,
    compressed_size: u64,
    uncompressed_size: u64,
    b: &mut bytes::BytesMut,
)
    requires
        bytes_mut_view(*old(b)).len() + 24 <= buffer_limit(),
    ensures
        bytes_mut_view(*final(b)) == bytes_mut_view(*old(b)) + data_descriptor(
            crc32,
            compressed_size,
            uncompressed_size,
        ),
{
    let ghost start = bytes_mut_view(*b);
    bytes_mut_reserve(b, 24);
    bytes_mut_put_u32_le(b, SIG_DATA_DESC);
    bytes_mut_put_u32_le(b, crc32);
    if compressed_size <= MAX_U32_SIZE && uncompressed_size <= MAX_U32_SIZE {
        bytes_mut_put_u32_le(b, compressed_size as u32);
        bytes_mut_put_u32_le(b, uncompressed_size as u32);
    } else {
        bytes_mut_put_u64_le(b, compressed_size);
        bytes_mut_put_u64_le(b, uncompressed_size);
    }
    assert(bytes_mut_view(*b) =~= start + data_descriptor(
        crc32,
        compressed_size,
        uncompressed_size,
    ));
}

/// ZIP64 end-of-central-directory record (56 bytes, no extensible data).
///
/// Layout: `sig(4) + record_size(8) + vmb(2) + vne(2) + disk(4) + cd_disk(4)
///          + entries_disk(8) + entries_total(8) + cd_size(8) + cd_offset(8)`
pub fn encode_zip64_eocd(num_entries: u64, cd_size: u64, cd_offset: u64, b: &mut bytes::BytesMut)
    requires
        bytes_mut_view(*old(b)).len() + 56 <= buffer_limit(),
    ensures
        bytes_mut_view(*final(b)) == bytes_mut_view(*old(b)) + zip64_eocd(
            num_entries,
            cd_size,
            cd_offset,
        ),
{
    let ghost start = bytes_mut_view(*b);
    bytes_mut_reserve(b, 56);
    bytes_mut_put_u32_le(b, SIG_ZIP64_EOCD);
    bytes_mut_put_u64_le(b, 44);  // size of the remaining record (56 - 12)
    bytes_mut_put_u16_le(b, VERSION_MADE_BY);
    bytes_mut_put_u16_le(b, VERSION_NEEDED);
    bytes_mut_put_u32_le(b, 0);  // number of this disk
    bytes_mut_put_u32_le(b, 0);  // disk where the central directory starts
    bytes_mut_put_u64_le(b, num_entries);  // entries on this disk
    bytes_mut_put_u64_le(b, num_entries);  // entries in total
    bytes_mut_put_u64_le(b, cd_size);
    bytes_mut_put_u64_le(b, cd_offset);
    assert(bytes_mut_view(*b) =~= start + zip64_eocd(num_entries, cd_size, cd_offset));
}

/// ZIP64 end-of-central-directory locator (20 bytes), pointing back at the
/// ZIP64 record so extractors find it without scanning.
pub fn encode_zip64_eocd_locator(zip64_eocd_offset: u64, b: &mut bytes::BytesMut)
    requires
        bytes_mut_view(*old(b)).len() + 20 <= buffer_limit(),
    ensures
        bytes_mut_view(*final(b)) == bytes_mut_view(*old(b)) + zip64_locator(zip64_eocd_offset),
{
    let ghost start = bytes_mut_view(*b);
    bytes_mut_reserve(b, 20);
    bytes_mut_put_u32_le(b, SIG_ZIP64_EOCD_LOC);
    bytes_mut_put_u32_le(b, 0);  // disk holding the ZIP64 record
    bytes_mut_put_u64_le(b, zip64_eocd_offset);
    bytes_mut_put_u32_le(b, 1);  // total number of disks
    assert(bytes_mut_view(*b) =~= start + zip64_locator(zip64_eocd_offset));
}

/// Standard end-of-central-directory record (22 bytes). All fields carry
/// sentinels so that extractors use the ZIP64 record instead.
pub fn encode_eocd(b: &mut bytes::BytesMut)
    requires
        bytes_mut_view(*old(b)).len() + 22 <= buffer_limit(),
    ensures
        bytes_mut_view(*final(b)) == bytes_mut_view(*old(b)) + eocd(),
{
    let ghost start = bytes_mut_view(*b);
    bytes_mut_reserve(b, 22);
    bytes_mut_put_u32_le(b, SIG_EOCD);
    bytes_mut_put_u16_le(b, 0xFFFF);  // disk number
    bytes_mut_put_u16_le(b, 0xFFFF);  // disk where the central directory starts
    bytes_mut_put_u16_le(b, 0xFFFF);  // entries on this disk
    bytes_mut_put_u16_le(b, 0xFFFF);  // entries in total
    bytes_mut_put_u32_le(b, 0xFFFF_FFFF);  // central directory size
    bytes_mut_put_u32_le(b, 0xFFFF_FFFF);  // central directory offset
    bytes_mut_put_u16_le(b, 0);  // comment length
    assert(bytes_mut_view(*b) =~= start + eocd());
}

// ── Archive model ────────────────────────────────────────────────────────────

/// A finished entry as the central directory will describe it.
#[verifier::ext_equal]
pub struct EntryRecord {
    /// UTF-8 bytes of the entry's path.
    pub name: Seq<u8>,
    /// Last-modified times.
    pub times: FileTimes,
    /// Compression method.
    pub method: CompressionMethod,
    /// CRC-32 of the uncompressed data.
    pub crc32: u32,
    /// Bytes of file data that follow the local header.
    pub compressed_size: u64,
    /// Bytes of uncompressed data.
    pub uncompressed_size: u64,
    /// Offset of the entry's local header in the archive.
    pub local_offset: u64,
}

/// The file entry whose data is being fed.
#[verifier::ext_equal]
pub struct OpenEntry {
    /// UTF-8 bytes of the entry's path.
    pub name: Seq<u8>,
    /// Last-modified times.
    pub times: FileTimes,
    /// Compression method.
    pub method: CompressionMethod,
    /// The uncompressed data fed so far.
    pub data: Seq<u8>,
    /// Offset of the entry's local header in the archive.
    pub local_offset: u64,
}

/// What a [`ZipArchive`] holds: the finished entries in order, the number
/// of archive bytes accounted for so far, and the entry being fed.
#[verifier::ext_equal]
pub struct ArchiveView {
    /// Finished entries, in the order they were written.
    pub entries: Seq<EntryRecord>,
    /// Archive bytes accounted for: framing written to the buffers plus the
    /// file data the caller forwards.
    pub offset: u64,
    /// The entry being fed, if any.
    pub open: Option<OpenEntry>,
}

/// The local header of a finished entry.
pub open spec fn record_header(e: EntryRecord) -> Seq<u8> {
    header_bytes(e.name, e.times, e.method)
}

/// The data descriptor of a finished entry.
pub open spec fn record_descriptor(e: EntryRecord) -> Seq<u8> {
    data_descriptor(e.crc32, e.compressed_size, e.uncompressed_size)
}

/// The central directory header of a finished entry.
pub open spec fn record_central(e: EntryRecord) -> Seq<u8> {
    central_entry(
        e.name,
        method_code(e.method),
        e.times.dos().dos_time(),
        e.times.dos().dos_date(),
        e.times.unix(),
        e.crc32,
        e.compressed_size,
        e.uncompressed_size,
        e.local_offset,
    )
}

/// The central directory: the entries' central headers, in order.
pub open spec fn central_directory(entries: Seq<EntryRecord>) -> Seq<u8>
    decreases entries.len(),
{
    if entries.len() == 0 {
        Seq::<u8>::empty()
    } else {
        central_directory(entries.drop_last()) + record_central(entries.last())
    }
}

/// Bytes one entry takes in the archive: local header, file data, data
/// descriptor.
pub open spec fn record_len(e: EntryRecord) -> nat {
    local_header_len(e.name.len(), e.times.unix()) + e.compressed_size as nat + data_descriptor_len(
        e.compressed_size,
        e.uncompressed_size,
    )
}

/// Bytes the entries take, one after another.
pub open spec fn records_len(entries: Seq<EntryRecord>) -> nat
    decreases entries.len(),
{
    if entries.len() == 0 {
        0
    } else {
        records_len(entries.drop_last()) + record_len(entries.last())
    }
}

/// Bytes the open entry has accounted for: its local header, plus its data
/// when stored (compressed data is accounted for when the entry ends).
pub open spec fn open_len(o: OpenEntry) -> nat {
    local_header_len(o.name.len(), o.times.unix()) + if o.method == CompressionMethod::Stored {
        o.data.len()
    } else {
        0
    }
}

/// The archive's bookkeeping agrees with its layout: each entry's recorded
/// local offset is where its local header starts when the records are laid
/// end to end, an open entry starts right after them, and the offset is
/// the total so far.
pub open spec fn laid_out(v: ArchiveView) -> bool {
    &&& forall|i: int|
        0 <= i < v.entries.len() ==> #[trigger] v.entries[i].local_offset == records_len(
            v.entries.take(i),
        )
    &&& match v.open {
        None => v.offset == records_len(v.entries),
        Some(o) => o.local_offset == records_len(v.entries) && v.offset == o.local_offset
            + open_len(o),
    }
}

/// The bytes [`ZipArchive::finish`] writes: the central directory, the
/// ZIP64 end record (entry count, directory size, directory offset), the
/// ZIP64 locator pointing at that record, and the standard end record.
pub open spec fn trailer(v: ArchiveView) -> Seq<u8> {
    let cd = central_directory(v.entries);
    cd + zip64_eocd(v.entries.len() as u64, cd.len() as u64, v.offset) + zip64_locator(
        (v.offset + cd.len()) as u64,
    ) + eocd()
}

/// Bytes of the central directory.
pub open spec fn central_directory_len(entries: Seq<EntryRecord>) -> nat
    decreases entries.len(),
{
    if entries.len() == 0 {
        0
    } else {
        central_directory_len(entries.drop_last()) + central_entry_len(
            entries.last().name.len(),
            entries.last().times.unix(),
        )
    }
}

/// The central directory is as long as `central_directory_len` says.
pub proof fn lemma_central_directory_len(entries: Seq<EntryRecord>)
    ensures
        central_directory(entries).len() == central_directory_len(entries),
    decreases entries.len(),
{
    if entries.len() > 0 {
        lemma_central_directory_len(entries.drop_last());
        let e = entries.last();
        lemma_record_lengths(
            e.name,
            method_code(e.method),
            e.times.dos().dos_time(),
            e.times.dos().dos_date(),
            e.times.unix(),
            e.crc32,
            e.compressed_size,
            e.uncompressed_size,
            e.local_offset,
        );
    }
}

// ── Internal bookkeeping ──────────────────────────────────────────────────────

/// Central-directory metadata accumulated as each entry is completed.
struct CdEntry {
    path: ZipPath,
    modified: FileTimes,
    method: CompressionMethod,
    crc32: u32,
    compressed_size: u64,
    uncompressed_size: u64,
    /// Absolute byte offset of the entry's local header.
    local_offset: u64,
}

impl CdEntry {
    spec fn record(self) -> EntryRecord {
        EntryRecord {
            name: self.path.utf8(),
            times: self.modified,
            method: self.method,
            crc32: self.crc32,
            compressed_size: self.compressed_size,
            uncompressed_size: self.uncompressed_size,
            local_offset: self.local_offset,
        }
    }
}

/// Tracks the in-flight file entry whose content is being fed.
struct ActiveFile {
    path: ZipPath,
    modified: FileTimes,
    method: CompressionMethod,
    uncompressed_size: u64,
    local_offset: u64,
    crc: crc32fast::Hasher,
}

impl ActiveFile {
    spec fn open_entry(self) -> OpenEntry {
        OpenEntry {
            name: self.path.utf8(),
            times: self.modified,
            method: self.method,
            data: crc_hasher_input(self.crc),
            local_offset: self.local_offset,
        }
    }
}

/// Encode the fixed 46-byte part of a central directory file header.
fn encode_cd_fixed(
    name_len: u16,
    method: u16,
    time: u16,
    date: u16,
    extra_len: u16,
    crc32: u32,
    attributes: u32,
    b: &mut bytes::BytesMut,
)
    requires
        bytes_mut_view(*old(b)).len() + 46 <= buffer_limit(),
    ensures
        bytes_mut_view(*final(b)) == bytes_mut_view(*old(b)) + central_fixed(
            name_len,
            method,
            time,
            date,
            extra_len,
            crc32,
            attributes,
        ),
{
    let ghost start = bytes_mut_view(*b);
    bytes_mut_put_u32_le(b, SIG_CENTRAL);
    bytes_mut_put_u16_le(b, VERSION_MADE_BY);
    bytes_mut_put_u16_le(b, VERSION_NEEDED);
    bytes_mut_put_u16_le(b, GP_FLAGS);
    bytes_mut_put_u16_le(b, method);
    bytes_mut_put_u16_le(b, time);
    bytes_mut_put_u16_le(b, date);
    bytes_mut_put_u32_le(b, crc32);
    bytes_mut_put_u32_le(b, 0xFFFF_FFFF);  // compressed size: see ZIP64 extra
    bytes_mut_put_u32_le(b, 0xFFFF_FFFF);  // uncompressed size: see ZIP64 extra
    bytes_mut_put_u16_le(b, name_len);
    bytes_mut_put_u16_le(b, extra_len);
    bytes_mut_put_u16_le(b, 0);  // file comment length
    bytes_mut_put_u16_le(b, 0);  // disk number start
    bytes_mut_put_u16_le(b, 0);  // internal file attributes
    bytes_mut_put_u32_le(b, attributes);
    bytes_mut_put_u32_le(b, 0xFFFF_FFFF);  // local header offset: see ZIP64 extra
    assert(bytes_mut_view(*b) =~= start + central_fixed(
        name_len,
        method,
        time,
        date,
        extra_len,
        crc32,
        attributes,
    ));
}

/// Encode the ZIP64 extended information extra block of a central entry.
fn encode_zip64_extra(
    uncompressed: u64,
    compressed: u64,
    local_offset: u64,
    b: &mut bytes::BytesMut,
)
    requires
        bytes_mut_view(*old(b)).len() + 28 <= buffer_limit(),
    ensures
        bytes_mut_view(*final(b)) == bytes_mut_view(*old(b)) + zip64_extra(
            uncompressed,
            compressed,
            local_offset,
        ),
{
    let ghost start = bytes_mut_view(*b);
    bytes_mut_put_u16_le(b, TAG_ZIP64);
    bytes_mut_put_u16_le(b, 24);  // block payload length
    bytes_mut_put_u64_le(b, uncompressed);
    bytes_mut_put_u64_le(b, compressed);
    bytes_mut_put_u64_le(b, local_offset);
    assert(bytes_mut_view(*b) =~= start + zip64_extra(uncompressed, compressed, local_offset));
}

/// Encode one central directory file header: 46 bytes + name + 28 bytes of
/// ZIP64 extra + extended timestamp (if any).
///
/// The 32-bit size and offset fields carry `0xFFFF_FFFF` sentinels; the
/// real 64-bit values live in the ZIP64 extra block.
fn encode_cd_entry(e: &CdEntry, b: &mut bytes::BytesMut)
    requires
        e.path.utf8().len() <= MAX_NAME_LEN,
        bytes_mut_view(*old(b)).len() + central_entry_len(e.path.utf8().len(), e.modified.unix)
            <= buffer_limit(),
    ensures
        bytes_mut_view(*final(b)) == bytes_mut_view(*old(b)) + record_central(e.record()),
{
    let ghost start = bytes_mut_view(*b);
    let name = e.path.as_str().as_bytes();
    let external_attr: u32 = if e.path.ends_with_slash() {
        DIR_ATTRIBUTES
    } else {
        FILE_ATTRIBUTES
    };
    let extra_len: u16 = match e.modified.unix {
        Some(_) => CD_ZIP64_EXTRA_LEN + 9,
        None => CD_ZIP64_EXTRA_LEN,
    };
    bytes_mut_reserve(b, 46 + name.len() + extra_len as usize);
    encode_cd_fixed(
        name.len() as u16,
        e.method.code(),
        e.modified.dos.time,
        e.modified.dos.date,
        extra_len,
        e.crc32,
        external_attr,
        b,
    );
    bytes_mut_put_slice(b, name);
    encode_zip64_extra(e.uncompressed_size, e.compressed_size, e.local_offset, b);
    encode_timestamp_extra(e.modified.unix, b);
    proof {
        lemma_record_lengths(name@, 0, 0, 0, e.modified.unix, 0, 0, 0, 0);
        assert(external_attr == external_attributes(name@));
        assert(bytes_mut_view(*b) =~= start + record_central(e.record()));
    }
}

// ── Effects of the archive operations on the model ─────────────────────────

/// The archive after a file entry is started at the current offset.
pub open spec fn after_start(
    v: ArchiveView,
    name: Seq<u8>,
    times: FileTimes,
    method: CompressionMethod,
) -> ArchiveView {
    ArchiveView {
        entries: v.entries,
        offset: (v.offset + local_header_len(name.len(), times.unix())) as u64,
        open: Some(
            OpenEntry { name, times, method, data: Seq::<u8>::empty(), local_offset: v.offset },
        ),
    }
}

/// The archive after `data` is fed to the open entry: the data is
/// appended, and for a stored entry the offset moves past it.
pub open spec fn after_data(v: ArchiveView, data: Seq<u8>) -> ArchiveView {
    let o = v.open.unwrap();
    ArchiveView {
        entries: v.entries,
        offset: if o.method == CompressionMethod::Stored {
            (v.offset + data.len()) as u64
        } else {
            v.offset
        },
        open: Some(
            OpenEntry {
                name: o.name,
                times: o.times,
                method: o.method,
                data: o.data + data,
                local_offset: o.local_offset,
            },
        ),
    }
}

/// The record of the open entry once `compressed_size` bytes of its data
/// are in the archive.
pub open spec fn closed_record(o: OpenEntry, compressed_size: u64) -> EntryRecord {
    EntryRecord {
        name: o.name,
        times: o.times,
        method: o.method,
        crc32: crc32_of(o.data),
        compressed_size,
        uncompressed_size: o.data.len() as u64,
        local_offset: o.local_offset,
    }
}

/// The archive after the open entry ends with `compressed_size` bytes of
/// data in the archive, of which `written` bytes were not yet accounted
/// for: the record is appended and the offset moves past the unaccounted
/// data and the descriptor.
pub open spec fn after_close(v: ArchiveView, compressed_size: u64, written: u64) -> ArchiveView {
    let o = v.open.unwrap();
    ArchiveView {
        entries: v.entries.push(closed_record(o, compressed_size)),
        offset: (v.offset + written + data_descriptor_len(
            compressed_size,
            o.data.len() as u64,
        )) as u64,
        open: None,
    }
}

/// The data descriptor that ends the open entry.
pub open spec fn closing_descriptor(v: ArchiveView, compressed_size: u64) -> Seq<u8> {
    let o = v.open.unwrap();
    data_descriptor(crc32_of(o.data), compressed_size, o.data.len() as u64)
}

/// The record of a directory entry at `local_offset`.
pub open spec fn directory_record(
    name: Seq<u8>,
    times: FileTimes,
    local_offset: u64,
) -> EntryRecord {
    EntryRecord {
        name,
        times,
        method: CompressionMethod::Stored,
        crc32: 0,
        compressed_size: 0,
        uncompressed_size: 0,
        local_offset,
    }
}

/// The archive after a directory entry is added at the current offset.
pub open spec fn after_directory(v: ArchiveView, name: Seq<u8>, times: FileTimes) -> ArchiveView {
    ArchiveView {
        entries: v.entries.push(directory_record(name, times, v.offset)),
        offset: (v.offset + local_header_len(name.len(), times.unix()) + 16) as u64,
        open: None,
    }
}

/// The bytes that add a directory entry: its local header and an empty
/// data descriptor.
pub open spec fn directory_bytes(name: Seq<u8>, times: FileTimes) -> Seq<u8> {
    header_bytes(name, times, CompressionMethod::Stored) + data_descriptor(0, 0, 0)
}

/// The archive after the end records are written: the offset moves past
/// the central directory.
pub open spec fn after_finish(v: ArchiveView) -> ArchiveView {
    ArchiveView {
        entries: v.entries,
        offset: (v.offset + central_directory_len(v.entries)) as u64,
        open: None,
    }
}

// ── ZipArchive ────────────────────────────────────────────────────────────────

/// Low-level, sans-IO ZIP64 archive encoder.
///
/// Encodes ZIP structures into a caller-supplied `BytesMut` buffer. This
/// gives full control over I/O and compression: bring your own DEFLATE,
/// Zstandard, or any other compressor.
///
/// # Lifecycle
///
/// 1. For each **stored** (uncompressed) file: [`start_file`](Self::start_file) →
///    [`file_data`](Self::file_data) → [`end_file`](Self::end_file)
/// 2. For each **compressed** file: [`start_file`](Self::start_file) →
///    [`file_data`](Self::file_data) →
///    [`end_file_compressed`](Self::end_file_compressed)
/// 3. For each directory: [`add_directory`](Self::add_directory)
/// 4. When done: [`finish`](Self::finish)
///
/// The offset the archive keeps counts every byte of the archive so far:
/// each call moves it by exactly the bytes it appends to the buffer, plus,
/// for stored entries, the data fed, and for compressed entries the
/// compressed size given at the end.
pub struct ZipArchive {
    cd: Vec<CdEntry>,
    offset: u64,
    active: Option<ActiveFile>,
}

impl View for ZipArchive {
    type V = ArchiveView;

    closed spec fn view(&self) -> ArchiveView {
        ArchiveView {
            entries: self.cd@.map_values(|c: CdEntry| c.record()),
            offset: self.offset,
            open: match self.active {
                Some(a) => Some(a.open_entry()),
                None => None,
            },
        }
    }
}

impl ZipArchive {
    /// Internal consistency: names fit the 16-bit length field, and the
    /// open entry's size counter matches the bytes fed to its digest.
    pub closed spec fn wf(&self) -> bool {
        &&& forall|i: int|
            0 <= i < self.cd@.len() ==> #[trigger] self.cd@[i].path.utf8().len() <= MAX_NAME_LEN
        &&& self.active matches Some(a) ==> {
            &&& a.uncompressed_size == crc_hasher_input(a.crc).len()
            &&& a.path.utf8().len() <= MAX_NAME_LEN
        }
    }

    /// An empty archive.
    pub fn new() -> (a: Self)
        ensures
            a.wf(),
            a@.entries == Seq::<EntryRecord>::empty(),
            a@.offset == 0,
            a@.open is None,
            laid_out(a@),
    {
        let a = ZipArchive { cd: Vec::new(), offset: 0, active: None };
        assert(a@.entries =~= Seq::<EntryRecord>::empty());
        a
    }

    /// The archive bytes accounted for so far.
    pub fn offset(&self) -> (o: u64)
        ensures
            o == self@.offset,
    {
        self.offset
    }

    /// The number of uncompressed bytes fed to the open entry, if any.
    pub fn open_size(&self) -> (n: Option<u64>)
        requires
            self.wf(),
        ensures
            match self@.open {
                Some(o) => n == Some(o.data.len() as u64),
                None => n is None,
            },
    {
        match &self.active {
            Some(a) => Some(a.uncompressed_size),
            None => None,
        }
    }

    /// The size of the central directory [`finish`](Self::finish) would
    /// write, or `None` if it does not fit in a `u64`.
    pub fn central_directory_size(&self) -> (n: Option<u64>)
        requires
            self.wf(),
        ensures
            match n {
                Some(n) => n == central_directory_len(self@.entries),
                None => central_directory_len(self@.entries) > u64::MAX,
            },
    {
        let ghost entries = self@.entries;
        let len = self.cd.len();
        let mut total: u64 = 0;
        let mut i: usize = 0;
        while i < len
            invariant
                len == self.cd@.len(),
                i <= len,
                self.wf(),
                entries == self@.entries,
                total == central_directory_len(entries.take(i as int)),
            decreases len - i,
        {
            proof {
                assert(entries.take(i + 1).drop_last() =~= entries.take(i as int));
                assert(entries[i as int] == self.cd@[i as int].record());
                assert(self.cd@[i as int].path.utf8().len() <= MAX_NAME_LEN);
            }
            let e = &self.cd[i];
            let name_len = e.path.as_str().len() as u64;
            let extra: u64 = match e.modified.unix {
                Some(_) => 9,
                None => 0,
            };
            let entry_len = 74 + name_len + extra;
            if total > u64::MAX - entry_len {
                proof {
                    lemma_central_directory_len_prefix(entries, i + 1);
                }
                return None;
            }
            total = total + entry_len;
            i = i + 1;
        }
        proof {
            assert(entries.take(len as int) =~= entries);
        }
        Some(total)
    }

    /// Encode a local file header into `buf` and begin tracking the entry.
    ///
    /// For [`Stored`](CompressionMethod::Stored) entries, feed data via
    /// [`file_data`](Self::file_data), then call [`end_file`](Self::end_file).
    ///
    /// For compressed entries, feed the *uncompressed* data via
    /// [`file_data`](Self::file_data) (for CRC and uncompressed size), write
    /// the compressed bytes to the output yourself, then call
    /// [`end_file_compressed`](Self::end_file_compressed) with the
    /// compressed size.
    ///
    /// A previous file must have been ended first.
    pub fn start_file(
        &mut self,
        path: ZipPath,
        modified: FileTimes,
        method: CompressionMethod,
        buf: &mut bytes::BytesMut,
    )
        requires
            old(self).wf(),
            old(self)@.open is None,
            old(self)@.offset + local_header_len(path.utf8().len(), modified.unix()) <= u64::MAX,
            bytes_mut_view(*old(buf)).len() + local_header_len(path.utf8().len(), modified.unix())
                <= buffer_limit(),
        ensures
            final(self).wf(),
            bytes_mut_view(*final(buf)) == bytes_mut_view(*old(buf)) + header_bytes(
                path.utf8(),
                modified,
                method,
            ),
            final(self)@ == after_start(old(self)@, path.utf8(), modified, method),
            final(self)@.offset == old(self)@.offset + bytes_mut_view(*final(buf)).len()
                - bytes_mut_view(*old(buf)).len(),
            laid_out(old(self)@) ==> laid_out(final(self)@),
    {
        proof {
            use_type_invariant(&path);
            lemma_record_lengths(path.utf8(), 0, 0, 0, modified.unix(), 0, 0, 0, 0);
        }
        let local_offset = self.offset;
        let before = bytes_mut_len(buf);
        encode_local_header(path.as_str(), modified, method, buf);
        let after = bytes_mut_len(buf);
        self.offset = self.offset + (after - before) as u64;
        self.active = Some(
            ActiveFile {
                path,
                modified,
                method,
                uncompressed_size: 0,
                local_offset,
                crc: crc_hasher_new(),
            },
        );
        assert(self@.entries =~= old(self)@.entries);
    }

    /// Feed a chunk of **uncompressed** file data for CRC-32 computation.
    ///
    /// For [`Stored`](CompressionMethod::Stored) entries this also advances
    /// the archive offset, since the raw bytes are written to the output.
    ///
    /// The caller is responsible for forwarding the actual bytes to the
    /// output; this method only updates internal bookkeeping. A file must
    /// be open.
    pub fn file_data(&mut self, data: &[u8])
        requires
            old(self).wf(),
            old(self)@.open is Some,
            old(self)@.open.unwrap().data.len() + data@.len() <= u64::MAX,
            old(self)@.open.unwrap().method == CompressionMethod::Stored ==> old(self)@.offset
                + data@.len() <= u64::MAX,
        ensures
            final(self).wf(),
            final(self)@ == after_data(old(self)@, data@),
            laid_out(old(self)@) ==> laid_out(final(self)@),
    {
        let mut stored = false;
        match &mut self.active {
            Some(active) => {
                crc_hasher_update(&mut active.crc, data);
                active.uncompressed_size = active.uncompressed_size + data.len() as u64;
                stored = active.method == CompressionMethod::Stored;
            },
            None => {},
        }
        if stored {
            self.offset = self.offset + data.len() as u64;
        }
        assert(self@.entries =~= old(self)@.entries);
    }

    /// Finalize a [`Stored`](CompressionMethod::Stored) file entry.
    ///
    /// Uses the internally computed CRC-32 and sets the compressed size
    /// equal to the uncompressed size. A file must be open.
    #[verifier::rlimit(40)]
    pub fn end_file(&mut self, buf: &mut bytes::BytesMut)
        requires
            old(self).wf(),
            old(self)@.open is Some,
            old(self)@.offset + data_descriptor_len(
                old(self)@.open.unwrap().data.len() as u64,
                old(self)@.open.unwrap().data.len() as u64,
            ) <= u64::MAX,
            bytes_mut_view(*old(buf)).len() + 24 <= buffer_limit(),
        ensures
            final(self).wf(),
            bytes_mut_view(*final(buf)) == bytes_mut_view(*old(buf)) + closing_descriptor(
                old(self)@,
                old(self)@.open.unwrap().data.len() as u64,
            ),
            final(self)@ == after_close(
                old(self)@,
                old(self)@.open.unwrap().data.len() as u64,
                0,
            ),
            final(self)@.offset == old(self)@.offset + bytes_mut_view(*final(buf)).len()
                - bytes_mut_view(*old(buf)).len(),
            laid_out(old(self)@) && old(self)@.open.unwrap().method == CompressionMethod::Stored
                ==> laid_out(final(self)@),
    {
        let ghost old_view = self@;
        let active = self.active.take().unwrap();
        let crc32 = crc_hasher_finalize(active.crc);
        let size = active.uncompressed_size;

        let before = bytes_mut_len(buf);
        encode_data_descriptor(crc32, size, size, buf);
        let after = bytes_mut_len(buf);
        proof {
            lemma_record_lengths(Seq::<u8>::empty(), 0, 0, 0, None, crc32, size, size, 0);
        }
        self.offset = self.offset + (after - before) as u64;

        let entry = CdEntry {
            path: active.path,
            modified: active.modified,
            method: active.method,
            crc32,
            compressed_size: size,
            uncompressed_size: size,
            local_offset: active.local_offset,
        };
        let ghost rec = entry.record();
        self.cd.push(entry);
        proof {
            assert(self@.entries =~= old_view.entries.push(rec));
            if laid_out(old_view) {
                lemma_push_record(old_view.entries, rec);
            }
        }
    }

    /// Finalize a compressed file entry.
    ///
    /// Uses the internally computed CRC-32 (from the uncompressed data fed
    /// via [`file_data`](Self::file_data)). The caller provides
    /// `compressed_size`: the number of compressed bytes it wrote to the
    /// output. A file must be open.
    #[verifier::rlimit(40)]
    pub fn end_file_compressed(&mut self, compressed_size: u64, buf: &mut bytes::BytesMut)
        requires
            old(self).wf(),
            old(self)@.open is Some,
            old(self)@.offset + compressed_size + data_descriptor_len(
                compressed_size,
                old(self)@.open.unwrap().data.len() as u64,
            ) <= u64::MAX,
            bytes_mut_view(*old(buf)).len() + 24 <= buffer_limit(),
        ensures
            final(self).wf(),
            bytes_mut_view(*final(buf)) == bytes_mut_view(*old(buf)) + closing_descriptor(
                old(self)@,
                compressed_size,
            ),
            final(self)@ == after_close(old(self)@, compressed_size, compressed_size),
            final(self)@.offset == old(self)@.offset + compressed_size + bytes_mut_view(
                *final(buf),
            ).len() - bytes_mut_view(*old(buf)).len(),
            laid_out(old(self)@) && old(self)@.open.unwrap().method != CompressionMethod::Stored
                ==> laid_out(final(self)@),
    {
        let ghost old_view = self@;
        let active = self.active.take().unwrap();
        let crc32 = crc_hasher_finalize(active.crc);

        self.offset = self.offset + compressed_size;
        let before = bytes_mut_len(buf);
        encode_data_descriptor(crc32, compressed_size, active.uncompressed_size, buf);
        let after = bytes_mut_len(buf);
        proof {
            lemma_record_lengths(
                Seq::<u8>::empty(),
                0,
                0,
                0,
                None,
                crc32,
                compressed_size,
                active.uncompressed_size,
                0,
            );
        }
        self.offset = self.offset + (after - before) as u64;

        let entry = CdEntry {
            path: active.path,
            modified: active.modified,
            method: active.method,
            crc32,
            compressed_size,
            uncompressed_size: active.uncompressed_size,
            local_offset: active.local_offset,
        };
        let ghost rec = entry.record();
        self.cd.push(entry);
        proof {
            assert(self@.entries =~= old_view.entries.push(rec));
            if laid_out(old_view) {
                lemma_push_record(old_view.entries, rec);
            }
        }
    }

    /// Encode a directory entry (local header + data descriptor) into
    /// `buf`. No file may be open.
    pub fn add_directory(&mut self, path: ZipPath, modified: FileTimes, buf: &mut bytes::BytesMut)
        requires
            old(self).wf(),
            old(self)@.open is None,
            old(self)@.offset + local_header_len(path.utf8().len(), modified.unix()) + 16
                <= u64::MAX,
            bytes_mut_view(*old(buf)).len() + local_header_len(path.utf8().len(), modified.unix())
                + 24 <= buffer_limit(),
        ensures
            final(self).wf(),
            bytes_mut_view(*final(buf)) == bytes_mut_view(*old(buf)) + directory_bytes(
                path.utf8(),
                modified,
            ),
            final(self)@ == after_directory(old(self)@, path.utf8(), modified),
            final(self)@.offset == old(self)@.offset + bytes_mut_view(*final(buf)).len()
                - bytes_mut_view(*old(buf)).len(),
            laid_out(old(self)@) ==> laid_out(final(self)@),
    {
        proof {
            use_type_invariant(&path);
            lemma_record_lengths(path.utf8(), 0, 0, 0, modified.unix(), 0, 0, 0, 0);
        }
        let ghost old_view = self@;
        let local_offset = self.offset;
        let before = bytes_mut_len(buf);
        encode_local_header(path.as_str(), modified, CompressionMethod::Stored, buf);
        encode_data_descriptor(0, 0, 0, buf);
        let after = bytes_mut_len(buf);
        self.offset = self.offset + (after - before) as u64;

        let entry = CdEntry {
            path,
            modified,
            method: CompressionMethod::Stored,
            crc32: 0,
            compressed_size: 0,
            uncompressed_size: 0,
            local_offset,
        };
        let ghost rec = entry.record();
        self.cd.push(entry);
        proof {
            assert(self@.entries =~= old_view.entries.push(rec));
            assert(bytes_mut_view(*buf) =~= bytes_mut_view(*old(buf)) + directory_bytes(
                path.utf8(),
                modified,
            ));
            if laid_out(old_view) {
                lemma_push_record(old_view.entries, rec);
            }
        }
    }

    /// Encode the central directory, ZIP64 end record, locator, and
    /// standard end record into `buf`. This finalizes the archive. No file
    /// may be open.
    #[verifier::rlimit(40)]
    pub fn finish(&mut self, buf: &mut bytes::BytesMut)
        requires
            old(self).wf(),
            old(self)@.open is None,
            old(self)@.offset + central_directory_len(old(self)@.entries) <= u64::MAX,
            bytes_mut_view(*old(buf)).len() + central_directory_len(old(self)@.entries) + 98
                <= buffer_limit(),
        ensures
            final(self).wf(),
            bytes_mut_view(*final(buf)) == bytes_mut_view(*old(buf)) + trailer(old(self)@),
            final(self)@ == after_finish(old(self)@),
    {
        let ghost start = bytes_mut_view(*buf);
        let ghost entries = self@.entries;
        proof {
            lemma_central_directory_len(entries);
        }
        let cd_start = self.offset;
        let before = bytes_mut_len(buf);
        let n = self.cd.len();
        let mut i: usize = 0;
        while i < n
            invariant
                n == self.cd@.len(),
                i <= n,
                self.wf(),
                entries == self@.entries,
                start.len() + central_directory_len(entries) + 98 <= buffer_limit(),
                bytes_mut_view(*buf) == start + central_directory(entries.take(i as int)),
            decreases n - i,
        {
            proof {
                assert(entries.take(i + 1).drop_last() =~= entries.take(i as int));
                lemma_central_directory_len(entries.take(i + 1));
                lemma_central_directory_len_prefix(entries, i + 1);
                assert(entries[i as int] == self.cd@[i as int].record());
            }
            encode_cd_entry(&self.cd[i], buf);
            i = i + 1;
        }
        proof {
            assert(entries.take(n as int) =~= entries);
        }
        let after = bytes_mut_len(buf);
        let cd_size = (after - before) as u64;
        self.offset = self.offset + cd_size;

        let zip64_eocd_offset = self.offset;
        encode_zip64_eocd(self.cd.len() as u64, cd_size, cd_start, buf);
        encode_zip64_eocd_locator(zip64_eocd_offset, buf);
        encode_eocd(buf);
        proof {
            assert(bytes_mut_view(*buf) =~= start + trailer(old(self)@));
        }
    }
}

impl Default for ZipArchive {
    /// An empty archive.
    fn default() -> (a: Self)
        ensures
            a.wf(),
            a@.entries == Seq::<EntryRecord>::empty(),
            a@.offset == 0,
            a@.open is None,
    {
        Self::new()
    }
}

/// A prefix of the entries has a central directory no longer than all of
/// them.
proof fn lemma_central_directory_len_prefix(entries: Seq<EntryRecord>, k: int)
    requires
        0 <= k <= entries.len(),
    ensures
        central_directory_len(entries.take(k)) <= central_directory_len(entries),
    decreases entries.len(),
{
    if k < entries.len() {
        lemma_central_directory_len_prefix(entries.drop_last(), k);
        assert(entries.drop_last().take(k) =~= entries.take(k));
    } else {
        assert(entries.take(k) =~= entries);
    }
}

/// Appending a record that starts where the records end keeps every
/// recorded local offset at the start of its record.
proof fn lemma_push_record(entries: Seq<EntryRecord>, rec: EntryRecord)
    requires
        forall|i: int|
            0 <= i < entries.len() ==> #[trigger] entries[i].local_offset == records_len(
                entries.take(i),
            ),
        rec.local_offset == records_len(entries),
    ensures
        forall|i: int|
            0 <= i < entries.push(rec).len() ==> #[trigger] entries.push(rec)[i].local_offset
                == records_len(entries.push(rec).take(i)),
        records_len(entries.push(rec)) == records_len(entries) + record_len(rec),
{
    let pushed = entries.push(rec);
    assert(pushed.drop_last() =~= entries);
    assert forall|i: int| 0 <= i < pushed.len() implies #[trigger] pushed[i].local_offset
        == records_len(pushed.take(i)) by {
        if i < entries.len() {
            assert(pushed.take(i) =~= entries.take(i));
        } else {
            assert(pushed.take(i) =~= entries);
        }
    }
}

/// Laying out more entries never shortens the prefix before them.
pub proof fn lemma_records_len_prefix(entries: Seq<EntryRecord>, i: int, j: int)
    requires
        0 <= i <= j <= entries.len(),
    ensures
        records_len(entries.take(i)) <= records_len(entries.take(j)),
    decreases j - i,
{
    if i < j {
        lemma_records_len_prefix(entries, i, j - 1);
        assert(entries.take(j).drop_last() =~= entries.take(j - 1));
    }
}

/// In a laid-out archive no two entry records overlap: each entry's local
/// header, data and descriptor end at or before the next entry's local
/// header starts.
pub proof fn law_records_do_not_overlap(v: ArchiveView, i: int, j: int)
    requires
        laid_out(v),
        0 <= i < j < v.entries.len(),
    ensures
        v.entries[i].local_offset + record_len(v.entries[i]) <= v.entries[j].local_offset,
{
    let es = v.entries;
    assert(es.take(i + 1).drop_last() =~= es.take(i));
    assert(es.take(i + 1).last() == es[i]);
    lemma_records_len_prefix(es, i + 1, j);
    assert(es[i].local_offset == records_len(es.take(i)));
    assert(es[j].local_offset == records_len(es.take(j)));
}

/// When no entry is open, the end records of a laid-out archive point at
/// the right places: the ZIP64 end record holds the entry count, the
/// central directory's length and its offset, which is where the entry
/// records end; the locator holds the offset of the ZIP64 end record,
/// which follows the central directory.
pub proof fn law_trailer_locates_central_directory(v: ArchiveView)
    requires
        laid_out(v),
        v.open is None,
    ensures
        trailer(v) == central_directory(v.entries) + zip64_eocd(
            v.entries.len() as u64,
            central_directory_len(v.entries) as u64,
            records_len(v.entries) as u64,
        ) + zip64_locator((records_len(v.entries) + central_directory_len(v.entries)) as u64)
            + eocd(),
{
    lemma_central_directory_len(v.entries);
}

/// The path rules: a name is accepted exactly when its UTF-8 form has at
/// most 65,535 bytes, holds no NUL byte, backslash or colon, does not start
/// with `/`, and has no component that is exactly `..` (two dots with a
/// `/` or an end of the name on each side). Other names that start with a
/// dot, or hold dots, such as `.gitignore`, `a/.b/c` or `...`, are accepted.
pub proof fn law_path_rules(b: Seq<u8>)
    ensures
        path_problem(b) is None <==> {
            &&& b.len() <= 65535
            &&& forall|k: int| 0 <= k < b.len() ==> b[k] != 0u8 && b[k] != 0x5Cu8 && b[k] != 0x3Au8
            &&& !(b.len() > 0 && b[0] == 0x2Fu8)
            &&& !exists|i: int|
                0 <= i && i + 2 <= b.len() && (i == 0 || b[i - 1] == 0x2Fu8) && #[trigger] b.subrange(
                    i,
                    i + 2,
                ) == seq![0x2Eu8, 0x2Eu8] && (i + 2 == b.len() || b[i + 2] == 0x2Fu8)
        },
{
    assert(path_problem(b) is None ==> !exists|i: int|
        0 <= i && i + 2 <= b.len() && (i == 0 || b[i - 1] == 0x2Fu8) && #[trigger] b.subrange(
            i,
            i + 2,
        ) == seq![0x2Eu8, 0x2Eu8] && (i + 2 == b.len() || b[i + 2] == 0x2Fu8)) by {
        if path_problem(b) is None {
            assert forall|i: int|
                0 <= i && i + 2 <= b.len() && (i == 0 || b[i - 1] == 0x2Fu8) && (i + 2 == b.len()
                    || b[i + 2] == 0x2Fu8) implies #[trigger] b.subrange(i, i + 2) != seq![
                0x2Eu8,
                0x2Eu8,
            ] by {
                if b.subrange(i, i + 2) == seq![0x2Eu8, 0x2Eu8] {
                    assert(b.subrange(i, i + 2)[0] == b[i]);
                    assert(b.subrange(i, i + 2)[1] == b[i + 1]);
                    assert(parent_component_at(b, i));
                }
            }
        }
    }
    if has_parent_component(b) {
        let i = choose|i: int| parent_component_at(b, i);
        assert(b.subrange(i, i + 2) =~= seq![0x2Eu8, 0x2Eu8]);
    }
    assert((forall|k: int| 0 <= k < b.len() ==> b[k] != 0u8 && b[k] != 0x5Cu8 && b[k] != 0x3Au8)
        ==> !b.contains(0u8) && !b.contains(0x5Cu8) && !b.contains(0x3Au8));
}

/// Validating a path either accepts it with its text unchanged or rejects
/// it with an error that gives back exactly the path that was passed.
pub proof fn law_rejected_path_is_returned(path: Cow<'static, str>)
    ensures
        ZipPath::accept(path) matches Ok(p) ==> p@ == path@,
        ZipPath::accept(path) matches Err(e) ==> e.rejected() == path,
        ZipPath::accept(path) is Ok <==> path_problem(encode_utf8(path@)) is None,
{
}

} // verus!
