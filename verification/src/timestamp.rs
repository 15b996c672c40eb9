//! Dates and times of documents.
//!
//! A timestamp is a date and a time of day without a time zone. It is kept
//! as the seconds since 1970-01-01 00:00:00 and the nanoseconds within the
//! second, which order timestamps as the calendar does. Reading one from
//! text and writing it back is done by chrono.
//!
//! A timestamp is written as `2015-09-18 23:56:04`, with a fraction of a
//! second behind it where there is one. It is read in that form and in the
//! form with a `T` between the date and the time.

use vstd::prelude::*;

verus! {

/// chrono's error for a text that spells no date and time.
#[verifier::external_type_specification]
#[verifier::external_body]
pub struct ExParseError(chrono::ParseError);

/// The form in which a timestamp is written, in chrono's notation.
pub const WRITTEN_FORM: &'static str = "%Y-%m-%d %H:%M:%S%.f";

/// The seconds and nanoseconds of the date and time that a text spells,
/// in the form `2015-09-18T23:56:04`; `None` where it spells none.
pub uninterp spec fn datetime_of(text: Seq<char>) -> Option<(int, int)>;

/// The seconds and nanoseconds of the date and time that a text spells in
/// a form given in chrono's notation; `None` where it spells none.
pub uninterp spec fn datetime_in(text: Seq<char>, form: Seq<char>) -> Option<(int, int)>;

/// The text of the date and time that lies so many seconds and nanoseconds
/// after the start of 1970, in the form `2015-09-18 23:56:04`; `None`
/// where there is no such date and time.
pub uninterp spec fn datetime_text(secs: int, nanos: int) -> Option<Seq<char>>;

/// The seconds and nanoseconds of the date and time that a text spells, in
/// the form in which timestamps are written or in the form with a `T`.
pub open spec fn spelled(text: Seq<char>) -> Option<(int, int)> {
    match datetime_in(text, WRITTEN_FORM@) {
        Some(pair) => Some(pair),
        None => datetime_of(text),
    }
}

/// `str::parse::<chrono::NaiveDateTime>`: on success, the parsed value as
/// `DateTime::timestamp` and `DateTime::timestamp_subsec_nanos` give it in
/// UTC. chrono promises that `DateTime::from_timestamp` takes such a pair
/// back, so it has a text.
#[verifier::external_body]
fn read_datetime(text: &str) -> (parsed: Result<(i64, u32), chrono::ParseError>)
    ensures
        match parsed {
            Ok(pair) => datetime_of(text@) == Some((pair.0 as int, pair.1 as int))
                && datetime_text(pair.0 as int, pair.1 as int) is Some,
            Err(_) => datetime_of(text@) is None,
        },
{
    text.parse::<chrono::NaiveDateTime>().map(
        |datetime| (datetime.and_utc().timestamp(), datetime.and_utc().timestamp_subsec_nanos()),
    )
}

/// `chrono::NaiveDateTime::parse_from_str`: on success, the parsed value as
/// `DateTime::timestamp` and `DateTime::timestamp_subsec_nanos` give it in
/// UTC. chrono promises that `DateTime::from_timestamp` takes such a pair
/// back, so it has a text. A form that chrono cannot read is an error like
/// a text that does not fit the form.
#[verifier::external_body]
fn read_datetime_in(text: &str, form: &str) -> (parsed: Result<(i64, u32), chrono::ParseError>)
    ensures
        match parsed {
            Ok(pair) => datetime_in(text@, form@) == Some((pair.0 as int, pair.1 as int))
                && datetime_text(pair.0 as int, pair.1 as int) is Some,
            Err(_) => datetime_in(text@, form@) is None,
        },
{
    chrono::NaiveDateTime::parse_from_str(text, form).map(
        |datetime| (datetime.and_utc().timestamp(), datetime.and_utc().timestamp_subsec_nanos()),
    )
}

/// `chrono::NaiveDateTime::default`, which chrono documents as the first
/// of January 1970 at 00:00:00: the pair of zeros, as `DateTime::timestamp`
/// and `DateTime::timestamp_subsec_nanos` give it in UTC, and so a pair
/// that has a text.
#[verifier::external_body]
fn default_datetime() -> (pair: (i64, u32))
    ensures
        pair.0 == 0,
        pair.1 == 0,
        datetime_text(pair.0 as int, pair.1 as int) is Some,
{
    let datetime = chrono::NaiveDateTime::default().and_utc();
    (datetime.timestamp(), datetime.timestamp_subsec_nanos())
}

/// `chrono::DateTime::from_timestamp`, written out as `NaiveDateTime`'s
/// `Display` writes it: the text, or `None` where the pair is out of range.
/// chrono documents that `Display` writes the form `%Y-%m-%d %H:%M:%S%.f`
/// and that `from_timestamp` and the pair round-trip. Its parser reads in
/// that form what `Display` writes: the year with the sign that a year
/// outside 0 to 9999 is written with, the second 60 of a leap second, and
/// the three, six or nine digits of the fraction. So the text spells the
/// pair in that form.
#[verifier::external_body]
fn write_datetime(secs: i64, nanos: u32) -> (text: Option<String>)
    ensures
        text.deep_view() == datetime_text(secs as int, nanos as int),
        text matches Some(written) ==> datetime_in(written@, WRITTEN_FORM@) == Some(
            (secs as int, nanos as int),
        ),
{
    chrono::DateTime::from_timestamp(secs, nanos).map(|datetime| datetime.naive_utc().to_string())
}

/// A date and a time of day.
#[derive(Clone, Copy, Debug)]
pub struct Timestamp {
    secs: i64,
    nanos: u32,
}

impl View for Timestamp {
    type V = (int, int);

    /// The seconds since the start of 1970 and the nanoseconds within the second.
    closed spec fn view(&self) -> (int, int) {
        (self.secs as int, self.nanos as int)
    }
}

/// Whether the first pair is not later than the second.
pub open spec fn not_after(a: (int, int), b: (int, int)) -> bool {
    a.0 < b.0 || (a.0 == b.0 && a.1 <= b.1)
}

impl Timestamp {
    /// Every timestamp is a date and time that can be written out.
    #[verifier::type_invariant]
    closed spec fn in_range(self) -> bool {
        datetime_text(self.secs as int, self.nanos as int) is Some
    }

    /// The text of this timestamp.
    pub open spec fn text(self) -> Seq<char> {
        datetime_text(self@.0, self@.1)->0
    }

    /// The start of 1970, which stands for "no date given".
    pub fn epoch() -> (timestamp: Timestamp)
        ensures
            timestamp@ == (0int, 0int),
    {
        let pair = default_datetime();
        Timestamp { secs: pair.0, nanos: pair.1 }
    }

    /// Reads a timestamp written as `2015-09-18 23:56:04` or as
    /// `2015-09-18T23:56:04`, with a fraction of a second after it if there
    /// is one.
    pub fn parse(text: &str) -> (timestamp: Option<Timestamp>)
        ensures
            timestamp.deep_view() == spelled(text@),
    {
        match read_datetime_in(text, WRITTEN_FORM) {
            Ok(pair) => Some(Timestamp { secs: pair.0, nanos: pair.1 }),
            Err(_) => match read_datetime(text) {
                Ok(pair) => Some(Timestamp { secs: pair.0, nanos: pair.1 }),
                Err(_) => None,
            },
        }
    }

    /// The seconds since the start of 1970.
    pub fn seconds(&self) -> (secs: i64)
        ensures
            secs == self@.0,
    {
        self.secs
    }

    /// The nanoseconds within the second.
    pub fn nanoseconds(&self) -> (nanos: u32)
        ensures
            nanos == self@.1,
    {
        self.nanos
    }

    /// Whether this timestamp is not later than `other`.
    pub fn not_after(&self, other: &Timestamp) -> (holds: bool)
        ensures
            holds == not_after(self@, other@),
    {
        self.secs < other.secs || (self.secs == other.secs && self.nanos <= other.nanos)
    }

    /// Writes the timestamp out, as `2015-09-18 23:56:04`. What is written
    /// reads back as this timestamp.
    pub fn to_text(&self) -> (text: String)
        ensures
            text@ == self.text(),
            spelled(text@) == Some(self@),
    {
        proof {
            use_type_invariant(self);
        }
        match write_datetime(self.secs, self.nanos) {
            Some(text) => text,
            None => String::new(),
        }
    }
}

impl DeepView for Timestamp {
    type V = (int, int);

    open spec fn deep_view(&self) -> (int, int) {
        self@
    }
}

} // verus!
