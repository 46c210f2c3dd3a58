//! Points in time, and the two text forms in which feeds and the store keep them.
use vstd::prelude::*;

verus! {

/// A point in time: seconds since the start of 1970 in UTC, and the nanoseconds behind them.
///
/// In a leap second the nanoseconds go on from one billion.
#[derive(Clone, Copy, Debug, PartialEq, Eq, Structural)]
pub struct Moment {
    pub seconds: i64,
    pub nanos: u32,
}

/// Whether the calendar reaches the point in time: no earlier than the year -262143, no later
/// than the year 262142, and past the full second only inside one, or inside a leap second at
/// the end of a minute.
pub open spec fn representable(seconds: i64, nanos: u32) -> bool {
    &&& -8334601228800 <= seconds <= 8210266876799
    &&& nanos < 2_000_000_000
    &&& nanos >= 1_000_000_000 ==> seconds % 60 == 59
}

/// Whether a clock that shows `seconds` since the start of 1970 shows a year from 0 to 9999.
pub open spec fn four_digit_year(seconds: int) -> bool {
    -62167219200 <= seconds <= 253402300799
}

/// What reading an RFC 2822 date gives: seconds and nanoseconds in UTC, and the offset of the
/// clock that the date was written by, in seconds east of UTC.
pub uninterp spec fn rfc2822_fields(text: Seq<char>) -> Option<(i64, u32, i32)>;

/// What reading an RFC 3339 date gives, in the same fields.
pub uninterp spec fn rfc3339_fields(text: Seq<char>) -> Option<(i64, u32, i32)>;

/// The RFC 2822 date of a point in time on a clock `offset` seconds east of UTC.
pub uninterp spec fn rfc2822_text(seconds: i64, nanos: u32, offset: i32) -> Seq<char>;

/// The RFC 3339 date of a point in time on a clock in UTC.
pub uninterp spec fn rfc3339_text(seconds: i64, nanos: u32) -> Seq<char>;

/// `chrono::DateTime::parse_from_rfc2822`: what it reads is a function of the text, and every
/// point in time that it gives is one that the calendar reaches.
#[verifier::external_body]
fn read_rfc2822(text: &str) -> (res: Option<(i64, u32, i32)>)
    ensures
        res == rfc2822_fields(text@),
        res matches Some(fields) ==> representable(fields.0, fields.1),
{
    let date = chrono::DateTime::parse_from_rfc2822(text).ok()?;
    Some((date.timestamp(), date.timestamp_subsec_nanos(), date.offset().local_minus_utc()))
}

/// `chrono::DateTime::parse_from_rfc3339`: what it reads is a function of the text. The text
/// writes the year in four digits and the offset in hours and minutes, less than a day.
#[verifier::external_body]
fn read_rfc3339(text: &str) -> (res: Option<(i64, u32, i32)>)
    ensures
        res == rfc3339_fields(text@),
        res matches Some(fields) ==> {
            &&& representable(fields.0, fields.1)
            &&& -86400 < fields.2 < 86400
            &&& four_digit_year(fields.0 + fields.2)
        },
{
    let date = chrono::DateTime::parse_from_rfc3339(text).ok()?;
    Some((date.timestamp(), date.timestamp_subsec_nanos(), date.offset().local_minus_utc()))
}

/// `chrono::DateTime::to_rfc2822` on a clock with a fixed offset: a function of the point in
/// time and the offset. The form has room for the years 0 to 9999 alone.
#[verifier::external_body]
fn write_rfc2822(seconds: i64, nanos: u32, offset: i32) -> (res: String)
    requires
        representable(seconds, nanos),
        -86400 < offset < 86400,
        four_digit_year(seconds + offset),
    ensures
        res@ == rfc2822_text(seconds, nanos, offset),
{
    let zone = chrono::FixedOffset::east_opt(offset).unwrap();
    let date = chrono::DateTime::from_timestamp(seconds, nanos).unwrap();
    date.with_timezone(&zone).to_rfc2822()
}

/// `chrono::DateTime::to_rfc3339` on a clock in UTC: a function of the point in time, and never
/// empty. It keeps every nanosecond and writes the offset as `+00:00`, so that with a four-digit
/// year reading the text gives the point in time back. Any other year it writes with a sign in
/// front, which the reading of RFC 3339 does not take.
#[verifier::external_body]
fn write_rfc3339(seconds: i64, nanos: u32) -> (res: String)
    requires
        representable(seconds, nanos),
    ensures
        res@ == rfc3339_text(seconds, nanos),
        res@.len() > 0,
        rfc3339_fields(res@) == (if four_digit_year(seconds as int) {
            Some((seconds, nanos, 0i32))
        } else {
            None
        }),
{
    chrono::DateTime::from_timestamp(seconds, nanos).unwrap().to_rfc3339()
}

/// The point in time among the fields of a date.
pub open spec fn moment_of(fields: Option<(i64, u32, i32)>) -> Option<Moment> {
    match fields {
        Some(f) => Some(Moment { seconds: f.0, nanos: f.1 }),
        None => None,
    }
}

/// The RFC 2822 form of an RFC 3339 date, on the clock that the date was written by.
pub open spec fn mail_date_of(fields: Option<(i64, u32, i32)>) -> Option<Seq<char>> {
    match fields {
        Some(f) => Some(rfc2822_text(f.0, f.1, f.2)),
        None => None,
    }
}

/// The point in time that an optional RFC 3339 date tells: none where there is no text or where
/// it is no date.
pub open spec fn moment_in(text: Option<Seq<char>>) -> Option<Moment> {
    match text {
        Some(date) => moment_of(rfc3339_fields(date)),
        None => None,
    }
}

impl Moment {
    /// Whether the calendar reaches this point in time.
    pub open spec fn valid(self) -> bool {
        representable(self.seconds, self.nanos)
    }

    /// Whether this point in time is no later than `other`.
    pub open spec fn no_later(self, other: Moment) -> bool {
        self.seconds < other.seconds || (self.seconds == other.seconds && self.nanos
            <= other.nanos)
    }

    /// The point in time of these seconds and nanoseconds, where the calendar reaches it.
    pub fn new(seconds: i64, nanos: u32) -> (res: Option<Moment>)
        ensures
            res == (if representable(seconds, nanos) {
                Some(Moment { seconds, nanos })
            } else {
                None
            }),
    {
        let moment = Moment { seconds, nanos };
        if moment.is_valid() {
            Some(moment)
        } else {
            None
        }
    }

    /// Whether the calendar reaches this point in time.
    pub fn is_valid(&self) -> (res: bool)
        ensures
            res == self.valid(),
    {
        if self.seconds < -8334601228800 || self.seconds > 8210266876799 {
            return false;
        }
        if self.nanos >= 1_000_000_000 {
            let part: i64 = self.seconds % 60;
            return self.nanos < 2_000_000_000 && (part == 59 || part == -1);
        }
        true
    }

    /// Whether this point in time is no later than `other`.
    pub fn is_no_later(&self, other: &Moment) -> (res: bool)
        ensures
            res == self.no_later(*other),
    {
        self.seconds < other.seconds || (self.seconds == other.seconds && self.nanos
            <= other.nanos)
    }

    /// Reads an RFC 2822 date, such as the ones in a feed.
    pub fn from_rfc2822(text: &str) -> (res: Option<Moment>)
        ensures
            res == moment_of(rfc2822_fields(text@)),
            res matches Some(moment) ==> moment.valid(),
    {
        match read_rfc2822(text) {
            Some(fields) => Some(Moment { seconds: fields.0, nanos: fields.1 }),
            None => None,
        }
    }

    /// Reads an RFC 3339 date, such as the ones in the store.
    pub fn from_rfc3339(text: &str) -> (res: Option<Moment>)
        ensures
            res == moment_of(rfc3339_fields(text@)),
            res matches Some(moment) ==> moment.valid(),
    {
        match read_rfc3339(text) {
            Some(fields) => Some(Moment { seconds: fields.0, nanos: fields.1 }),
            None => None,
        }
    }

    /// Writes the point in time as an RFC 3339 date in UTC. With a four-digit year, reading the
    /// text gives the point in time back; with any other, the text cannot be read.
    pub fn to_rfc3339(&self) -> (res: String)
        requires
            self.valid(),
        ensures
            res@ == rfc3339_text(self.seconds, self.nanos),
            res@.len() > 0,
            moment_of(rfc3339_fields(res@)) == (if four_digit_year(self.seconds as int) {
                Some(*self)
            } else {
                None
            }),
    {
        write_rfc3339(self.seconds, self.nanos)
    }
}

/// Turns an RFC 3339 date into the RFC 2822 form that feeds are written in.
pub fn mail_date(text: &str) -> (res: Option<String>)
    ensures
        match res {
            Some(date) => mail_date_of(rfc3339_fields(text@)) == Some(date@),
            None => rfc3339_fields(text@) is None,
        },
{
    match read_rfc3339(text) {
        Some(fields) => Some(write_rfc2822(fields.0, fields.1, fields.2)),
        None => None,
    }
}

/// Points in time are in one line: one is no later than itself, of two at least one is no later
/// than the other, both only where they are the same, and the order carries over.
pub proof fn moments_are_ordered(a: Moment, b: Moment, c: Moment)
    ensures
        a.no_later(a),
        a.no_later(b) || b.no_later(a),
        a.no_later(b) && b.no_later(a) ==> a == b,
        a.no_later(b) && b.no_later(c) ==> a.no_later(c),
{
}

/// An earlier second comes first, and inside one second, a leap second too, the nanoseconds
/// decide. Away from leap seconds this is the order of the nanoseconds since the start of 1970.
pub proof fn moments_are_in_time_order(a: Moment, b: Moment)
    ensures
        a.seconds < b.seconds ==> a.no_later(b) && !b.no_later(a),
        a.seconds == b.seconds && a.nanos < b.nanos ==> a.no_later(b) && !b.no_later(a),
        a.nanos < 1_000_000_000 && b.nanos < 1_000_000_000 ==> a.no_later(b) == (a.seconds
            * 1_000_000_000 + a.nanos <= b.seconds * 1_000_000_000 + b.nanos),
{
}

/// Every whole or broken second of the calendar is a valid point in time, and beyond the broken
/// ones only those of a leap second at the end of a minute are.
pub proof fn valid_moments(moment: Moment)
    ensures
        -8334601228800 <= moment.seconds <= 8210266876799 && moment.nanos < 1_000_000_000
            ==> moment.valid(),
        moment.valid() ==> -8334601228800 <= moment.seconds <= 8210266876799,
        moment.valid() ==> moment.nanos < 2_000_000_000,
        moment.valid() && moment.nanos >= 1_000_000_000 ==> (moment.seconds + 1) % 60 == 0,
        -8334601228800 <= moment.seconds <= 8210266876799 && 1_000_000_000 <= moment.nanos
            < 2_000_000_000 && (moment.seconds + 1) % 60 == 0 ==> moment.valid(),
{
}

/// The point in time of a date is made of the seconds and nanoseconds that were read, and a mail
/// date is written with the offset that was read.
pub proof fn dates_keep_their_fields(seconds: i64, nanos: u32, offset: i32, text: Seq<char>)
    ensures
        moment_of(Some((seconds, nanos, offset))) == Some(Moment { seconds, nanos }),
        moment_of(None) is None,
        mail_date_of(Some((seconds, nanos, offset))) == Some(rfc2822_text(seconds, nanos, offset)),
        mail_date_of(None) is None,
        moment_in(Some(text)) == moment_of(rfc3339_fields(text)),
        moment_in(None) is None,
{
}

} // verus!
