//! Points in time as plain numbers.
use vstd::prelude::*;

verus! {

/// The first second that the calendar reaches.
pub const MIN_SECONDS: i64 = -8_334_601_228_800;

/// The last second that the calendar reaches.
pub const MAX_SECONDS: i64 = 8_210_266_876_799;

/// A point in time: seconds since the Unix epoch, and nanoseconds into that second. A leap second
/// is the second before it with nanoseconds past a whole second.
#[derive(Clone, Copy, Debug, PartialEq, Eq, Structural)]
pub struct Timestamp {
    pub seconds: i64,
    pub nanos: u32,
}

impl Timestamp {
    /// Whether the calendar has this point.
    pub open spec fn valid(self) -> bool {
        &&& MIN_SECONDS <= self.seconds <= MAX_SECONDS
        &&& self.nanos < 1_000_000_000 || (self.nanos < 2_000_000_000 && self.seconds as int % 60
            == 59)
    }

    /// Whether the year has one to four digits, as mail dates need.
    pub open spec fn has_mail_year(self) -> bool {
        -62_167_219_200 <= self.seconds <= 253_402_300_799
    }

    /// Whether this point is later than another.
    pub open spec fn later_than(self, other: Timestamp) -> bool {
        self.seconds > other.seconds || (self.seconds == other.seconds && self.nanos > other.nanos)
    }

    /// Milliseconds since the Unix epoch.
    pub open spec fn millis(self) -> int {
        self.seconds * 1000 + self.nanos as int / 1_000_000
    }
}

/// Whether an optional point is one that the calendar has.
pub open spec fn valid_time(time: Option<Timestamp>) -> bool {
    time matches Some(time) ==> time.valid()
}

/// A number modulo two to the power of 64.
pub open spec fn wrapped_u64(n: int) -> u64 {
    (n % 0x1_0000_0000_0000_0000) as u64
}

/// The milliseconds of a point in the unsigned form that a JavaScript date takes: before the epoch
/// they wrap around.
pub fn unsigned_millis(time: Timestamp) -> (millis: u64)
    requires
        time.valid(),
    ensures
        millis == wrapped_u64(time.millis()),
{
    let part: i64 = (time.nanos / 1_000_000) as i64;
    let millis: i64 = time.seconds * 1000 + part;
    let unsigned: u64 = #[verifier::truncate] (millis as u64);
    assert(millis >= 0 ==> unsigned == millis) by (bit_vector)
        requires
            unsigned == millis as u64,
    ;
    assert(millis < 0 ==> unsigned == millis + 0x1_0000_0000_0000_0000) by (bit_vector)
        requires
            unsigned == millis as u64,
    ;
    unsigned
}

/// An unsigned number of milliseconds read as a signed one: from two to the power of 63 on it is
/// negative.
pub open spec fn signed_millis(millis: u64) -> int {
    if millis <= i64::MAX {
        millis as int
    } else {
        millis - 0x1_0000_0000_0000_0000
    }
}

/// The point that lies so many milliseconds after the epoch, where the calendar has it.
pub open spec fn time_at_millis(millis: int) -> Option<Timestamp> {
    if MIN_SECONDS <= millis / 1000 <= MAX_SECONDS {
        Some(
            Timestamp {
                seconds: (millis / 1000) as i64,
                nanos: (millis % 1000 * 1_000_000) as u32,
            },
        )
    } else {
        None
    }
}

/// Calls `chrono::DateTime::from_timestamp_millis`. It gives the point that lies `millis`
/// milliseconds after the epoch, or nothing where that is outside the calendar.
#[verifier::external_body]
fn from_timestamp_millis(millis: i64) -> (time: Option<Timestamp>)
    ensures
        time == time_at_millis(millis as int),
{
    chrono::DateTime::from_timestamp_millis(millis).map(
        |time| Timestamp { seconds: time.timestamp(), nanos: time.timestamp_subsec_nanos() },
    )
}

/// When an object was stored, by the unsigned milliseconds that the bucket reports: the epoch where
/// the calendar does not reach that far.
pub open spec fn stored_at(millis: u64) -> Timestamp {
    match time_at_millis(signed_millis(millis)) {
        Some(time) => time,
        None => Timestamp { seconds: 0, nanos: 0 },
    }
}

/// The point at which an object was stored.
pub fn time_stored(millis: u64) -> (time: Timestamp)
    ensures
        time == stored_at(millis),
        time.valid(),
{
    let signed: i64 = #[verifier::truncate] (millis as i64);
    assert(millis <= i64::MAX ==> signed == millis) by (bit_vector)
        requires
            signed == millis as i64,
    ;
    assert(millis > i64::MAX ==> signed == millis - 0x1_0000_0000_0000_0000) by (bit_vector)
        requires
            signed == millis as i64,
    ;
    match from_timestamp_millis(signed) {
        Some(time) => time,
        None => Timestamp { seconds: 0, nanos: 0 },
    }
}

/// The date of a point as mail writes it, which `chrono::DateTime::to_rfc2822` gives.
pub uninterp spec fn mail_date(time: Timestamp) -> Seq<char>;

/// Calls `chrono::DateTime::to_rfc2822` on the point in UTC. The text is left a name: nothing is
/// said of it but that it is the same for the same point.
#[verifier::external_body]
pub(crate) fn to_rfc2822(time: Timestamp) -> (text: String)
    requires
        time.valid(),
        time.has_mail_year(),
    ensures
        text@ == mail_date(time),
{
    chrono::DateTime::from_timestamp(time.seconds, time.nanos).unwrap().to_rfc2822()
}

/// What `chrono` reads out of a text as a point in UTC, or the words with which it refuses the text.
pub uninterp spec fn parsed_time(text: Seq<char>) -> Result<Timestamp, Seq<char>>;

/// Calls `str::parse` for `chrono::DateTime<chrono::Utc>`. Which texts it reads, and how, is left a
/// name. A point that it reads is one that the calendar has.
#[verifier::external_body]
pub(crate) fn parse_time(text: &str) -> (time: Result<Timestamp, String>)
    ensures
        time is Ok <==> parsed_time(text@) is Ok,
        time matches Ok(point) ==> parsed_time(text@)->Ok_0 == point && point.valid(),
        time matches Err(words) ==> parsed_time(text@)->Err_0 == words@,
{
    let parsed = text.parse::<chrono::DateTime<chrono::Utc>>();
    let point = parsed.map(
        |time| Timestamp { seconds: time.timestamp(), nanos: time.timestamp_subsec_nanos() },
    );
    point.map_err(|error| error.to_string())
}

/// A point survives the way through the milliseconds of the bucket, up to its milliseconds.
pub proof fn law_millis_read_back(time: Timestamp)
    requires
        time.valid(),
        time.nanos < 1_000_000_000,
    ensures
        stored_at(wrapped_u64(time.millis())) == (Timestamp {
            seconds: time.seconds,
            nanos: (time.nanos / 1_000_000 * 1_000_000) as u32,
        }),
{
}

/// A number of 64 bits stands for itself, and numbers that differ by two to the power of 64 for the
/// same.
pub proof fn law_wrapping_keeps_what_fits(n: int)
    ensures
        0 <= n <= u64::MAX ==> wrapped_u64(n) == n,
        wrapped_u64(n + 0x1_0000_0000_0000_0000) == wrapped_u64(n),
{
    vstd::arithmetic::div_mod::lemma_mod_add_multiples_vanish(n, 0x1_0000_0000_0000_0000);
}

/// The milliseconds of a point are its seconds and the whole milliseconds into them.
pub proof fn law_milliseconds_hold_the_seconds(time: Timestamp)
    requires
        time.valid(),
        time.nanos < 1_000_000_000,
    ensures
        time.millis() / 1000 == time.seconds,
        time.millis() % 1000 == time.nanos as int / 1_000_000,
{
}

/// When an object was stored is the point whose milliseconds the bucket reports, read as a signed
/// number, wherever the calendar has that point; else it is the epoch.
pub proof fn law_stored_points_have_the_reported_milliseconds(millis: u64)
    ensures
        ({
            let signed: int = if millis < 0x8000_0000_0000_0000 {
                millis as int
            } else {
                millis - 0x1_0000_0000_0000_0000
            };
            let reached = MIN_SECONDS <= signed / 1000 <= MAX_SECONDS;
            &&& reached ==> stored_at(millis).millis() == signed && stored_at(millis).nanos
                < 1_000_000_000 && stored_at(millis).nanos % 1_000_000 == 0
            &&& !reached ==> stored_at(millis).seconds == 0 && stored_at(millis).nanos == 0
        }),
{
}

} // verus!
