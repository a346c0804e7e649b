//! The clock, and New York wall time.
//!
//! An instant is a Unix timestamp in seconds. A wall time is what a clock in New York shows,
//! counted in seconds as if that clock ran on UTC.

use vstd::prelude::*;

verus! {

/// The last timestamp that a `chrono::DateTime<Utc>` holds.
pub const MAX_UNIX: i64 = 8_210_266_876_799;

/// The timestamps that the clock can show.
pub open spec fn clock_reading(now: int) -> bool {
    0 <= now <= MAX_UNIX
}

/// The wall time in New York at an instant, as the time zone `America/New_York` of `chrono-tz`
/// gives it.
pub uninterp spec fn eastern_wall(unix: int) -> int;

/// The instants at which clocks in New York show a wall time, as the time zone
/// `America/New_York` of `chrono-tz` gives them.
pub uninterp spec fn eastern_instants(wall: int) -> LocalInstants;

/// The instants at which a wall time is shown.
#[derive(Debug, Clone, Copy, PartialEq, Eq, Structural)]
pub enum LocalInstants {
    /// The clocks were turned forward past it.
    Gap,
    Single(i64),
    /// The clocks were turned back over it: the earlier and the later instant.
    Ambiguous(i64, i64),
}

/// `chrono::Utc::now`, as a timestamp: never before 1970, where chrono panics, nor past the last
/// `DateTime<Utc>`. Nothing else is known of it.
#[verifier::external_body]
pub(crate) fn utc_now() -> (r: i64)
    ensures
        clock_reading(r as int),
{
    chrono::Utc::now().timestamp()
}

/// `DateTime::with_timezone` for `America/New_York`, from timestamp to wall time. Since 1970 New
/// York has been four or five hours behind UTC, and every change between the two has fallen on a
/// full hour of UTC: within such an hour the difference stays the same.
#[verifier::external_body]
pub(crate) fn wall_of_unix(unix: i64) -> (r: i64)
    requires
        clock_reading(unix as int),
    ensures
        r == eastern_wall(unix as int),
        r == unix - 18000 || r == unix - 14400,
        forall|t: int|
            clock_reading(t) && t / 3600 == unix as int / 3600 ==> #[trigger] eastern_wall(t) - t
                == r - unix,
{
    chrono::DateTime::<chrono::Utc>::from_timestamp(unix, 0)
        .unwrap()
        .with_timezone(&chrono_tz::America::New_York)
        .naive_local()
        .and_utc()
        .timestamp()
}

/// `TimeZone::from_local_datetime` of `America/New_York`, from wall time to timestamps. At each
/// instant that it gives, the wall time is the one asked for, and it gives every timestamp of the
/// clock at which it is. Of two instants the first is in daylight saving time and the second, an
/// hour later, in standard time.
#[verifier::external_body]
pub(crate) fn unix_of_wall(wall: i64) -> (r: LocalInstants)
    requires
        -18000 <= wall <= MAX_UNIX,
    ensures
        r == eastern_instants(wall as int),
        match r {
            LocalInstants::Gap => true,
            LocalInstants::Single(t) => eastern_wall(t as int) == wall,
            LocalInstants::Ambiguous(a, b) => eastern_wall(a as int) == wall && eastern_wall(
                b as int,
            ) == wall && a == wall + 14400 && b == wall + 18000,
        },
        forall|t: int|
            clock_reading(t) && #[trigger] eastern_wall(t) == wall ==> (match r {
                LocalInstants::Gap => false,
                LocalInstants::Single(only) => t == only,
                LocalInstants::Ambiguous(a, b) => t == a || t == b,
            }),
{
    let wall_utc = chrono::DateTime::<chrono::Utc>::from_timestamp(wall, 0).unwrap();
    let zone = chrono_tz::America::New_York;
    match chrono::TimeZone::from_local_datetime(&zone, &wall_utc.naive_utc()) {
        chrono::LocalResult::None => LocalInstants::Gap,
        chrono::LocalResult::Single(t) => LocalInstants::Single(t.timestamp()),
        chrono::LocalResult::Ambiguous(a, b) => {
            LocalInstants::Ambiguous(a.timestamp(), b.timestamp())
        },
    }
}

/// The clock shows every second from 1970 to the last date of the calendar.
pub proof fn law_clock_readings(now: int)
    ensures
        clock_reading(now) <==> 0 <= now <= 8_210_266_876_799,
{
}

} // verus!
