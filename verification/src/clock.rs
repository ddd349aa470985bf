//! Points in time, as seconds and nanoseconds since the Unix epoch, together
//! with the RFC 3339 text that is shown for them.

use vstd::prelude::*;

verus! {

/// The RFC 3339 text of the instant `secs` seconds and `nanos` nanoseconds
/// after the Unix epoch, or `None` where the calendar cannot hold it.
///
/// It names what `chrono::DateTime::<Utc>::from_timestamp(secs, nanos)`
/// followed by `DateTime::to_rfc3339` returns.
pub uninterp spec fn rfc3339(secs: i64, nanos: u32) -> Option<Seq<char>>;

/// Calls `chrono::DateTime::<Utc>::from_timestamp`, which returns `None` for
/// an instant out of the calendar's range or an invalid nanosecond count, and
/// `DateTime::to_rfc3339` on what it returned. Both depend on their arguments
/// alone; the contract gives the result its name and claims no more.
#[verifier::external_body]
fn render_rfc3339(secs: i64, nanos: u32) -> (text: Option<String>)
    ensures
        match text {
            Some(t) => rfc3339(secs, nanos) == Some(t@),
            None => rfc3339(secs, nanos) is None,
        },
{
    match chrono::DateTime::<chrono::Utc>::from_timestamp(secs, nanos) {
        Some(instant) => Some(instant.to_rfc3339()),
        None => None,
    }
}

/// Reads the system clock with `std::time::SystemTime::now`, turns the
/// reading into a `chrono::DateTime<Utc>` with chrono's `From<SystemTime>`,
/// which takes a time before 1970 as negative seconds, and takes it apart with
/// `DateTime::timestamp` and `DateTime::timestamp_subsec_nanos`. Which
/// instant is read is the clock's affair. That the calendar can show it holds
/// of every reading: `from_timestamp` is documented to give back the
/// `DateTime` whose `timestamp` and `timestamp_subsec_nanos` it is handed.
#[verifier::external_body]
fn read_clock() -> (reading: (i64, u32))
    ensures
        rfc3339(reading.0, reading.1) is Some,
{
    let instant = chrono::DateTime::<chrono::Utc>::from(std::time::SystemTime::now());
    (instant.timestamp(), instant.timestamp_subsec_nanos())
}

/// An instant that the calendar can show.
#[derive(Debug, PartialEq, Eq)]
pub struct Timestamp {
    secs: u64,
    nanos: u32,
    text: String,
}

/// The text shown for the instant `secs`, `nanos`, where there is one.
pub open spec fn shown(secs: u64, nanos: u32) -> Option<Seq<char>> {
    if secs <= i64::MAX {
        rfc3339(secs as i64, nanos)
    } else {
        None
    }
}

/// Whether `stamp` is what a clock reading of `secs` seconds and `nanos`
/// nanoseconds is taken as: the instant of that reading with its text, or
/// nothing where the reading lies before 1970 or has no text.
pub open spec fn taken_as(stamp: Option<Timestamp>, secs: i64, nanos: u32) -> bool {
    match stamp {
        Some(t) => 0 <= secs && t.secs() == secs && t.nanos() == nanos && rfc3339(secs, nanos)
            == Some(t.text()),
        None => secs < 0 || rfc3339(secs, nanos) is None,
    }
}

impl Timestamp {
    #[verifier::type_invariant]
    spec fn shows_its_instant(self) -> bool {
        shown(self.secs, self.nanos) == Some(self.text@)
    }

    /// Whole seconds since the Unix epoch.
    pub closed spec fn secs(&self) -> u64 {
        self.secs
    }

    /// Nanoseconds since the last whole second.
    pub closed spec fn nanos(&self) -> u32 {
        self.nanos
    }

    /// The RFC 3339 text of the instant.
    pub closed spec fn text(&self) -> Seq<char> {
        self.text@
    }

    /// The instant `secs` seconds and `nanos` nanoseconds after the Unix
    /// epoch, or `None` where the calendar cannot show it.
    pub fn new(secs: u64, nanos: u32) -> (stamp: Option<Timestamp>)
        ensures
            match stamp {
                Some(t) => t.secs() == secs && t.nanos() == nanos && shown(secs, nanos) == Some(
                    t.text(),
                ),
                None => shown(secs, nanos) is None,
            },
    {
        if secs > i64::MAX as u64 {
            return None;
        }
        match render_rfc3339(secs as i64, nanos) {
            Some(text) => Some(Timestamp { secs, nanos, text }),
            None => None,
        }
    }

    /// The present instant by the system clock: what `from_reading` takes
    /// the clock's reading as. The calendar can show every reading, so the
    /// result is `None` where the clock reads a time before 1970, and there
    /// only.
    pub fn now() -> (stamp: Option<Timestamp>)
        ensures
            stamp matches Some(t) ==> shown(t.secs(), t.nanos()) == Some(t.text()),
            exists|secs: i64, nanos: u32|
                rfc3339(secs, nanos) is Some && #[trigger] taken_as(stamp, secs, nanos),
    {
        let (secs, nanos) = read_clock();
        let stamp = Timestamp::from_reading(secs, nanos);
        assert(rfc3339(secs, nanos) is Some && taken_as(stamp, secs, nanos));
        stamp
    }

    /// The instant that a clock reading of `secs` seconds and `nanos`
    /// nanoseconds since the Unix epoch stands for, or `None` where the
    /// reading lies before the epoch or the calendar cannot show it.
    pub fn from_reading(secs: i64, nanos: u32) -> (stamp: Option<Timestamp>)
        ensures
            taken_as(stamp, secs, nanos),
    {
        if secs < 0 {
            return None;
        }
        Timestamp::new(secs as u64, nanos)
    }

    /// The instant `delta` seconds later, or `None` where the calendar cannot
    /// show it.
    pub fn plus_seconds(&self, delta: u64) -> (later: Option<Timestamp>)
        ensures
            match later {
                Some(t) => self.secs() + delta == t.secs() && t.nanos() == self.nanos() && shown(
                    t.secs(),
                    t.nanos(),
                ) == Some(t.text()),
                None => self.secs() + delta > u64::MAX || shown(
                    (self.secs() + delta) as u64,
                    self.nanos(),
                ) is None,
            },
    {
        match self.secs.checked_add(delta) {
            Some(secs) => Timestamp::new(secs, self.nanos),
            None => None,
        }
    }

    /// Whole seconds since the Unix epoch.
    pub fn seconds(&self) -> (secs: u64)
        ensures
            secs == self.secs(),
    {
        self.secs
    }

    /// Nanoseconds since the last whole second.
    pub fn subsec_nanos(&self) -> (nanos: u32)
        ensures
            nanos == self.nanos(),
    {
        self.nanos
    }

    /// The RFC 3339 text of the instant.
    pub fn to_rfc3339(&self) -> (text: String)
        ensures
            text@ == self.text(),
            shown(self.secs(), self.nanos()) == Some(text@),
    {
        proof {
            use_type_invariant(self);
        }
        self.text.clone()
    }
}

} // verus!
