//! Moments in time, their text, and the cutoffs that retention works with.

use vstd::prelude::*;

verus! {

/// The first second of the calendar that timestamps cover.
pub const FIRST_SECOND: i64 = -8334601228800;

/// The last second of the calendar that timestamps cover.
pub const LAST_SECOND: i64 = 8210266876799;

/// A moment in UTC: whole seconds since the start of 1970, and nanoseconds
/// since the start of the second. Within a leap second, which follows the
/// 59th second of a minute, the nanoseconds go past one thousand million.
pub struct Moment {
    pub secs: int,
    pub nanos: int,
}

impl Moment {
    /// Whether the calendar has this moment.
    pub open spec fn valid(self) -> bool {
        &&& FIRST_SECOND <= self.secs <= LAST_SECOND
        &&& 0 <= self.nanos < 2_000_000_000
        &&& self.nanos >= 1_000_000_000 ==> self.secs % 60 == 59
    }

    /// Whether a clock can show this moment: it lies in or after 1970 and not
    /// within a leap second.
    pub open spec fn on_clock(self) -> bool {
        0 <= self.secs <= LAST_SECOND && 0 <= self.nanos < 1_000_000_000
    }

    /// Whether the moment lies in one of the years 0 to 9999.
    pub open spec fn in_written_years(self) -> bool {
        -62167219200 <= self.secs <= 253402300799
    }

    /// Whether this moment comes before the other.
    pub open spec fn before(self, other: Moment) -> bool {
        self.secs < other.secs || (self.secs == other.secs && self.nanos < other.nanos)
    }

    /// The moment this many days earlier.
    pub open spec fn days_earlier(self, days: int) -> Moment {
        Moment { secs: self.secs - days * 86400, nanos: self.nanos }
    }

    /// The text of the moment.
    pub open spec fn text(self) -> Seq<char> {
        rfc3339(self.secs, self.nanos)
    }
}

/// Whether `a` sorts before `b`, character by character.
pub open spec fn sorts_before(a: Seq<char>, b: Seq<char>) -> bool
    decreases a.len(),
{
    if a.len() == 0 || b.len() == 0 {
        a.len() < b.len()
    } else if a.first() == b.first() {
        sorts_before(a.drop_first(), b.drop_first())
    } else {
        a.first() < b.first()
    }
}

/// The text that `chrono::DateTime::to_rfc3339` gives a moment in UTC.
pub uninterp spec fn rfc3339(secs: int, nanos: int) -> Seq<char>;

/// What `chrono::DateTime::parse_from_rfc3339` reads from a text: seconds and
/// nanoseconds in UTC, or the text of its error.
pub uninterp spec fn rfc3339_read(text: Seq<char>) -> Result<(int, int), Seq<char>>;

/// Whether reading the text gives this moment.
pub open spec fn reads_as(text: Seq<char>, at: Moment) -> bool {
    rfc3339_read(text) matches Ok(named) && named.0 == at.secs && named.1 == at.nanos
}

/// Whether the text sorts after the text of a moment of the years 0 to 9999
/// exactly where that moment comes before this one.
pub open spec fn sorts_as(text: Seq<char>, at: Moment) -> bool {
    forall|m: Moment|
        m.valid() && m.in_written_years() ==> (sorts_before(#[trigger] m.text(), text) <==> m.before(
            at,
        ))
}

/// `chrono::DateTime::from_timestamp` and `to_rfc3339`. The result is named. Of
/// the years 0 to 9999 two things more are claimed, for there every field is
/// written with a fixed width, the largest first, and a fraction of a second
/// without trailing zeros in groups of three digits: reading the text gives the
/// moment back, and texts sort as their moments do.
#[verifier::external_body]
fn written(secs: i64, nanos: u32) -> (r: String)
    requires
        (Moment { secs: secs as int, nanos: nanos as int }).valid(),
    ensures
        r@ == rfc3339(secs as int, nanos as int),
        (Moment { secs: secs as int, nanos: nanos as int }).in_written_years() ==> reads_as(
            r@,
            (Moment { secs: secs as int, nanos: nanos as int }),
        ) && sorts_as(r@, (Moment { secs: secs as int, nanos: nanos as int })),
{
    chrono::DateTime::from_timestamp(secs, nanos).unwrap().to_rfc3339()
}

/// `chrono::DateTime::parse_from_rfc3339`, its result taken to UTC. The result
/// is named, the error by its text. A moment that was read is one the calendar
/// has.
#[verifier::external_body]
fn read(text: &str) -> (r: Result<(i64, u32), String>)
    ensures
        match (r, rfc3339_read(text@)) {
            (Ok(at), Ok(named)) => named == (at.0 as int, at.1 as int) && (Moment {
                secs: at.0 as int,
                nanos: at.1 as int,
            }).valid(),
            (Err(e), Err(named)) => e@ == named,
            _ => false,
        },
{
    match chrono::DateTime::parse_from_rfc3339(text) {
        Ok(at) => Ok((at.timestamp(), at.timestamp_subsec_nanos())),
        Err(e) => Err(e.to_string()),
    }
}

/// `chrono::Utc::now`: what the clock of the machine shows. Nothing is claimed
/// but that it is a moment that a clock can show; `now` itself panics where the
/// machine's clock stands before 1970.
#[verifier::external_body]
fn clock_shows() -> (r: (i64, u32))
    ensures
        (Moment { secs: r.0 as int, nanos: r.1 as int }).on_clock(),
{
    let now = chrono::Utc::now();
    (now.timestamp(), now.timestamp_subsec_nanos())
}

/// A moment in UTC.
#[derive(Clone, Copy, Debug)]
pub struct Timestamp {
    secs: i64,
    nanos: u32,
}

impl View for Timestamp {
    type V = Moment;

    closed spec fn view(&self) -> Moment {
        Moment { secs: self.secs as int, nanos: self.nanos as int }
    }
}

impl DeepView for Timestamp {
    type V = Moment;

    open spec fn deep_view(&self) -> Moment {
        self.view()
    }
}

impl Timestamp {
    #[verifier::type_invariant]
    closed spec fn on_calendar(self) -> bool {
        self@.valid()
    }

    /// The moment with these seconds and nanoseconds, if the calendar has it.
    pub fn new(secs: i64, nanos: u32) -> (r: Option<Timestamp>)
        ensures
            r is Some <==> (Moment { secs: secs as int, nanos: nanos as int }).valid(),
            r is Some ==> r->0@ == (Moment { secs: secs as int, nanos: nanos as int }),
    {
        if secs < FIRST_SECOND || secs > LAST_SECOND || nanos >= 2_000_000_000 {
            return None;
        }
        if nanos >= 1_000_000_000 {
            let second: i64 = (secs - FIRST_SECOND) % 60;
            if second != 59 {
                return None;
            }
        }
        Some(Timestamp { secs, nanos })
    }

    /// Whole seconds since the start of 1970.
    pub fn secs(self) -> (r: i64)
        ensures
            r == self@.secs,
    {
        self.secs
    }

    /// Nanoseconds since the start of the second.
    pub fn nanos(self) -> (r: u32)
        ensures
            r == self@.nanos,
    {
        self.nanos
    }

    /// What the clock of the machine shows.
    pub fn now() -> (r: Timestamp)
        ensures
            r@.on_clock(),
    {
        let (secs, nanos) = clock_shows();
        Timestamp { secs, nanos }
    }

    /// Whether the moment this many days earlier is still on the calendar.
    pub fn has_days_before(self, days: i64) -> (r: bool)
        requires
            self@.on_clock(),
        ensures
            r == self@.days_earlier(days as int).valid(),
    {
        let shift: i128 = days as i128 * 86400;
        let at: i128 = self.secs as i128 - shift;
        FIRST_SECOND as i128 <= at && at <= LAST_SECOND as i128
    }

    /// The moment this many days earlier.
    pub fn days_earlier(self, days: i64) -> (r: Timestamp)
        requires
            self@.on_clock(),
            self@.days_earlier(days as int).valid(),
        ensures
            r@ == self@.days_earlier(days as int),
    {
        let shift: i64 = days * 86400;
        Timestamp { secs: self.secs - shift, nanos: self.nanos }
    }
}

/// The text of a moment, as the database keeps it. Written in the years 0 to
/// 9999, it reads back as the same moment, and it sorts among the texts of
/// other such moments as the moments follow each other.
pub fn time_to_text(value: Timestamp) -> (r: String)
    ensures
        r@ == value@.text(),
        value@.in_written_years() ==> reads_as(r@, value@) && sorts_as(r@, value@),
{
    proof {
        use_type_invariant(&value);
    }
    written(value.secs, value.nanos)
}

/// The moment that a text from the database stands for, or the text of the
/// error.
pub fn text_to_time(value: &str) -> (r: Result<Timestamp, String>)
    ensures
        match (r, rfc3339_read(value@)) {
            (Ok(at), Ok(named)) => at@ == (Moment { secs: named.0, nanos: named.1 }),
            (Err(e), Err(named)) => e@ == named,
            _ => false,
        },
{
    match read(value) {
        Ok(at) => Ok(Timestamp { secs: at.0, nanos: at.1 }),
        Err(e) => Err(e),
    }
}

/// Days are 24 hours of 60 minutes of 60 seconds each: that many seconds lie
/// between a moment and the one some days earlier, within the second the two are
/// at the same place, and going back twice is going back once.
pub proof fn law_days_are_counted_in_seconds(at: Moment, days: int, more: int)
    ensures
        at.secs - at.days_earlier(days).secs == days * (24 * 60 * 60),
        at.days_earlier(days).nanos == at.nanos,
        at.days_earlier(days).days_earlier(more) == at.days_earlier(days + more),
        days > 0 ==> at.days_earlier(days).before(at),
{
    assert(days * (24 * 60 * 60) == days * 86400);
    assert(days * 86400 + more * 86400 == (days + more) * 86400) by (nonlinear_arith);
}

} // verus!
