//! Moments in time.

use vstd::prelude::*;

verus! {

/// Whether that many seconds since 1970 and nanoseconds since the last second are a moment
/// between the years -262143 and 262142. From a billion nanoseconds on they count a leap second,
/// which is the last of a minute.
pub open spec fn is_moment(secs: int, nanos: int) -> bool {
    &&& -8334601228800 <= secs <= 8210266876799
    &&& 0 <= nanos < 2000000000
    &&& nanos >= 1000000000 ==> secs % 60 == 59
}

/// A moment in time, in UTC.
#[derive(Debug, Clone, Copy, PartialEq, Eq, Structural)]
pub struct Timestamp {
    secs: i64,
    nanos: u32,
}

/// The text of a moment in the given pattern, as `chrono::DateTime::format` writes it.
pub uninterp spec fn moment_text(secs: int, nanos: int, pattern: Seq<char>) -> Seq<char>;

/// The pattern of the time in a chat's name.
pub open spec fn name_pattern() -> Seq<char> {
    "%Y-%m-%d_%H-%M-%S"@
}

/// The pattern of the times on the screen.
pub open spec fn screen_pattern() -> Seq<char> {
    "%Y-%m-%d %H:%M"@
}

impl Timestamp {
    #[verifier::type_invariant]
    spec fn valid(self) -> bool {
        is_moment(self.secs as int, self.nanos as int)
    }

    /// The whole seconds since 1970.
    pub closed spec fn seconds(self) -> int {
        self.secs as int
    }

    /// The nanoseconds since the last whole second.
    pub closed spec fn nanoseconds(self) -> int {
        self.nanos as int
    }

    /// Whether this moment comes after the other.
    pub open spec fn after(self, other: Timestamp) -> bool {
        self.seconds() > other.seconds() || (self.seconds() == other.seconds()
            && self.nanoseconds() > other.nanoseconds())
    }

    /// The text of this moment in the given pattern.
    pub open spec fn text(self, pattern: Seq<char>) -> Seq<char> {
        moment_text(self.seconds(), self.nanoseconds(), pattern)
    }

    /// The moment of that many seconds since 1970 and nanoseconds since the last second.
    pub fn new(secs: i64, nanos: u32) -> (r: Option<Timestamp>)
        ensures
            r is Some <==> is_moment(secs as int, nanos as int),
            r matches Some(t) ==> t.seconds() == secs && t.nanoseconds() == nanos,
    {
        if secs < -8334601228800 || secs > 8210266876799 || nanos >= 2000000000 {
            return None;
        }
        if nanos >= 1000000000 {
            let minute_second: i64 = (secs + 8334601228800) % 60;
            assert(minute_second == secs % 60) by {
                assert(8334601228800 == 138910020480 * 60);
            }
            if minute_second != 59 {
                return None;
            }
        }
        Some(Timestamp { secs, nanos })
    }

    /// The current moment.
    pub fn now() -> (r: Timestamp)
        ensures
            is_moment(r.seconds(), r.nanoseconds()),
    {
        let (secs, nanos) = clock_reading();
        Timestamp { secs, nanos }
    }

    /// The whole seconds since 1970.
    pub fn secs(&self) -> (r: i64)
        ensures
            r == self.seconds(),
    {
        self.secs
    }

    /// The nanoseconds since the last whole second.
    pub fn nanos(&self) -> (r: u32)
        ensures
            r == self.nanoseconds(),
    {
        self.nanos
    }

    /// Whether this moment comes after the other.
    pub fn is_after(&self, other: &Timestamp) -> (r: bool)
        ensures
            r == self.after(*other),
    {
        self.secs > other.secs || (self.secs == other.secs && self.nanos > other.nanos)
    }

    /// This moment as it stands in a chat's name.
    pub fn name_text(&self) -> (r: String)
        ensures
            r@ == self.text(name_pattern()),
    {
        proof {
            use_type_invariant(self);
        }
        format_moment(self.secs, self.nanos, "%Y-%m-%d_%H-%M-%S")
    }

    /// This moment as it stands on the screen.
    pub fn screen_text(&self) -> (r: String)
        ensures
            r@ == self.text(screen_pattern()),
    {
        proof {
            use_type_invariant(self);
        }
        format_moment(self.secs, self.nanos, "%Y-%m-%d %H:%M")
    }
}

/// The current time of `chrono::Utc::now`, as `timestamp` and `timestamp_subsec_nanos` give it.
/// It is a moment that `chrono` can hold; which one is left open.
#[verifier::external_body]
fn clock_reading() -> (r: (i64, u32))
    ensures
        is_moment(r.0 as int, r.1 as int),
{
    let now = chrono::Utc::now();
    (now.timestamp(), now.timestamp_subsec_nanos())
}

/// `chrono::DateTime::format` on a moment in UTC, written out. The text depends on the moment and
/// the pattern alone; both patterns admitted are ones that `chrono` can write.
#[verifier::external_body]
fn format_moment(secs: i64, nanos: u32, pattern: &str) -> (r: String)
    requires
        is_moment(secs as int, nanos as int),
        pattern@ == name_pattern() || pattern@ == screen_pattern(),
    ensures
        r@ == moment_text(secs as int, nanos as int, pattern@),
{
    chrono::DateTime::from_timestamp(secs, nanos).unwrap().format(pattern).to_string()
}

/// The later moment is the one with more seconds, and within a second the one with more
/// nanoseconds; of two different moments exactly one is the later.
pub proof fn law_one_of_two_moments_is_later(a: Timestamp, b: Timestamp, c: Timestamp)
    ensures
        a.seconds() > b.seconds() ==> a.after(b),
        a.seconds() == b.seconds() && a.nanoseconds() > b.nanoseconds() ==> a.after(b),
        a.after(b) ==> !b.after(a),
        !a.after(b) && !b.after(a) ==> a.seconds() == b.seconds() && a.nanoseconds()
            == b.nanoseconds(),
        a.after(b) && b.after(c) ==> a.after(c),
{
}

} // verus!
