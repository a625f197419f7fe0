//! Points in time.

use crate::views::opt_view;
use vstd::prelude::*;

verus! {

pub const NANOS_PER_S: u32 = 1_000_000_000;

/// A point in time: whole seconds since 1970-01-01T00:00:00Z, and the
/// nanoseconds after them.
#[derive(Debug, Clone, Copy, PartialEq, Eq, Structural)]
pub struct Moment {
    pub secs: i64,
    pub nanos: u32,
}

/// No leap second: the nanoseconds are less than one second.
pub open spec fn is_plain_moment(m: Moment) -> bool {
    m.nanos < NANOS_PER_S
}

/// A comes before B.
pub open spec fn moment_lt(a: Moment, b: Moment) -> bool {
    a.secs < b.secs || (a.secs == b.secs && a.nanos < b.nanos)
}

/// The nanoseconds from A to B.
pub open spec fn nanos_between(a: Moment, b: Moment) -> int {
    (b.secs - a.secs) * 1_000_000_000 + (b.nanos - a.nanos)
}

/// The whole seconds from A to B; none where B comes first.
pub open spec fn seconds_from(a: Moment, b: Moment) -> int {
    if nanos_between(a, b) < 0 {
        0
    } else {
        nanos_between(a, b) / 1_000_000_000
    }
}

/// `DateTime::to_rfc3339_opts`, in whole seconds and with `Z`, of the time
/// in UTC that `DateTime::from_timestamp` makes of these seconds and
/// nanoseconds; nothing where it makes none.
pub uninterp spec fn rfc3339_text(secs: i64, nanos: u32) -> Option<Seq<char>>;

/// `DateTime::from_timestamp`, then `DateTime::to_rfc3339_opts`: the time in
/// RFC 3339, in whole seconds and with `Z`; none where chrono has no such
/// time.
#[verifier::external_body]
fn format_timestamp(secs: i64, nanos: u32) -> (r: Option<String>)
    ensures
        opt_view(r) == rfc3339_text(secs, nanos),
{
    chrono::DateTime::from_timestamp(secs, nanos).map(
        |t| t.to_rfc3339_opts(chrono::SecondsFormat::Secs, true),
    )
}

impl Moment {
    /// Whether this moment is at OTHER or after it.
    pub fn is_since(self, other: Moment) -> (r: bool)
        ensures
            r == !moment_lt(self, other),
    {
        !(self.secs < other.secs || (self.secs == other.secs && self.nanos < other.nanos))
    }

    /// SECS seconds earlier.
    pub fn earlier(self, secs: u32) -> (r: Moment)
        requires
            self.secs - secs >= i64::MIN,
        ensures
            r == (Moment { secs: (self.secs - secs) as i64, nanos: self.nanos }),
    {
        Moment { secs: self.secs - secs as i64, nanos: self.nanos }
    }

    /// The whole seconds from this moment to LATER.
    pub fn seconds_to(self, later: Moment) -> (r: u64)
        requires
            is_plain_moment(self),
            is_plain_moment(later),
        ensures
            r == seconds_from(self, later),
    {
        let whole: i128 = later.secs as i128 - self.secs as i128;
        let short = later.nanos < self.nanos;
        if whole < 0 || (whole == 0 && short) {
            0
        } else if short {
            (whole - 1) as u64
        } else {
            whole as u64
        }
    }

    /// This moment in RFC 3339, in whole seconds.
    pub fn rfc3339(self) -> (r: Option<String>)
        ensures
            opt_view(r) == rfc3339_text(self.secs, self.nanos),
    {
        format_timestamp(self.secs, self.nanos)
    }
}

/// Moments are in order: of two that differ one comes first, and the order
/// carries over.
pub proof fn law_moments_are_ordered(a: Moment, b: Moment, c: Moment)
    ensures
        !moment_lt(a, a),
        moment_lt(a, b) || moment_lt(b, a) || a == b,
        moment_lt(a, b) ==> !moment_lt(b, a),
        moment_lt(a, b) && moment_lt(b, c) ==> moment_lt(a, c),
{
}

/// Moments are in the order of the nanoseconds since the same point.
pub proof fn law_moments_follow_the_clock(a: Moment, b: Moment)
    requires
        is_plain_moment(a),
        is_plain_moment(b),
    ensures
        moment_lt(a, b) <==> a.secs * 1_000_000_000 + a.nanos < b.secs * 1_000_000_000 + b.nanos,
{
}

/// The seconds from one moment to a later one are the whole ones: as many as
/// fit between them.
pub proof fn law_whole_seconds_fit_between(a: Moment, b: Moment)
    ensures
        ({
            let between = (b.secs * 1_000_000_000 + b.nanos) - (a.secs * 1_000_000_000 + a.nanos);
            let s = seconds_from(a, b);
            &&& between < 0 ==> s == 0
            &&& between >= 0 ==> s * 1_000_000_000 <= between < (s + 1) * 1_000_000_000
        }),
{
}

} // verus!
