use vstd::prelude::*;

verus! {

/// Largest absolute number of seconds from the Unix epoch that a timestamp
/// may carry; every instant that chrono's `DateTime<Utc>` can hold lies within.
pub const MAX_ABS_SECS: i64 = 10_000_000_000_000;

pub const NANOS_PER_SEC: u32 = 1_000_000_000;

/// Upper bound of the sub-second part: a leap second is carried, as chrono
/// carries it, as a second billion of nanoseconds.
pub const MAX_NANOS: u32 = 2_000_000_000;

/// An instant in UTC: whole seconds from the Unix epoch plus a sub-second part.
#[derive(Clone, Copy, Debug, PartialEq, Eq, Structural)]
pub struct UtcTime {
    pub secs: i64,
    pub nanos: u32,
}

impl UtcTime {
    pub open spec fn wf(self) -> bool {
        &&& -MAX_ABS_SECS <= self.secs <= MAX_ABS_SECS
        &&& self.nanos < MAX_NANOS
    }

    /// Nanoseconds since the Unix epoch.
    pub open spec fn total_nanos(self) -> int {
        self.secs as int * NANOS_PER_SEC as int + self.nanos as int
    }
}

/// Whether `a` is not later than `b`.
pub fn not_later(a: UtcTime, b: UtcTime) -> (r: bool)
    ensures
        r == (a.total_nanos() <= b.total_nanos()),
{
    let ta: i128 = a.secs as i128 * 1_000_000_000 + a.nanos as i128;
    let tb: i128 = b.secs as i128 * 1_000_000_000 + b.nanos as i128;
    ta <= tb
}

/// Whole milliseconds from `from` to `to`, rounded toward zero.
pub open spec fn millis_between(from: UtcTime, to: UtcTime) -> int {
    let d = to.total_nanos() - from.total_nanos();
    if d >= 0 {
        d / 1_000_000
    } else {
        -((-d) / 1_000_000)
    }
}

/// Elapsed whole milliseconds between two instants (negative when `to`
/// precedes `from`), truncated toward zero.
pub fn elapsed_millis(from: UtcTime, to: UtcTime) -> (r: i64)
    requires
        from.wf(),
        to.wf(),
    ensures
        r as int == millis_between(from, to),
{
    let ds: i128 = to.secs as i128 - from.secs as i128;
    let dn: i128 = to.nanos as i128 - from.nanos as i128;
    assert(-20_000_000_000_000 <= ds <= 20_000_000_000_000);
    let scaled: i128 = ds * 1_000_000_000;
    let d: i128 = scaled + dn;
    assert(d == to.total_nanos() - from.total_nanos());
    if d >= 0 {
        let q: i128 = d / 1_000_000;
        assert(q <= d);
        q as i64
    } else {
        let m: i128 = 0 - d;
        let q: i128 = m / 1_000_000;
        assert(q <= m);
        (0 - q) as i64
    }
}

} // verus!
