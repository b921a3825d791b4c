//! Instants and their `{seconds, nanos}` wire form.
use vstd::prelude::*;

use crate::error::ParseError;

verus! {

/// Nanoseconds in one second.
pub const NANOS_PER_SEC: i128 = 1_000_000_000;

/// An absolute UTC instant, as signed nanoseconds since the Unix epoch.
#[derive(Clone, Copy, Debug, PartialEq, Eq, PartialOrd, Ord, Hash, Structural)]
pub struct Time {
    /// Nanoseconds since 1970-01-01T00:00:00Z; negative before it.
    pub unix_nanos: i128,
}

impl Time {
    /// The Unix epoch.
    pub fn unix_epoch() -> (r: Time)
        ensures
            r.unix_nanos == 0,
    {
        Time { unix_nanos: 0 }
    }

    /// The instant the given number of nanoseconds after the epoch.
    pub fn from_unix_nanos(unix_nanos: i128) -> (r: Time)
        ensures
            r.unix_nanos == unix_nanos,
    {
        Time { unix_nanos }
    }

    /// The instant `secs` whole seconds plus `nanos` nanoseconds after the
    /// epoch, in the floor convention of calendar libraries.
    pub fn from_unix_parts(secs: i64, nanos: u32) -> (r: Time)
        ensures
            r.unix_nanos == secs * NANOS_PER_SEC + nanos,
    {
        let s = secs as i128;
        assert(-(i64::MAX as int + 1) * NANOS_PER_SEC <= s * NANOS_PER_SEC <= i64::MAX as int
            * NANOS_PER_SEC) by (nonlinear_arith)
            requires
                i64::MIN <= s <= i64::MAX,
        ;
        Time { unix_nanos: s * NANOS_PER_SEC + nanos as i128 }
    }

    /// Floor seconds and the non-negative nanosecond remainder, where the
    /// seconds fit in 64 bits.
    pub fn to_unix_parts(&self) -> (r: Option<(i64, u32)>)
        ensures
            match r {
                Some((secs, nanos)) => {
                    &&& 0 <= nanos < NANOS_PER_SEC
                    &&& secs * NANOS_PER_SEC + nanos == self.unix_nanos
                },
                None => !(i64::MIN * NANOS_PER_SEC <= self.unix_nanos < (i64::MAX as int + 1)
                    * NANOS_PER_SEC),
            },
    {
        let t = self.unix_nanos;
        if t < i64::MIN as i128 * NANOS_PER_SEC || t > i64::MAX as i128 * NANOS_PER_SEC + (
        NANOS_PER_SEC - 1) {
            return None;
        }
        let mut q = t / NANOS_PER_SEC;
        let mut m = t % NANOS_PER_SEC;
        if m < 0 {
            q = q - 1;
            m = m + NANOS_PER_SEC;
        }
        assert(q * NANOS_PER_SEC + m == t);
        assert(i64::MIN <= q <= i64::MAX) by (nonlinear_arith)
            requires
                q * 1_000_000_000 + m == t,
                0 <= m < 1_000_000_000,
                i64::MIN * 1_000_000_000 <= t <= i64::MAX * 1_000_000_000 + 999_999_999,
        ;
        Some((q as i64, m as u32))
    }

    /// The instants that the wire form can express: its seconds fit in 64
    /// bits, and an instant before the epoch lies at least a second before
    /// it, since zero seconds mean a time at or after the epoch.
    pub open spec fn in_msg_range(self) -> bool {
        ||| 0 <= self.unix_nanos < (i64::MAX as int + 1) * NANOS_PER_SEC
        ||| -(i64::MAX as int + 2) * NANOS_PER_SEC < self.unix_nanos <= -NANOS_PER_SEC
    }
}

/// A timestamp on the wire: whole seconds and a nanosecond part. With
/// negative seconds the nanosecond part is a magnitude too, so the instant is
/// the epoch minus both.
#[derive(Clone, Copy, Debug, PartialEq, Eq, Structural)]
pub struct Msg {
    /// Seconds since the epoch; negative before it.
    pub seconds: i64,
    /// Nanoseconds, added to the seconds at or after the epoch and
    /// subtracted before it.
    pub nanos: i32,
}

/// The nanosecond part lies in `0 .. 1_000_000_000`.
pub open spec fn nanos_valid(m: Msg) -> bool {
    0 <= m.nanos < NANOS_PER_SEC
}

/// The instant, in nanoseconds since the epoch, that a timestamp stands for.
pub open spec fn msg_instant(m: Msg) -> int {
    if m.seconds >= 0 {
        m.seconds * NANOS_PER_SEC + m.nanos
    } else {
        m.seconds * NANOS_PER_SEC - m.nanos
    }
}

/// The timestamp of an instant: the magnitude's whole seconds, signed, and
/// the magnitude's nanosecond part.
pub open spec fn instant_msg(t: int) -> Msg {
    if t >= 0 {
        Msg { seconds: (t / NANOS_PER_SEC as int) as i64, nanos: (t % NANOS_PER_SEC as int) as i32 }
    } else {
        Msg {
            seconds: (-((-t) / NANOS_PER_SEC as int)) as i64,
            nanos: ((-t) % NANOS_PER_SEC as int) as i32,
        }
    }
}

impl Msg {
    /// The instant the timestamp stands for; fails where the nanosecond part
    /// is out of range.
    pub fn parse_timestamp(&self) -> (r: Result<Time, ParseError>)
        ensures
            match r {
                Ok(t) => nanos_valid(*self) && t.unix_nanos == msg_instant(*self),
                Err(e) => !nanos_valid(*self) && e == ParseError::Timestamp,
            },
    {
        if self.nanos < 0 || self.nanos as i128 >= NANOS_PER_SEC {
            return Err(ParseError::Timestamp);
        }
        let s = self.seconds as i128;
        let n = self.nanos as i128;
        assert(-(i64::MAX as int + 1) * NANOS_PER_SEC <= s * NANOS_PER_SEC <= i64::MAX as int
            * NANOS_PER_SEC) by (nonlinear_arith)
            requires
                i64::MIN <= s <= i64::MAX,
        ;
        let unix_nanos = if self.seconds >= 0 {
            s * NANOS_PER_SEC + n
        } else {
            s * NANOS_PER_SEC - n
        };
        Ok(Time { unix_nanos })
    }

    /// The timestamp of an instant, where the wire form can express it.
    pub fn from_time(t: Time) -> (r: Option<Msg>)
        ensures
            match r {
                Some(m) => t.in_msg_range() && m == instant_msg(t.unix_nanos as int),
                None => !t.in_msg_range(),
            },
    {
        if !(0 <= t.unix_nanos && t.unix_nanos <= i64::MAX as i128 * NANOS_PER_SEC + (NANOS_PER_SEC - 1))
            && !(-(i64::MAX as i128 + 2) * NANOS_PER_SEC < t.unix_nanos && t.unix_nanos <= -NANOS_PER_SEC) {
            return None;
        }
        Some(if t.unix_nanos >= 0 {
            let q = t.unix_nanos / NANOS_PER_SEC;
            assert(q <= i64::MAX);
            Msg { seconds: q as i64, nanos: (t.unix_nanos % NANOS_PER_SEC) as i32 }
        } else {
            let m = -t.unix_nanos;
            let q = m / NANOS_PER_SEC;
            assert(q <= i64::MAX as int + 1);
            Msg { seconds: (-q) as i64, nanos: (m % NANOS_PER_SEC) as i32 }
        })
    }
}

/// A timestamp whose nanosecond part is in range survives the trip to an
/// instant and back, before the epoch as after it.
pub proof fn lemma_timestamp_round_trip(m: Msg)
    requires
        nanos_valid(m),
    ensures
        (Time { unix_nanos: msg_instant(m) as i128 }).in_msg_range(),
        instant_msg(msg_instant(m)) == m,
{
    let s = m.seconds as int;
    let n = m.nanos as int;
    let b = NANOS_PER_SEC as int;
    if s >= 0 {
        assert((s * b + n) / b == s && (s * b + n) % b == n) by (nonlinear_arith)
            requires
                0 <= n < b,
                b == 1_000_000_000,
                s >= 0,
        ;
        assert(s * b + n < (i64::MAX as int + 1) * b) by (nonlinear_arith)
            requires
                0 <= n < b,
                b == 1_000_000_000,
                s <= i64::MAX,
        ;
    } else {
        assert((-s * b + n) / b == -s && (-s * b + n) % b == n) by (nonlinear_arith)
            requires
                0 <= n < b,
                b == 1_000_000_000,
                s < 0,
        ;
        assert(-(i64::MAX as int + 2) * b < s * b - n) by (nonlinear_arith)
            requires
                0 <= n < b,
                b == 1_000_000_000,
                s >= i64::MIN,
        ;
        assert(-(s * b - n) == -s * b + n) by (nonlinear_arith);
    }
}

} // verus!
