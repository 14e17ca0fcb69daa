//! Points in time, and the system clock.
use vstd::prelude::*;

verus! {

/// Nanoseconds in a second.
pub const NANOS_PER_SEC: u32 = 1_000_000_000;

/// A point in time, to the nanosecond. Its view is the number of nanoseconds
/// since the Unix epoch, negative before it.
#[derive(Clone, Copy, Debug, PartialEq, Eq, Structural)]
pub struct Timestamp {
    secs: i64,
    nanos: u32,
}

/// The points in time that a [`Timestamp`] can hold.
pub open spec fn representable(t: int) -> bool {
    i64::MIN * 1_000_000_000 <= t < (i64::MAX + 1) * 1_000_000_000
}

/// The point in time, if there is one.
pub open spec fn instant(t: Option<Timestamp>) -> Option<int> {
    match t {
        Some(t) => Some(t@),
        None => None,
    }
}

impl View for Timestamp {
    type V = int;

    closed spec fn view(&self) -> int {
        self.secs * 1_000_000_000 + self.nanos
    }
}

impl Timestamp {
    #[verifier::type_invariant]
    spec fn normalized(self) -> bool {
        self.nanos < 1_000_000_000
    }

    /// The point `secs` seconds and `nanos` nanoseconds after the Unix epoch,
    /// or nothing if the nanoseconds make a second or more.
    pub fn new(secs: i64, nanos: u32) -> (r: Option<Timestamp>)
        ensures
            r is Some <==> nanos < 1_000_000_000,
            r matches Some(t) ==> t@ == secs * 1_000_000_000 + nanos,
    {
        if nanos < NANOS_PER_SEC {
            Some(Timestamp { secs, nanos })
        } else {
            None
        }
    }

    /// The point `secs` seconds after the Unix epoch.
    pub fn from_unix_secs(secs: i64) -> (r: Timestamp)
        ensures
            r@ == secs * 1_000_000_000,
    {
        Timestamp { secs, nanos: 0 }
    }

    /// The whole seconds since the Unix epoch, rounded down.
    pub fn unix_secs(&self) -> (r: i64)
        ensures
            r == self@ / 1_000_000_000,
    {
        proof {
            use_type_invariant(self);
        }
        self.secs
    }

    /// The nanoseconds past the whole second.
    pub fn subsec_nanos(&self) -> (r: u32)
        ensures
            r == self@ % 1_000_000_000,
    {
        proof {
            use_type_invariant(self);
        }
        self.nanos
    }

    /// Whether this point comes before `other`.
    pub fn is_before(&self, other: &Timestamp) -> (r: bool)
        ensures
            r == (self@ < other@),
    {
        proof {
            use_type_invariant(self);
            use_type_invariant(other);
        }
        self.secs < other.secs || (self.secs == other.secs && self.nanos < other.nanos)
    }

    /// The whole seconds from `earlier` to this point, or nothing if this
    /// point comes before `earlier`.
    pub fn whole_secs_since(&self, earlier: &Timestamp) -> (r: Option<u64>)
        ensures
            r is Some <==> earlier@ <= self@,
            r matches Some(secs) ==> secs == (self@ - earlier@) / 1_000_000_000,
    {
        if self.is_before(earlier) {
            return None;
        }
        proof {
            use_type_invariant(self);
            use_type_invariant(earlier);
        }
        let whole: i128 = self.secs as i128 - earlier.secs as i128;
        let secs: i128 = if self.nanos < earlier.nanos {
            whole - 1
        } else {
            whole
        };
        Some(secs as u64)
    }
}

/// The point in time that a reading of the clock stands for: seconds and
/// nanoseconds after the Unix epoch (`Ok`) or before it (`Err`). A reading
/// that a [`Timestamp`] cannot hold counts as the nearest whole second that it
/// can.
pub open spec fn reading_time(reading: Result<(u64, u32), (u64, u32)>) -> int {
    match reading {
        Ok((secs, nanos)) => if secs <= i64::MAX {
            secs * 1_000_000_000 + nanos
        } else {
            i64::MAX * 1_000_000_000
        },
        Err((secs, nanos)) => if secs <= i64::MAX {
            -(secs * 1_000_000_000 + nanos)
        } else {
            i64::MIN * 1_000_000_000
        },
    }
}

/// The point in time that a reading of the clock stands for.
pub fn timestamp_of_reading(reading: Result<(u64, u32), (u64, u32)>) -> (r: Timestamp)
    requires
        reading matches Ok(p) ==> p.1 < 1_000_000_000,
        reading matches Err(p) ==> p.1 < 1_000_000_000,
    ensures
        r@ == reading_time(reading),
{
    match reading {
        Ok((secs, nanos)) => if secs <= i64::MAX as u64 {
            Timestamp { secs: secs as i64, nanos }
        } else {
            Timestamp { secs: i64::MAX, nanos: 0 }
        },
        Err((secs, nanos)) => if secs <= i64::MAX as u64 {
            if nanos == 0 {
                Timestamp { secs: -(secs as i64), nanos: 0 }
            } else {
                Timestamp { secs: -(secs as i64) - 1, nanos: NANOS_PER_SEC - nanos }
            }
        } else {
            Timestamp { secs: i64::MIN, nanos: 0 }
        },
    }
}

/// `SystemTime::now`, read as the time since the Unix epoch (`Ok`) or the time
/// that is left until it (`Err`), in seconds and nanoseconds. Of the reading
/// nothing is known but that its nanoseconds make less than a second, as
/// `Duration::subsec_nanos` promises.
#[verifier::external_body]
fn read_clock() -> (reading: Result<(u64, u32), (u64, u32)>)
    ensures
        reading matches Ok(p) ==> p.1 < 1_000_000_000,
        reading matches Err(p) ==> p.1 < 1_000_000_000,
{
    match std::time::SystemTime::now().duration_since(std::time::UNIX_EPOCH) {
        Ok(d) => Ok((d.as_secs(), d.subsec_nanos())),
        Err(e) => Err((e.duration().as_secs(), e.duration().subsec_nanos())),
    }
}

/// The current time: some representable point, whatever the clock says.
pub fn now() -> (r: Timestamp)
    ensures
        representable(r@),
{
    let r = timestamp_of_reading(read_clock());
    proof {
        use_type_invariant(&r);
    }
    r
}

/// A reading after the epoch is that many seconds and nanoseconds after it, and one
/// before the epoch is as far before it; a reading that is too far away counts as the
/// last whole second on its side. So of two readings the earlier one never comes
/// later.
pub proof fn law_readings_are_exact(secs: u64, nanos: u32, later_secs: u64, later_nanos: u32)
    requires
        nanos < 1_000_000_000,
        later_nanos < 1_000_000_000,
        secs * 1_000_000_000 + nanos <= later_secs * 1_000_000_000 + later_nanos,
        later_secs < i64::MAX,
    ensures
        ({
            let t = reading_time(Ok((secs, nanos)));
            &&& t / 1_000_000_000 == secs
            &&& t % 1_000_000_000 == nanos
            &&& reading_time(Err((secs, nanos))) == -t
            &&& representable(t) && representable(-t)
            &&& t <= reading_time(Ok((later_secs, later_nanos)))
        }),
        reading_time(Ok((u64::MAX, nanos))) == i64::MAX * 1_000_000_000,
        reading_time(Err((u64::MAX, nanos))) == i64::MIN * 1_000_000_000,
{
}

/// A point in time is seen as it is, if there is one.
pub proof fn law_instants_are_seen(t: Timestamp)
    ensures
        instant(Some(t)) == Some(t@),
        instant(None) is None,
{
}

} // verus!
