//! What the usage service reports, as the rest of the library reads it.
use vstd::arithmetic::power2::{
    lemma2_to64_rest, lemma_pow2_pos, lemma_pow2_strictly_increases, lemma_pow2_unfold, pow2,
};
use vstd::prelude::*;

use crate::clock::{instant, Timestamp};

verus! {

// ---------------------------------------------------------------------------
// Doubles
// ---------------------------------------------------------------------------

/// The bit that tells the sign of a double.
pub const SIGN_BIT: u64 = 0x8000_0000_0000_0000;

/// Whether the double with the bits `a` comes before the one with the bits `b`:
/// the negative ones come first, those of a larger magnitude before those of a
/// smaller one, then the others in the order of their magnitudes.
pub open spec fn comes_before(a: u64, b: u64) -> bool {
    let a_negative = a >= SIGN_BIT;
    let b_negative = b >= SIGN_BIT;
    if a_negative != b_negative {
        a_negative
    } else if a_negative {
        a % SIGN_BIT > b % SIGN_BIT
    } else {
        a % SIGN_BIT < b % SIGN_BIT
    }
}

/// Where the double with the given bits stands among all doubles. Zero is at 0,
/// and the double before it is the negative zero.
pub open spec fn place_of_bits(bits: u64) -> int {
    if bits < SIGN_BIT {
        bits as int
    } else {
        -1 - (bits - SIGN_BIT)
    }
}

/// Finds where the double with the given bits stands among all doubles.
pub fn place_of(bits: u64) -> (r: i64)
    ensures
        r == place_of_bits(bits),
{
    if bits < SIGN_BIT {
        bits as i64
    } else {
        -1 - (bits - SIGN_BIT) as i64
    }
}

/// Finds the bits of the double that stands at a place.
pub fn bits_at(place: i64) -> (r: u64)
    ensures
        place_of_bits(r) == place,
{
    if place >= 0 {
        place as u64
    } else {
        SIGN_BIT + (-1 - place) as u64
    }
}

/// Places tell doubles apart and keep their order.
pub proof fn law_places_keep_the_order(a: u64, b: u64)
    ensures
        place_of_bits(a) < place_of_bits(b) <==> comes_before(a, b),
        place_of_bits(a) == place_of_bits(b) <==> a == b,
        i64::MIN <= place_of_bits(a) <= i64::MAX,
{
}

/// The whole number of the double at a place that is not negative, before it is
/// divided by a power of two.
pub open spec fn significand(place: int) -> int {
    if place < 0x10_0000_0000_0000 {
        place
    } else {
        0x10_0000_0000_0000 + place % 0x10_0000_0000_0000
    }
}

/// The power of two by which that number is divided, for doubles that are not
/// too large.
pub open spec fn divisor(place: int) -> int {
    pow2(
        if place < 0x10_0000_0000_0000 {
            1074
        } else {
            (1075 - place / 0x10_0000_0000_0000) as nat
        },
    ) as int
}

/// Whether the double at a place is `n` or more.
pub open spec fn at_least(place: int, n: int) -> bool {
    significand(place) >= n * divisor(place)
}

/// Whether the double at a place is `n` or less.
pub open spec fn at_most(place: int, n: int) -> bool {
    significand(place) <= n * divisor(place)
}

/// If the double at the place `t` is `n`, the places from there on are those of
/// the doubles that are at least `n`, and the places up to there are those of
/// the doubles that are at most `n`.
pub(crate) proof fn lemma_places_of_values(p: int, t: int, n: int)
    requires
        0 <= p < 1076 * 0x10_0000_0000_0000,
        2 * 0x10_0000_0000_0000 <= t < 1076 * 0x10_0000_0000_0000,
        significand(t) == n * divisor(t),
    ensures
        at_least(p, n) <==> p >= t,
        at_most(p, n) <==> p <= t,
{
    let unit = 0x10_0000_0000_0000int;
    let et = t / unit;
    let ep = p / unit;
    let dt = divisor(t);
    let dp = divisor(p);
    let kt = (1075 - et) as nat;
    let kp: nat = if p < unit {
        1074
    } else {
        (1075 - ep) as nat
    };
    lemma_pow2_pos(kt);
    lemma_pow2_pos(kp);
    assert(n >= 1) by (nonlinear_arith)
        requires
            n * dt >= 1,
            dt >= 1,
    ;
    if kp > kt {
        lemma_pow2_unfold(kt + 1);
        if kp > kt + 1 {
            lemma_pow2_strictly_increases(kt + 1, kp);
        }
        assert(n * dp >= 2 * (n * dt)) by (nonlinear_arith)
            requires
                dp >= 2 * dt,
                n >= 1,
        ;
    } else if kp < kt {
        lemma_pow2_unfold(kp + 1);
        if kt > kp + 1 {
            lemma_pow2_strictly_increases(kp + 1, kt);
        }
        assert(n * dt >= 2 * (n * dp)) by (nonlinear_arith)
            requires
                dt >= 2 * dp,
                n >= 1,
        ;
    }
}

// ---------------------------------------------------------------------------
// Percentages
// ---------------------------------------------------------------------------

/// A percentage of used quota.
///
/// The service reports it as a double. What the rules of the widget read of
/// that double is kept here: where it stands among all doubles, and the same
/// for what it leaves of a hundred. The parts always belong together.
#[derive(Clone, Copy, Debug, PartialEq, Eq, Structural)]
pub struct Percent {
    used: i64,
    remaining: i64,
    remaining_whole: u32,
}

/// The parts of a percentage.
pub struct PercentView {
    /// The place of the used percentage.
    pub used: i64,
    /// The place of the remaining percentage, which lies between 0 and 100.
    pub remaining: i64,
    /// The remaining percentage, rounded to a whole number.
    pub remaining_whole: u32,
}

/// The place of the double 100.
pub const PLACE_OF_100: i64 = 0x4059_0000_0000_0000;

impl PercentView {
    /// Whether the parts of a percentage can belong together: what remains is
    /// between nothing and everything, everything if nothing is used, and
    /// nothing if everything is used.
    pub open spec fn valid(self) -> bool {
        &&& 0 <= self.remaining <= PLACE_OF_100
        &&& self.remaining_whole <= 100
        &&& self.used <= 0 ==> self.remaining == PLACE_OF_100
        &&& self.used >= PLACE_OF_100 ==> self.remaining == 0
        &&& self.remaining == PLACE_OF_100 ==> self.remaining_whole == 100
        &&& self.remaining == 0 ==> self.remaining_whole == 0
    }
}

impl View for Percent {
    type V = PercentView;

    closed spec fn view(&self) -> PercentView {
        PercentView {
            used: self.used,
            remaining: self.remaining,
            remaining_whole: self.remaining_whole,
        }
    }
}

impl Percent {
    #[verifier::type_invariant]
    spec fn belongs_together(self) -> bool {
        self@.valid()
    }

    /// Puts a percentage together from its parts, if they can belong together.
    pub fn new(used: i64, remaining: i64, remaining_whole: u32) -> (r: Option<Percent>)
        ensures
            r is Some <==> (PercentView { used, remaining, remaining_whole }).valid(),
            r matches Some(p) ==> p@ == (PercentView { used, remaining, remaining_whole }),
    {
        if remaining < 0 || remaining > PLACE_OF_100 || remaining_whole > 100 {
            return None;
        }
        if (used <= 0 && remaining != PLACE_OF_100) || (used >= PLACE_OF_100 && remaining != 0) {
            return None;
        }
        if (remaining == PLACE_OF_100 && remaining_whole != 100) || (remaining == 0
            && remaining_whole != 0) {
            return None;
        }
        Some(Percent { used, remaining, remaining_whole })
    }

    /// The place of the used percentage.
    pub fn used(&self) -> (r: i64)
        ensures
            r == self@.used,
            self@.valid(),
    {
        proof {
            use_type_invariant(self);
        }
        self.used
    }

    /// The place of the remaining percentage.
    pub fn remaining(&self) -> (r: i64)
        ensures
            r == self@.remaining,
            self@.valid(),
    {
        proof {
            use_type_invariant(self);
        }
        self.remaining
    }

    /// The remaining percentage, rounded to a whole number.
    pub fn remaining_whole(&self) -> (r: u32)
        ensures
            r == self@.remaining_whole,
            self@.valid(),
    {
        proof {
            use_type_invariant(self);
        }
        self.remaining_whole
    }
}

/// Nothing used, everything left.
pub open spec fn unused() -> PercentView {
    PercentView { used: 0, remaining: PLACE_OF_100, remaining_whole: 100 }
}

impl Default for Percent {
    fn default() -> (r: Percent)
        ensures
            r@ == unused(),
    {
        Percent { used: 0, remaining: PLACE_OF_100, remaining_whole: 100 }
    }
}

/// One rate-limit window.
#[derive(Clone, Copy, Debug)]
pub struct UsageSection {
    pub percentage: Percent,
    pub resets_at: Option<Timestamp>,
    /// The length of the window as the service gives it, such as 18000 for
    /// five hours and 604800 for seven days.
    pub limit_window_seconds: Option<u64>,
}

/// What a rate-limit window says, with the reset as a point in time.
pub struct SectionView {
    pub percentage: PercentView,
    pub resets_at: Option<int>,
    pub limit_window_seconds: Option<u64>,
}

impl View for UsageSection {
    type V = SectionView;

    open spec fn view(&self) -> SectionView {
        SectionView {
            percentage: self.percentage@,
            resets_at: instant(self.resets_at),
            limit_window_seconds: self.limit_window_seconds,
        }
    }
}

impl Default for UsageSection {
    fn default() -> (r: UsageSection)
        ensures
            r@ == (SectionView {
                percentage: unused(),
                resets_at: None,
                limit_window_seconds: None,
            }),
    {
        UsageSection { percentage: Percent::default(), resets_at: None, limit_window_seconds: None }
    }
}

/// The rate-limit windows that the service reports, in its order: the primary
/// one, then the secondary one. Either may be missing.
#[derive(Clone, Debug)]
pub struct UsageData {
    pub windows: Vec<UsageSection>,
}

impl View for UsageData {
    type V = Seq<SectionView>;

    open spec fn view(&self) -> Seq<SectionView> {
        self.windows@.map_values(|w: UsageSection| w@)
    }
}

impl Default for UsageData {
    fn default() -> (r: UsageData)
        ensures
            r.windows@ == Seq::<UsageSection>::empty(),
    {
        UsageData { windows: Vec::new() }
    }
}

/// The parts of a percentage belong together if they say the same: below nothing used
/// everything is left, above everything used nothing is left, and in between any part of
/// it can be.
pub proof fn law_parts_say_the_same(p: PercentView)
    ensures
        p.used <= 0 ==> (p.valid() <==> p.remaining == PLACE_OF_100 && p.remaining_whole == 100),
        p.used >= PLACE_OF_100 ==> (p.valid() <==> p.remaining == 0 && p.remaining_whole == 0),
        0 < p.used < PLACE_OF_100 && 0 < p.remaining < PLACE_OF_100 ==> (p.valid()
            <==> p.remaining_whole <= 100),
        0 < p.used < PLACE_OF_100 && p.remaining == PLACE_OF_100 ==> (p.valid()
            <==> p.remaining_whole == 100),
        0 < p.used < PLACE_OF_100 && p.remaining == 0 ==> (p.valid() <==> p.remaining_whole == 0),
        p.remaining < 0 || p.remaining > PLACE_OF_100 ==> !p.valid(),
        unused().valid(),
{
}

/// The place of a hundred is that of the double that is neither less nor more.
pub proof fn law_place_of_a_hundred()
    ensures
        at_least(PLACE_OF_100 as int, 100),
        at_most(PLACE_OF_100 as int, 100),
{
    lemma2_to64_rest();
    assert(divisor(PLACE_OF_100 as int) == 0x4000_0000_0000);
}

/// Windows are seen as they are, one by one.
pub proof fn law_windows_are_seen(section: UsageSection, data: UsageData, i: int)
    ensures
        section@.percentage == section.percentage@,
        section@.limit_window_seconds == section.limit_window_seconds,
        section.resets_at is None <==> section@.resets_at is None,
        section.resets_at is Some ==> section@.resets_at->0 == section.resets_at->0@,
        data@.len() == data.windows@.len(),
        0 <= i < data.windows@.len() ==> data@[i] == data.windows@[i]@,
{
}

} // verus!
