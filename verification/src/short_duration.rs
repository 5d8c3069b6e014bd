//! Durations of up to about 48 days, with millisecond precision.
use vstd::prelude::*;

use std::time::Duration;

verus! {

/// An unsigned duration with millisecond precision.
///
/// Maximum duration is about 48 days.
#[derive(Debug, Clone, Copy, PartialEq, Eq, Structural, Hash, Ord, PartialOrd)]
pub struct ShortDuration {
    millis: u32,
}

/// `a`, or `u32::MAX` when `a` is larger.
pub open spec fn saturate(a: int) -> u32 {
    if a > u32::MAX {
        u32::MAX
    } else if a < 0 {
        0
    } else {
        a as u32
    }
}

/// The total number of whole milliseconds in `d`, as `Duration::as_millis` returns it: a
/// function of `d` alone.
pub uninterp spec fn duration_millis(d: Duration) -> u128;

/// The whole milliseconds of `d`, from `Duration::as_millis`; the contract names the result
/// [`duration_millis`] of `d`.
#[verifier::external_body]
fn std_duration_as_millis(d: &Duration) -> (m: u128)
    ensures
        m == duration_millis(*d),
{
    d.as_millis()
}

/// A `Duration` of `millis` milliseconds, from `Duration::from_millis`. Its documentation says it
/// makes a duration of exactly that many milliseconds, so `Duration::as_millis` and
/// `Duration::as_nanos` read back `millis` milliseconds; the contract states these two facts and
/// nothing else of the result.
#[verifier::external_body]
fn std_duration_from_millis(millis: u64) -> (d: Duration)
    ensures
        duration_millis(d) == millis,
        crate::update_loop::duration_nanos(d) == millis * 1_000_000,
{
    Duration::from_millis(millis)
}

impl View for ShortDuration {
    type V = nat;

    /// The length of the duration in milliseconds.
    closed spec fn view(&self) -> nat {
        self.millis as nat
    }
}

impl ShortDuration {
    /// The duration of `millis` milliseconds.
    pub closed spec fn of_millis(millis: u32) -> ShortDuration {
        ShortDuration { millis }
    }

    /// A duration is determined by its length.
    pub proof fn lemma_view_determines(a: ShortDuration, b: ShortDuration)
        ensures
            a@ == b@ ==> a == b,
            a == ShortDuration::of_millis(a@ as u32),
            a@ <= u32::MAX,
    {
    }

    /// Creates a new `ShortDuration` from milliseconds.
    #[must_use]
    pub fn from_millis(millis: u32) -> (d: Self)
        ensures
            d@ == millis,
            d == ShortDuration::of_millis(millis),
    {
        Self { millis }
    }

    /// Creates a new [`ShortDuration`] from `d` if it fits. Otherwise, returns [`None`].
    ///
    /// The whole milliseconds of `d` are read through `Duration::as_millis`.
    #[must_use]
    pub fn from_std(d: Duration) -> (r: Option<Self>)
        ensures
            duration_millis(d) <= u32::MAX <==> r is Some,
            r matches Some(s) ==> s@ == duration_millis(d),
    {
        let millis = std_duration_as_millis(&d);
        Self::from_u128_millis(millis)
    }

    /// The duration of `millis` milliseconds if it fits, as [`ShortDuration::from_std`] makes it
    /// from the milliseconds of a `Duration`.
    #[must_use]
    pub fn from_u128_millis(millis: u128) -> (r: Option<Self>)
        ensures
            millis <= u32::MAX <==> r is Some,
            r matches Some(s) ==> s@ == millis,
    {
        if millis <= u32::MAX as u128 {
            Some(Self::from_millis(millis as u32))
        } else {
            None
        }
    }

    /// Creates a new `ShortDuration` from seconds, saturating at the largest duration.
    #[must_use]
    pub fn from_seconds(secs: u32) -> (d: Self)
        ensures
            d@ == saturate(secs * 1000),
    {
        let millis = match secs.checked_mul(1000) {
            Some(m) => m,
            None => u32::MAX,
        };
        Self { millis }
    }

    /// Returns the total number of milliseconds in this duration.
    #[must_use]
    pub fn as_millis(&self) -> (m: u32)
        ensures
            m == self@,
    {
        self.millis
    }

    /// Returns the whole seconds part of this duration.
    #[must_use]
    pub fn as_secs(&self) -> (s: u32)
        ensures
            s == self@ / 1000,
    {
        self.millis / 1000
    }

    /// Converts `self` to [`std::time::Duration`] with `Duration::from_millis`.
    /// This conversion is not free.
    ///
    /// The result holds exactly this many milliseconds.
    #[must_use]
    pub fn as_std(&self) -> (d: Duration)
        ensures
            duration_millis(d) == self@,
            crate::update_loop::duration_nanos(d) == self@ * 1_000_000,
    {
        std_duration_from_millis(self.as_millis() as u64)
    }

    /// Returns the milliseconds part not making up a full second.
    #[must_use]
    pub fn subsec_millis(&self) -> (m: u32)
        ensures
            m == self@ % 1000,
    {
        self.millis % 1000
    }

    /// Checked add: returns None if overflow occurs.
    pub fn checked_add(self, other: ShortDuration) -> (r: Option<Self>)
        ensures
            self@ + other@ <= u32::MAX <==> r is Some,
            r matches Some(s) ==> s@ == self@ + other@,
    {
        match self.millis.checked_add(other.millis) {
            Some(m) => Some(Self::from_millis(m)),
            None => None,
        }
    }

    /// Checked sub: returns None if underflow occurs.
    pub fn checked_sub(self, other: ShortDuration) -> (r: Option<Self>)
        ensures
            other@ <= self@ <==> r is Some,
            r matches Some(s) ==> s@ == self@ - other@,
    {
        match self.millis.checked_sub(other.millis) {
            Some(m) => Some(Self::from_millis(m)),
            None => None,
        }
    }

    /// Subtraction, saturating at zero instead of underflowing.
    #[must_use]
    pub fn saturating_sub(self, other: ShortDuration) -> (d: Self)
        ensures
            d@ == saturate(self@ - other@),
    {
        Self::from_millis(self.millis.saturating_sub(other.millis))
    }

    /// Addition, saturating at the largest duration instead of overflowing.
    #[must_use]
    pub fn saturating_add(self, other: ShortDuration) -> (d: Self)
        ensures
            d@ == saturate((self@ + other@) as int),
    {
        Self::from_millis(self.millis.saturating_add(other.millis))
    }

    /// Multiplication, saturating at the largest duration instead of overflowing.
    #[must_use]
    pub fn saturating_mul(self, rhs: u32) -> (d: Self)
        ensures
            d@ == saturate((self@ * rhs) as int),
    {
        let millis = match self.millis.checked_mul(rhs) {
            Some(m) => m,
            None => u32::MAX,
        };
        Self::from_millis(millis)
    }

    /// Division, saturating at u32 bounds instead of overflowing.
    ///
    /// Not defined when `rhs` is zero: `requires` rules it out.
    #[must_use]
    pub fn saturating_div(self, rhs: u32) -> (d: Self)
        requires
            rhs != 0,
        ensures
            d@ == self@ / (rhs as nat),
    {
        Self::from_millis(self.millis / rhs)
    }
}

impl Default for ShortDuration {
    /// The zero duration.
    fn default() -> (d: Self)
        ensures
            d@ == 0,
    {
        ShortDuration { millis: 0 }
    }
}

/// Returned when a `Duration` is too long for a [`ShortDuration`].
#[derive(Debug, Clone, Copy, PartialEq, Eq, Structural)]
pub struct OutOfBoundsError;

/// A `Duration` is opaque here, so nothing is promised of `try_from` through this spec; what
/// holds of its result is what [`ShortDuration::from_std`] states.
impl vstd::std_specs::convert::TryFromSpecImpl<Duration> for ShortDuration {
    open spec fn obeys_try_from_spec() -> bool {
        false
    }

    open spec fn try_from_spec(v: Duration) -> Result<ShortDuration, OutOfBoundsError> {
        arbitrary()
    }
}

impl core::convert::TryFrom<Duration> for ShortDuration {
    type Error = OutOfBoundsError;

    /// The [`ShortDuration`] of `d`'s whole milliseconds, as [`ShortDuration::from_std`] makes
    /// it, or [`OutOfBoundsError`] when they do not fit.
    fn try_from(d: Duration) -> (r: Result<Self, OutOfBoundsError>)
        ensures
            duration_millis(d) <= u32::MAX <==> r is Ok,
            r matches Ok(s) ==> s@ == duration_millis(d),
    {
        match Self::from_std(d) {
            Some(s) => Ok(s),
            None => Err(OutOfBoundsError),
        }
    }
}

/// `from_spec` is not used (`obeys_from_spec` is false): what holds of the result of `from` is
/// stated on `from` itself, over the milliseconds and nanoseconds it holds.
impl vstd::std_specs::convert::FromSpecImpl<ShortDuration> for Duration {
    open spec fn obeys_from_spec() -> bool {
        false
    }

    open spec fn from_spec(v: ShortDuration) -> Duration {
        arbitrary()
    }
}

impl From<ShortDuration> for Duration {
    /// The `Duration` of the same length, as [`ShortDuration::as_std`] makes it.
    fn from(sd: ShortDuration) -> (d: Duration)
        ensures
            duration_millis(d) == sd@,
            crate::update_loop::duration_nanos(d) == sd@ * 1_000_000,
    {
        sd.as_std()
    }
}

impl vstd::std_specs::ops::AddSpecImpl for ShortDuration {
    open spec fn obeys_add_spec() -> bool {
        true
    }

    open spec fn add_req(self, rhs: ShortDuration) -> bool {
        true
    }

    open spec fn add_spec(self, rhs: ShortDuration) -> ShortDuration {
        ShortDuration::of_millis(saturate((self@ + rhs@) as int))
    }
}

impl core::ops::Add for ShortDuration {
    type Output = Self;

    /// Addition, saturating at the largest duration.
    fn add(self, rhs: Self) -> (d: Self)
        ensures
            d@ == saturate((self@ + rhs@) as int),
    {
        self.saturating_add(rhs)
    }
}

impl vstd::std_specs::ops::SubSpecImpl for ShortDuration {
    open spec fn obeys_sub_spec() -> bool {
        true
    }

    open spec fn sub_req(self, rhs: ShortDuration) -> bool {
        true
    }

    open spec fn sub_spec(self, rhs: ShortDuration) -> ShortDuration {
        ShortDuration::of_millis(saturate(self@ - rhs@))
    }
}

impl core::ops::Sub for ShortDuration {
    type Output = Self;

    /// Subtraction, saturating at zero.
    fn sub(self, rhs: Self) -> (d: Self)
        ensures
            d@ == saturate(self@ - rhs@),
    {
        self.saturating_sub(rhs)
    }
}

impl vstd::std_specs::ops::MulSpecImpl<u32> for ShortDuration {
    open spec fn obeys_mul_spec() -> bool {
        true
    }

    /// The product must fit in a `u32`.
    open spec fn mul_req(self, rhs: u32) -> bool {
        self@ * rhs <= u32::MAX
    }

    open spec fn mul_spec(self, rhs: u32) -> ShortDuration {
        ShortDuration::of_millis((self@ * rhs) as u32)
    }
}

impl core::ops::Mul<u32> for ShortDuration {
    type Output = ShortDuration;

    /// Multiplication by a factor; the product must fit.
    fn mul(self, rhs: u32) -> (d: Self::Output)
        ensures
            d@ == self@ * rhs,
    {
        ShortDuration::from_millis(self.as_millis() * rhs)
    }
}

impl vstd::std_specs::ops::DivSpecImpl<u32> for ShortDuration {
    open spec fn obeys_div_spec() -> bool {
        true
    }

    /// The divisor must not be zero.
    open spec fn div_req(self, rhs: u32) -> bool {
        rhs != 0
    }

    open spec fn div_spec(self, rhs: u32) -> ShortDuration {
        ShortDuration::of_millis((self@ / (rhs as nat)) as u32)
    }
}

impl core::ops::Div<u32> for ShortDuration {
    type Output = ShortDuration;

    /// Division by a non-zero divisor, rounding down.
    fn div(self, rhs: u32) -> (d: Self::Output)
        ensures
            d@ == self@ / (rhs as nat),
    {
        ShortDuration::from_millis(self.as_millis() / rhs)
    }
}

impl core::ops::AddAssign for ShortDuration {
    /// Adds `rhs` in place; the milliseconds wrap around past the largest duration, as `+=` on a
    /// `u32` does in release builds.
    fn add_assign(&mut self, rhs: Self)
        ensures
            final(self)@ == (old(self)@ + rhs@) % 0x1_0000_0000,
    {
        self.millis = self.millis.wrapping_add(rhs.millis);
    }
}

impl core::ops::SubAssign for ShortDuration {
    /// Subtracts `rhs` in place; the milliseconds wrap around below zero, as `-=` on a `u32` does
    /// in release builds.
    fn sub_assign(&mut self, rhs: Self)
        ensures
            final(self)@ == (old(self)@ - rhs@) % 0x1_0000_0000,
    {
        self.millis = self.millis.wrapping_sub(rhs.millis);
    }
}

/// Checked addition succeeds exactly when saturating addition does not saturate, and then both
/// give the same duration; the same holds of subtraction. Subtracting what was added gives back
/// the start.
pub proof fn lemma_checked_and_saturating(a: ShortDuration, b: ShortDuration)
    ensures
        a@ + b@ <= u32::MAX ==> saturate((a@ + b@) as int) == a@ + b@,
        a@ + b@ > u32::MAX ==> saturate((a@ + b@) as int) == u32::MAX,
        b@ <= a@ ==> saturate(a@ - b@) == a@ - b@,
        b@ > a@ ==> saturate(a@ - b@) == 0,
        a@ + b@ <= u32::MAX ==> saturate(saturate((a@ + b@) as int) - b@) == a@,
{
}

/// The seconds and the leftover milliseconds of a duration make up the whole of it.
pub proof fn lemma_secs_and_subsec(d: ShortDuration)
    ensures
        (d@ / 1000) * 1000 + d@ % 1000 == d@,
        d@ % 1000 < 1000,
{
}

/// A duration turned into a `Duration` (by [`ShortDuration::as_std`]) and back (by
/// [`ShortDuration::from_std`]) is the same duration: the milliseconds read back fit, and they
/// make `s` again.
pub proof fn lemma_std_round_trip(s: ShortDuration, d: Duration)
    requires
        duration_millis(d) == s@,
    ensures
        duration_millis(d) <= u32::MAX,
        ShortDuration::of_millis(duration_millis(d) as u32) == s,
{
    ShortDuration::lemma_view_determines(s, ShortDuration::of_millis(duration_millis(d) as u32));
}

} // verus!
