//! A signed angle held as an exact count of whole microarcseconds.

use vstd::math::abs;
use vstd::prelude::*;

use vstd::std_specs::cmp::PartialOrdSpec;
use vstd::std_specs::ops::AddSpec;
use vstd::std_specs::ops::SubSpec;

use crate::measure::Measure;
use crate::rounding::clamp_to_i64;
use crate::rounding::pow10;
use crate::rounding::pow10_u128;
use crate::rounding::round_half_away;

verus! {

/// A signed angle with a resolution of one microarcsecond (one degree is
/// 3_600_000_000 microarcseconds). When used as a latitude or longitude this
/// is roughly a precision of 0.03 millimetres at the equator.
///
/// The count is the sole state: equality and ordering go by it alone, and
/// all arithmetic after construction is exact integer arithmetic.
#[derive(Clone, Copy, Debug, PartialEq, Eq, Ord, Structural)]
pub struct Angle {
    /// Number of whole microarcseconds.
    microarcseconds: i64,
}

impl View for Angle {
    type V = int;

    closed spec fn view(&self) -> int {
        self.microarcseconds as int
    }
}

/// The angle whose microarcsecond count is `uas`, for counts in the `i64`
/// range.
pub closed spec fn angle_of(uas: int) -> Angle {
    Angle { microarcseconds: uas as i64 }
}

pub proof fn lemma_angle_of_view(uas: int)
    requires
        i64::MIN <= uas <= i64::MAX,
    ensures
        angle_of(uas)@ == uas,
{
}

/// Law: two angles are the same value exactly when their microarcsecond
/// counts agree.
pub proof fn lemma_eq_iff_microarcseconds(a: Angle, b: Angle)
    ensures
        (a == b) <==> (a@ == b@),
{
}

/// The error returned by [`Angle::from_dms`]: exactly two recoverable kinds,
/// both raised only by that constructor.
#[derive(Clone, Copy, Debug, PartialEq, Eq, Structural)]
pub enum DmsError {
    /// Arcminutes are outside [0, 59].
    InvalidArcMinutes,
    /// Arcseconds are outside [0, 60): a full minute of seconds belongs in
    /// the minutes field.
    InvalidArcSeconds,
}

/// The decimal-degree value `mantissa / 10^fraction_digits`, scaled to
/// microarcseconds and rounded half away from zero.
pub open spec fn decimal_degrees_to_uas(mantissa: int, fraction_digits: nat) -> int {
    round_half_away(mantissa * 3_600_000_000, pow10(fraction_digits))
}

/// The exact microarcsecond count named by a DMS triple whose seconds field
/// is a count of microarcseconds. Minutes and seconds are magnitudes; only
/// the degree field carries the sign.
pub open spec fn dms_to_uas(degs: int, mins: int, secs_uas: int) -> int {
    let magnitude = abs(degs) * 3_600_000_000 + mins * 60_000_000 + secs_uas;
    if degs < 0 {
        -magnitude
    } else {
        magnitude
    }
}

/// The whole-degree component: the absolute count divided by one degree,
/// truncated toward zero, with the angle's sign reapplied.
pub open spec fn whole_degrees_of(uas: int) -> int {
    if uas < 0 {
        -((abs(uas) as int) / 3_600_000_000)
    } else {
        (abs(uas) as int) / 3_600_000_000
    }
}

/// The arcminutes component of the absolute count, in [0, 59].
pub open spec fn arcminutes_of(uas: int) -> int {
    ((abs(uas) as int) / 60_000_000) % 60
}

/// The arcseconds component of the absolute count, in [0, 59].
pub open spec fn arcseconds_of(uas: int) -> int {
    ((abs(uas) as int) / 1_000_000) % 60
}

/// The arcmilliseconds component of the absolute count, in [0, 999].
pub open spec fn arcmilliseconds_of(uas: int) -> int {
    ((abs(uas) as int) / 1_000) % 1_000
}

impl Angle {
    /// Equivalent to `Angle::from_decimal_degrees(0, 0)`.
    pub fn zero() -> (a: Angle)
        ensures
            a@ == 0,
    {
        Angle { microarcseconds: 0 }
    }

    /// The angle nearest to `mantissa / 10^fraction_digits` decimal degrees.
    /// The value is scaled to microarcseconds and rounded half away from
    /// zero — the single point where sub-resolution precision is collapsed —
    /// and a count beyond the `i64` range collapses to the nearest
    /// representable count. Up to 18 fractional digits are carried, so the
    /// intermediate products fit the machine word; a finer decimal lies
    /// billions of times below one microarcsecond.
    pub fn from_decimal_degrees(mantissa: i64, fraction_digits: u32) -> (a: Angle)
        requires
            fraction_digits <= 18,
        ensures
            a@ == clamp_to_i64(decimal_degrees_to_uas(mantissa as int, fraction_digits as nat)),
    {
        let divisor: u128 = pow10_u128(fraction_digits);
        let magnitude: u128 = if mantissa < 0 {
            (-(mantissa as i128)) as u128
        } else {
            mantissa as u128
        };
        let scaled: u128 = magnitude * 3_600_000_000;
        let rounded: u128 = (2 * scaled + divisor) / (2 * divisor);
        if mantissa < 0 {
            if rounded >= 9_223_372_036_854_775_808u128 {
                Angle { microarcseconds: i64::MIN }
            } else {
                Angle { microarcseconds: -(rounded as i64) }
            }
        } else {
            if rounded > 9_223_372_036_854_775_807u128 {
                Angle { microarcseconds: i64::MAX }
            } else {
                Angle { microarcseconds: rounded as i64 }
            }
        }
    }

    /// Builds the angle named by conventional DMS notation. The seconds
    /// field `secs_uas` is an exact count of microarcseconds (one arcsecond
    /// is 1_000_000 microarcseconds), so fractional seconds carry no
    /// rounding. Minutes and seconds are magnitudes; only the degree field
    /// carries the sign, and a degree field of zero counts as non-negative.
    /// Fails with [`DmsError::InvalidArcMinutes`] when `mins` is outside
    /// [0, 59], and with [`DmsError::InvalidArcSeconds`] when `secs_uas` is
    /// outside [0, 60_000_000); otherwise it succeeds, and a count beyond
    /// the `i64` range collapses to the nearest representable count.
    pub fn from_dms(degs: i64, mins: i64, secs_uas: i64) -> (r: Result<Angle, DmsError>)
        ensures
            r is Err <==> (mins < 0 || mins > 59 || secs_uas < 0 || secs_uas >= 60_000_000),
            (mins < 0 || mins > 59) ==> r == Err::<Angle, DmsError>(DmsError::InvalidArcMinutes),
            (0 <= mins <= 59 && !(0 <= secs_uas < 60_000_000)) ==> r == Err::<Angle, DmsError>(
                DmsError::InvalidArcSeconds,
            ),
            r matches Ok(a) ==> a@ == clamp_to_i64(
                dms_to_uas(degs as int, mins as int, secs_uas as int),
            ),
    {
        if mins < 0 || mins > 59 {
            Err(DmsError::InvalidArcMinutes)
        } else if secs_uas < 0 || secs_uas >= 60_000_000 {
            Err(DmsError::InvalidArcSeconds)
        } else {
            let dmag: u128 = if degs < 0 {
                (-(degs as i128)) as u128
            } else {
                degs as u128
            };
            let magnitude: u128 =
                dmag * 3_600_000_000 + (mins as u128) * 60_000_000 + (secs_uas as u128);
            let uas: i64 = if degs < 0 {
                if magnitude >= 9_223_372_036_854_775_808u128 {
                    i64::MIN
                } else {
                    -(magnitude as i64)
                }
            } else {
                if magnitude > 9_223_372_036_854_775_807u128 {
                    i64::MAX
                } else {
                    magnitude as i64
                }
            };
            Ok(Angle { microarcseconds: uas })
        }
    }

    /// The raw exact count of microarcseconds.
    pub fn microarcseconds(self) -> (r: i64)
        ensures
            r == self@,
    {
        self.microarcseconds
    }

    /// The absolute count of microarcseconds.
    fn magnitude_uas(self) -> (m: u64)
        ensures
            m == abs(self@),
    {
        if self.microarcseconds < 0 {
            (-(self.microarcseconds as i128)) as u64
        } else {
            self.microarcseconds as u64
        }
    }

    /// Shared decomposition step: the absolute count divided by a unit
    /// scale, then reduced modulo the field's period.
    fn dms_field(self, divisor: u64, modulus: u64) -> (r: u64)
        requires
            divisor >= 1,
            modulus >= 1,
        ensures
            r == ((abs(self@) as int) / (divisor as int)) % (modulus as int),
    {
        self.magnitude_uas() / divisor % modulus
    }

    /// The whole-degree component of this angle: truncated toward zero, and
    /// the only DMS component that carries the sign.
    pub fn whole_degrees(self) -> (r: i64)
        ensures
            r == whole_degrees_of(self@),
    {
        let magnitude: u64 = self.magnitude_uas();
        let d: u64 = magnitude / 3_600_000_000;
        proof {
            vstd::arithmetic::div_mod::lemma_div_is_ordered(
                magnitude as int,
                u64::MAX as int,
                3_600_000_000,
            );
        }
        if self.microarcseconds < 0 {
            -(d as i64)
        } else {
            d as i64
        }
    }

    /// The arcminutes component of this angle: a magnitude in [0, 59] that
    /// never carries the sign.
    pub fn arcminutes(self) -> (r: u8)
        ensures
            r == arcminutes_of(self@),
    {
        self.dms_field(60_000_000, 60) as u8
    }

    /// The arcseconds component of this angle: a magnitude in [0, 59] that
    /// never carries the sign.
    pub fn arcseconds(self) -> (r: u8)
        ensures
            r == arcseconds_of(self@),
    {
        self.dms_field(1_000_000, 60) as u8
    }

    /// The arcmilliseconds component of this angle: a magnitude in [0, 999]
    /// that never carries the sign.
    pub fn arcmilliseconds(self) -> (r: u16)
        ensures
            r == arcmilliseconds_of(self@),
    {
        self.dms_field(1_000, 1_000) as u16
    }
}

impl Measure for Angle {
    open spec fn resolution(self) -> int {
        self@
    }

    fn from_resolution_unit(amount: i64) -> (m: Self) {
        Angle { microarcseconds: amount }
    }

    fn as_resolution_unit(self) -> (r: i64) {
        self.microarcseconds
    }
}

impl vstd::std_specs::cmp::PartialOrdSpecImpl for Angle {
    open spec fn obeys_partial_cmp_spec() -> bool {
        true
    }

    open spec fn partial_cmp_spec(&self, other: &Angle) -> Option<core::cmp::Ordering> {
        if self@ < other@ {
            Some(core::cmp::Ordering::Less)
        } else if self@ == other@ {
            Some(core::cmp::Ordering::Equal)
        } else {
            Some(core::cmp::Ordering::Greater)
        }
    }
}

impl PartialOrd for Angle {
    /// Ordering goes by the microarcsecond count alone.
    fn partial_cmp(&self, other: &Angle) -> (r: Option<core::cmp::Ordering>) {
        if self.microarcseconds < other.microarcseconds {
            Some(core::cmp::Ordering::Less)
        } else if self.microarcseconds == other.microarcseconds {
            Some(core::cmp::Ordering::Equal)
        } else {
            Some(core::cmp::Ordering::Greater)
        }
    }
}

impl vstd::std_specs::ops::AddSpecImpl for Angle {
    open spec fn obeys_add_spec() -> bool {
        true
    }

    open spec fn add_req(self, rhs: Angle) -> bool {
        i64::MIN <= self@ + rhs@ <= i64::MAX
    }

    open spec fn add_spec(self, rhs: Angle) -> Self::Output {
        angle_of(self@ + rhs@)
    }
}

impl core::ops::Add for Angle {
    type Output = Angle;

    /// Exact addition of the microarcsecond counts.
    fn add(self, rhs: Angle) -> (r: Angle)
        ensures
            r@ == self@ + rhs@,
    {
        self.plus(rhs)
    }
}

impl vstd::std_specs::ops::SubSpecImpl for Angle {
    open spec fn obeys_sub_spec() -> bool {
        true
    }

    open spec fn sub_req(self, rhs: Angle) -> bool {
        i64::MIN <= self@ - rhs@ <= i64::MAX
    }

    open spec fn sub_spec(self, rhs: Angle) -> Self::Output {
        angle_of(self@ - rhs@)
    }
}

impl core::ops::Sub for Angle {
    type Output = Angle;

    /// Exact subtraction of the microarcsecond counts.
    fn sub(self, rhs: Angle) -> (r: Angle)
        ensures
            r@ == self@ - rhs@,
    {
        self.minus(rhs)
    }
}

impl vstd::std_specs::ops::NegSpecImpl for Angle {
    open spec fn obeys_neg_spec() -> bool {
        true
    }

    open spec fn neg_req(self) -> bool {
        self@ != i64::MIN
    }

    open spec fn neg_spec(self) -> Self::Output {
        angle_of(-self@)
    }
}

impl core::ops::Neg for Angle {
    type Output = Angle;

    /// Exact negation of the microarcsecond count.
    fn neg(self) -> (r: Angle)
        ensures
            r@ == -self@,
    {
        self.negated()
    }
}

/// Law: the order on angles is exactly the order on their microarcsecond
/// counts, and equality is decided by the counts alone.
pub proof fn lemma_order_iff_microarcseconds(a: Angle, b: Angle)
    ensures
        (a.partial_cmp_spec(&b) == Some(core::cmp::Ordering::Less)) <==> (a@ < b@),
        (a.partial_cmp_spec(&b) == Some(core::cmp::Ordering::Equal)) <==> (a@ == b@),
        (a.partial_cmp_spec(&b) == Some(core::cmp::Ordering::Greater)) <==> (a@ > b@),
        (a == b) <==> (a@ == b@),
{
}

/// Law: adding an angle and then subtracting it again restores the original
/// value exactly — the counts are integers, so nothing drifts.
pub proof fn lemma_add_sub_cancel(a: Angle, b: Angle)
    requires
        i64::MIN <= a@ + b@ <= i64::MAX,
    ensures
        a.add_spec(b).sub_spec(b) == a,
{
    lemma_angle_of_view(a@ + b@);
}

/// Law: decomposition inverts DMS construction exactly. For every valid
/// triple, the components read back from the constructed count are the
/// degree field (the one component that carries the sign), the minutes
/// field, and the whole arcseconds and arcmilliseconds of the seconds field.
pub proof fn lemma_dms_decomposition(degs: int, mins: int, secs_uas: int)
    requires
        0 <= mins <= 59,
        0 <= secs_uas < 60_000_000,
    ensures
        whole_degrees_of(dms_to_uas(degs, mins, secs_uas)) == degs,
        arcminutes_of(dms_to_uas(degs, mins, secs_uas)) == mins,
        arcseconds_of(dms_to_uas(degs, mins, secs_uas)) == secs_uas / 1_000_000,
        arcmilliseconds_of(dms_to_uas(degs, mins, secs_uas)) == (secs_uas / 1_000) % 1_000,
{
    let da = abs(degs) as int;
    let mag = da * 3_600_000_000 + mins * 60_000_000 + secs_uas;
    let uas = dms_to_uas(degs, mins, secs_uas);
    assert(abs(uas) == mag);
    // The degree component.
    vstd::arithmetic::div_mod::lemma_fundamental_div_mod_converse(
        mag,
        3_600_000_000,
        da,
        mins * 60_000_000 + secs_uas,
    );
    // The minutes component.
    let q_min = da * 60 + mins;
    assert(mag == q_min * 60_000_000 + secs_uas) by (nonlinear_arith)
        requires
            mag == da * 3_600_000_000 + mins * 60_000_000 + secs_uas,
            q_min == da * 60 + mins,
    ;
    vstd::arithmetic::div_mod::lemma_fundamental_div_mod_converse(mag, 60_000_000, q_min, secs_uas);
    vstd::arithmetic::div_mod::lemma_fundamental_div_mod_converse(q_min, 60, da, mins);
    // The seconds component.
    vstd::arithmetic::div_mod::lemma_fundamental_div_mod(secs_uas, 1_000_000);
    vstd::arithmetic::div_mod::lemma_mod_bound(secs_uas, 1_000_000);
    let s_sec = secs_uas / 1_000_000;
    vstd::arithmetic::div_mod::lemma_div_is_ordered(secs_uas, 59_999_999, 1_000_000);
    vstd::arithmetic::div_mod::lemma_fundamental_div_mod_converse(59_999_999, 1_000_000, 59, 999_999);
    let q_sec = da * 3_600 + mins * 60 + s_sec;
    assert(mag == q_sec * 1_000_000 + secs_uas % 1_000_000) by (nonlinear_arith)
        requires
            secs_uas == 1_000_000 * s_sec + secs_uas % 1_000_000,
            mag == da * 3_600_000_000 + mins * 60_000_000 + secs_uas,
            q_sec == da * 3_600 + mins * 60 + s_sec,
    ;
    vstd::arithmetic::div_mod::lemma_fundamental_div_mod_converse(
        mag,
        1_000_000,
        q_sec,
        secs_uas % 1_000_000,
    );
    vstd::arithmetic::div_mod::lemma_fundamental_div_mod_converse(q_sec, 60, da * 60 + mins, s_sec);
    // The milliseconds component.
    vstd::arithmetic::div_mod::lemma_fundamental_div_mod(secs_uas, 1_000);
    vstd::arithmetic::div_mod::lemma_mod_bound(secs_uas, 1_000);
    let s_ms = secs_uas / 1_000;
    let q_ms = da * 3_600_000 + mins * 60_000 + s_ms;
    assert(mag == q_ms * 1_000 + secs_uas % 1_000) by (nonlinear_arith)
        requires
            secs_uas == 1_000 * s_ms + secs_uas % 1_000,
            mag == da * 3_600_000_000 + mins * 60_000_000 + secs_uas,
            q_ms == da * 3_600_000 + mins * 60_000 + s_ms,
    ;
    vstd::arithmetic::div_mod::lemma_fundamental_div_mod_converse(
        mag,
        1_000,
        q_ms,
        secs_uas % 1_000,
    );
    vstd::arithmetic::div_mod::lemma_mod_multiples_vanish(da * 3_600 + mins * 60, s_ms, 1_000);
    assert(1_000 * (da * 3_600 + mins * 60) + s_ms == q_ms) by (nonlinear_arith)
        requires
            q_ms == da * 3_600_000 + mins * 60_000 + s_ms,
    ;
}

/// Law: construction from decimal degrees rounds to the nearest
/// microarcsecond. When the exact scaled value stays in the `i64` range, the
/// stored count differs from `mantissa * 3_600_000_000 / 10^fraction_digits`
/// by at most one half of a microarcsecond.
pub proof fn lemma_decimal_degrees_round_trip(mantissa: int, fraction_digits: nat)
    requires
        i64::MIN <= decimal_degrees_to_uas(mantissa, fraction_digits) <= i64::MAX,
    ensures
        2 * abs(
            clamp_to_i64(decimal_degrees_to_uas(mantissa, fraction_digits)) * pow10(fraction_digits)
                - mantissa * 3_600_000_000,
        ) <= pow10(fraction_digits),
{
    crate::rounding::lemma_pow10_pos(fraction_digits);
    crate::rounding::lemma_round_half_away_error(
        mantissa * 3_600_000_000,
        pow10(fraction_digits),
    );
}

} // verus!
