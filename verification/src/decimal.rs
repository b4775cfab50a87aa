//! Decimal numbers, as a scaled integer.
use vstd::prelude::*;

verus! {

/// The largest magnitude of a mantissa, which has 96 bits.
pub const MAX_MANTISSA: i128 = 0xFFFF_FFFF_FFFF_FFFF_FFFF_FFFF;

/// The largest number of decimals.
pub const MAX_SCALE: u32 = 28;

/// Whether `mantissa` and `scale` are those of a decimal number.
pub open spec fn is_decimal(mantissa: i128, scale: u32) -> bool {
    &&& -MAX_MANTISSA <= mantissa <= MAX_MANTISSA
    &&& scale <= MAX_SCALE
}

/// A decimal number: `mantissa` divided by ten to the power of `scale`.
///
/// `==` compares the representations: 2.5 and 2.50 have different scales and
/// are not equal by it, though they are the same number.
#[derive(Clone, Copy, Debug, PartialEq, Eq, Structural)]
pub struct Decimal {
    mantissa: i128,
    scale: u32,
}

impl Decimal {
    #[verifier::type_invariant]
    spec fn in_range(self) -> bool {
        is_decimal(self.mantissa, self.scale)
    }

    /// The integer of the number without its decimal point.
    pub closed spec fn spec_mantissa(&self) -> i128 {
        self.mantissa
    }

    /// The number of decimals.
    pub closed spec fn spec_scale(&self) -> u32 {
        self.scale
    }

    /// Makes the number `mantissa / 10^scale`, if both are in range.
    pub fn new(mantissa: i128, scale: u32) -> (r: Option<Decimal>)
        ensures
            r is Some <==> is_decimal(mantissa, scale),
            r matches Some(d) ==> d.spec_mantissa() == mantissa && d.spec_scale() == scale,
    {
        if -MAX_MANTISSA <= mantissa && mantissa <= MAX_MANTISSA && scale <= MAX_SCALE {
            Some(Decimal { mantissa, scale })
        } else {
            None
        }
    }

    /// Returns the integer of the number without its decimal point.
    #[verifier::when_used_as_spec(spec_mantissa)]
    pub fn mantissa(&self) -> (r: i128)
        ensures
            r == self.mantissa(),
            -MAX_MANTISSA <= r <= MAX_MANTISSA,
    {
        proof {
            use_type_invariant(self);
        }
        self.mantissa
    }

    /// Returns the number of decimals.
    #[verifier::when_used_as_spec(spec_scale)]
    pub fn scale(&self) -> (r: u32)
        ensures
            r == self.scale(),
            r <= MAX_SCALE,
    {
        proof {
            use_type_invariant(self);
        }
        self.scale
    }

    /// Whether the number is above zero.
    pub fn is_positive(&self) -> (r: bool)
        ensures
            r == (self.mantissa() > 0),
    {
        proof {
            use_type_invariant(self);
        }
        exceeds_zero(self.mantissa, self.scale)
    }
}

/// Compares `mantissa / 10^scale` with `rust_decimal::Decimal::ZERO`.
///
/// Trusted: `Decimal::from_i128_with_scale`, which panics outside of the range
/// that is required here, makes the number, and `>` of `rust_decimal` orders
/// it above zero exactly if its mantissa is positive.
#[verifier::external_body]
fn exceeds_zero(mantissa: i128, scale: u32) -> (r: bool)
    requires
        is_decimal(mantissa, scale),
    ensures
        r == (mantissa > 0),
{
    rust_decimal::Decimal::from_i128_with_scale(mantissa, scale) > rust_decimal::Decimal::ZERO
}

} // verus!
