use vstd::prelude::*;

verus! {

/// The mathematical value of a [`Ratio`]: an exact fraction of two integers.
#[verifier::ext_equal]
pub ghost struct RatioModel {
    pub num: int,
    pub den: int,
}

/// An exact non-negative fraction, `num / den`.
///
/// The engine reports agreement ratios and divisiveness scores as exact
/// fractions rather than rounded floating-point values; a well-formed ratio
/// has a positive denominator and a value between 0 and 1.
#[derive(Clone, Copy, Debug, PartialEq, Eq)]
pub struct Ratio {
    pub num: u32,
    pub den: u32,
}

impl View for Ratio {
    type V = RatioModel;

    open spec fn view(&self) -> RatioModel {
        RatioModel { num: self.num as int, den: self.den as int }
    }
}

impl Ratio {
    /// A well-formed ratio denotes a value in the closed interval [0, 1].
    pub open spec fn wf(self) -> bool {
        0 < self.den && self.num <= self.den
    }

    /// The exact fraction zero.
    pub fn zero() -> (r: Ratio)
        ensures
            r.wf(),
            r@ == (RatioModel { num: 0, den: 1 }),
    {
        Ratio { num: 0, den: 1 }
    }
}

} // verus!
