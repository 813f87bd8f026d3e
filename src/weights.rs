use vstd::prelude::*;

verus! {

/// The rational number `num / den`. A zero `den` stands for the value that
/// IEEE-754 division gives: an infinity for a nonzero `num`, NaN for `0 / 0`.
#[derive(Clone, Copy, Debug, PartialEq, Eq, Structural)]
pub struct Fraction {
    pub num: u128,
    pub den: u128,
}

/// A constant of a weighting formula, `num / den`.
#[derive(Clone, Copy, Debug, PartialEq, Eq, Structural)]
pub struct Factor {
    pub num: u32,
    pub den: u32,
}

/// A real-valued weight, held exactly.
#[derive(Clone, Copy, Debug, PartialEq, Eq, Structural)]
pub enum Weight {
    /// The number the fraction stands for.
    Ratio(Fraction),
    /// The number `offset + ln(arg)`.
    Log { offset: u128, arg: Fraction },
}

/// A tf-idf score: the product of its tf weight and its idf weight.
#[derive(Clone, Copy, Debug, PartialEq, Eq, Structural)]
pub struct Score {
    pub tf: Weight,
    pub idf: Weight,
}

/// The weight `n / 1`.
pub open spec fn whole(n: nat) -> Weight {
    Weight::Ratio(Fraction { num: n as u128, den: 1 })
}

impl Fraction {
    /// Whether `lo <= self <= hi`, for finite values.
    pub open spec fn between(self, lo: Fraction, hi: Fraction) -> bool {
        &&& self.den > 0 && lo.den > 0 && hi.den > 0
        &&& lo.num * self.den <= self.num * lo.den
        &&& self.num * hi.den <= hi.num * self.den
    }
}

impl Factor {
    /// The factor as a fraction.
    pub open spec fn as_fraction(self) -> Fraction {
        Fraction { num: self.num as u128, den: self.den as u128 }
    }
}

pub(crate) proof fn lemma_factor_product(a: u32, b: usize)
    ensures
        (a as nat) * (b as nat) <= 0xffff_ffff * 0xffff_ffff_ffff_ffff,
{
    assert((a as nat) * (b as nat) <= 0xffff_ffff * 0xffff_ffff_ffff_ffff) by (nonlinear_arith)
        requires
            a as nat <= 0xffff_ffff,
            b as nat <= 0xffff_ffff_ffff_ffff,
    ;
}

} // verus!
