use vstd::prelude::*;

use crate::prelude::{NaiveDocument, ProcessedDocument};
use crate::weights::{lemma_factor_product, whole, Factor, Fraction, Weight};

verus! {

/// A strategy that weighs how often a term occurs in one document.
pub trait Tf<D: NaiveDocument> {
    /// The weight of `term` in `doc`.
    spec fn tf_spec(term: D::Term, doc: D) -> Weight;

    /// Returns the term frequency weight of `term` in `doc`.
    fn tf(term: &D::Term, doc: &D) -> (r: Weight)
        requires
            doc.valid(),
        ensures
            r == Self::tf_spec(*term, *doc),
    ;
}

/// A strategy with a normalization factor `K`, with `0 <= K <= 1`.
pub trait NormalizationFactor {
    /// The factor that `factor` returns.
    spec fn normalization() -> Factor;

    /// Returns the normalization factor.
    fn factor() -> (r: Factor)
        ensures
            r == Self::normalization(),
            r.den > 0,
            r.num <= r.den,
    ;
}

/// Weighs 1 if the document contains the term and 0 otherwise.
#[derive(Clone, Copy)]
pub struct BinaryTf;

impl<D: NaiveDocument> Tf<D> for BinaryTf {
    open spec fn tf_spec(term: D::Term, doc: D) -> Weight {
        if doc.contains_term(term) {
            whole(1)
        } else {
            whole(0)
        }
    }

    fn tf(term: &D::Term, doc: &D) -> (r: Weight) {
        if doc.term_exists(term) {
            Weight::Ratio(Fraction { num: 1, den: 1 })
        } else {
            Weight::Ratio(Fraction { num: 0, den: 1 })
        }
    }
}

/// Weighs the number of times the term occurs in the document.
#[derive(Clone, Copy)]
pub struct RawFrequencyTf;

impl<D: ProcessedDocument> Tf<D> for RawFrequencyTf {
    open spec fn tf_spec(term: D::Term, doc: D) -> Weight {
        whole(doc.frequency(term))
    }

    fn tf(term: &D::Term, doc: &D) -> (r: Weight) {
        let f = doc.term_frequency(term);
        Weight::Ratio(Fraction { num: f as u128, den: 1 })
    }
}

/// Weighs `1 + ln(f)`, where `f` is the number of times the term occurs.
#[derive(Clone, Copy)]
pub struct LogNormalizationTf;

impl<D: ProcessedDocument> Tf<D> for LogNormalizationTf {
    open spec fn tf_spec(term: D::Term, doc: D) -> Weight {
        Weight::Log { offset: 1, arg: Fraction { num: doc.frequency(term) as u128, den: 1 } }
    }

    fn tf(term: &D::Term, doc: &D) -> (r: Weight) {
        let f = doc.term_frequency(term);
        Weight::Log { offset: 1, arg: Fraction { num: f as u128, den: 1 } }
    }
}

/// The count that double normalization divides by: that of the top term, or
/// 1 for a document without one.
pub open spec fn top_frequency<D: ProcessedDocument>(doc: D) -> nat {
    match doc.top_term() {
        Some(m) => doc.frequency(m),
        None => 1,
    }
}

/// `K + (1 - K) * f / max_f` as a fraction, for `K = k.num / k.den`.
pub open spec fn double_k(k: Factor, f: nat, max_f: nat) -> Fraction {
    Fraction {
        num: (k.num * max_f + (k.den - k.num) * f) as u128,
        den: (k.den * max_f) as u128,
    }
}

/// Double normalization with a factor `K`: weighs `K + (1 - K) * f / max_f`.
pub trait DoubleKNormalizationTf: NormalizationFactor {}

impl<S: DoubleKNormalizationTf, D: ProcessedDocument> Tf<D> for S {
    open spec fn tf_spec(term: D::Term, doc: D) -> Weight {
        Weight::Ratio(double_k(S::normalization(), doc.frequency(term), top_frequency(doc)))
    }

    fn tf(term: &D::Term, doc: &D) -> (r: Weight) {
        let max_f: usize = match doc.max() {
            Some(m) => doc.term_frequency(m),
            None => 1,
        };
        let f = doc.term_frequency(term);
        let k = S::factor();
        proof {
            lemma_factor_product(k.num, max_f);
            lemma_factor_product((k.den - k.num) as u32, f);
            lemma_factor_product(k.den, max_f);
        }
        let num = k.num as u128 * max_f as u128 + (k.den - k.num) as u128 * f as u128;
        let den = k.den as u128 * max_f as u128;
        Weight::Ratio(Fraction { num, den })
    }
}

/// Double normalization with `K = 1/2`.
#[derive(Clone, Copy)]
pub struct DoubleHalfNormalizationTf;

impl NormalizationFactor for DoubleHalfNormalizationTf {
    open spec fn normalization() -> Factor {
        Factor { num: 1, den: 2 }
    }

    fn factor() -> (r: Factor) {
        Factor { num: 1, den: 2 }
    }
}

impl DoubleKNormalizationTf for DoubleHalfNormalizationTf {}

} // verus!
