use vstd::prelude::*;

use crate::prelude::{ExpandableDocument, NaiveDocument, ProcessedDocument};
use crate::weights::{lemma_factor_product, whole, Factor, Fraction, Weight};

verus! {

/// A strategy that weighs how rare a term is across a corpus.
pub trait Idf<D: NaiveDocument> {
    /// The weight of `term` over the corpus `docs`.
    spec fn idf_spec(term: D::Term, docs: Seq<D>) -> Weight;

    /// Returns the inverse document frequency weight of `term` over `docs`.
    fn idf(term: &D::Term, docs: &[D]) -> (r: Weight)
        requires
            forall|i: int| 0 <= i < docs@.len() ==> (#[trigger] docs@[i]).valid(),
        ensures
            r == Self::idf_spec(*term, docs@),
    ;
}

/// A strategy with a smoothing factor `s`.
pub trait SmoothingFactor {
    /// The factor that `factor` returns.
    spec fn smoothing() -> Factor;

    /// Returns the smoothing factor.
    fn factor() -> (r: Factor)
        ensures
            r == Self::smoothing(),
            r.den > 0,
    ;
}

/// The number of documents of `docs` that contain `t`.
pub open spec fn containing<D: NaiveDocument>(docs: Seq<D>, t: D::Term) -> nat
    decreases docs.len(),
{
    if docs.len() == 0 {
        0
    } else {
        containing(docs.drop_last(), t) + if docs.last().contains_term(t) {
            1nat
        } else {
            0nat
        }
    }
}

proof fn lemma_containing_bound<D: NaiveDocument>(docs: Seq<D>, t: D::Term)
    ensures
        containing(docs, t) <= docs.len(),
    decreases docs.len(),
{
    if docs.len() > 0 {
        lemma_containing_bound(docs.drop_last(), t);
    }
}

/// Counts the documents of `docs` that contain `term`.
fn count_containing<D: NaiveDocument>(term: &D::Term, docs: &[D]) -> (n: usize)
    requires
        forall|i: int| 0 <= i < docs@.len() ==> (#[trigger] docs@[i]).valid(),
    ensures
        n as nat == containing(docs@, *term),
{
    let mut n: usize = 0;
    let mut i: usize = 0;
    while i < docs.len()
        invariant
            i <= docs@.len(),
            forall|j: int| 0 <= j < docs@.len() ==> (#[trigger] docs@[j]).valid(),
            n as nat == containing(docs@.subrange(0, i as int), *term),
        decreases docs@.len() - i,
    {
        proof {
            assert(docs@.subrange(0, i + 1).drop_last() =~= docs@.subrange(0, i as int));
            lemma_containing_bound(docs@.subrange(0, i as int), *term);
        }
        if docs[i].term_exists(term) {
            n = n + 1;
        }
        i = i + 1;
    }
    assert(docs@.subrange(0, docs@.len() as int) =~= docs@);
    n
}

/// Weighs 1 if some document of the corpus contains the term, 0 otherwise.
#[derive(Clone, Copy)]
pub struct UnaryIdf;

impl<D: NaiveDocument> Idf<D> for UnaryIdf {
    open spec fn idf_spec(term: D::Term, docs: Seq<D>) -> Weight {
        if containing(docs, term) > 0 {
            whole(1)
        } else {
            whole(0)
        }
    }

    fn idf(term: &D::Term, docs: &[D]) -> (r: Weight) {
        if count_containing(term, docs) > 0 {
            Weight::Ratio(Fraction { num: 1, den: 1 })
        } else {
            Weight::Ratio(Fraction { num: 0, den: 1 })
        }
    }
}

/// The argument `s + n / n_t` of the smoothed inverse frequency, for
/// `s = s.num / s.den`, `n` documents, `n_t` of which contain the term.
pub open spec fn smoothed_ratio(s: Factor, n: nat, n_t: nat) -> Fraction {
    Fraction { num: (s.num * n_t + s.den * n) as u128, den: (s.den * n_t) as u128 }
}

/// Inverse frequency with a smoothing factor `s`: weighs `ln(s + N / n_t)`.
pub trait InverseFrequencySmoothedIdfStrategy: SmoothingFactor {}

impl<S: InverseFrequencySmoothedIdfStrategy, D: NaiveDocument> Idf<D> for S {
    open spec fn idf_spec(term: D::Term, docs: Seq<D>) -> Weight {
        Weight::Log { offset: 0, arg: smoothed_ratio(S::smoothing(), docs.len(), containing(docs, term)) }
    }

    fn idf(term: &D::Term, docs: &[D]) -> (r: Weight) {
        let n_t = count_containing(term, docs);
        let n = docs.len();
        let s = S::factor();
        proof {
            lemma_factor_product(s.num, n_t);
            lemma_factor_product(s.den, n);
            lemma_factor_product(s.den, n_t);
        }
        let num = s.num as u128 * n_t as u128 + s.den as u128 * n as u128;
        let den = s.den as u128 * n_t as u128;
        Weight::Log { offset: 0, arg: Fraction { num, den } }
    }
}

/// Weighs `ln(N / n_t)`.
#[derive(Clone, Copy)]
pub struct InverseFrequencyIdf;

impl SmoothingFactor for InverseFrequencyIdf {
    open spec fn smoothing() -> Factor {
        Factor { num: 0, den: 1 }
    }

    fn factor() -> (r: Factor) {
        Factor { num: 0, den: 1 }
    }
}

impl InverseFrequencySmoothedIdfStrategy for InverseFrequencyIdf {}

/// Weighs `ln(1 + N / n_t)`.
#[derive(Clone, Copy)]
pub struct InverseFrequencySmoothIdf;

impl SmoothingFactor for InverseFrequencySmoothIdf {
    open spec fn smoothing() -> Factor {
        Factor { num: 1, den: 1 }
    }

    fn factor() -> (r: Factor) {
        Factor { num: 1, den: 1 }
    }
}

impl InverseFrequencySmoothedIdfStrategy for InverseFrequencySmoothIdf {}

} // verus!

verus! {

/// The largest count in `doc` of the first `k` terms that `doc` lists, or 0
/// when `k` is 0.
pub open spec fn listed_peak<D: ProcessedDocument + ExpandableDocument>(doc: D, k: int) -> nat
    decreases k,
{
    if k <= 0 {
        0
    } else {
        let p = listed_peak(doc, k - 1);
        let c = doc.frequency(doc.listed_terms()[k - 1]);
        if c > p {
            c
        } else {
            p
        }
    }
}

/// The largest count of any term that a document of `docs` lists, or 0.
pub open spec fn corpus_peak<D: ProcessedDocument + ExpandableDocument>(docs: Seq<D>) -> nat
    decreases docs.len(),
{
    if docs.len() == 0 {
        0
    } else {
        let p = corpus_peak(docs.drop_last());
        let d = docs.last();
        let c = listed_peak(d, d.listed_terms().len() as int);
        if c > p {
            c
        } else {
            p
        }
    }
}

/// Whether some document of `docs` lists a term.
pub open spec fn lists_any<D: ExpandableDocument>(docs: Seq<D>) -> bool
    decreases docs.len(),
{
    docs.len() > 0 && (lists_any(docs.drop_last()) || docs.last().listed_terms().len() > 0)
}

/// The largest count of any term over the corpus, or 1 when no document
/// lists a term.
pub open spec fn max_count<D: ProcessedDocument + ExpandableDocument>(docs: Seq<D>) -> nat {
    if lists_any(docs) {
        corpus_peak(docs)
    } else {
        1
    }
}

/// Weighs `ln(1 + max / N)`, where `max` is the largest count of any term
/// in any document of the corpus, or 1 when there is none.
#[derive(Clone, Copy)]
pub struct InverseFrequencyMaxIdf;

/// The largest count in `doc` of the terms that `doc` lists.
fn document_peak<D: ProcessedDocument + ExpandableDocument>(doc: &D) -> (r: (usize, bool))
    requires
        doc.well_formed(),
    ensures
        r.0 as nat == listed_peak(*doc, doc.listed_terms().len() as int),
        r.1 == (doc.listed_terms().len() > 0),
{
    let terms = doc.terms();
    let mut peak: usize = 0;
    let mut j: usize = 0;
    while j < terms.len()
        invariant
            j <= terms@.len(),
            terms@.len() == doc.listed_terms().len(),
            forall|k: int| 0 <= k < terms@.len() ==> *terms@[k] == doc.listed_terms()[k],
            doc.well_formed(),
            peak as nat == listed_peak(*doc, j as int),
        decreases terms@.len() - j,
    {
        let c = doc.term_frequency(terms[j]);
        if c > peak {
            peak = c;
        }
        j = j + 1;
    }
    (peak, terms.len() > 0)
}

impl<D: ProcessedDocument + ExpandableDocument> Idf<D> for InverseFrequencyMaxIdf {
    open spec fn idf_spec(term: D::Term, docs: Seq<D>) -> Weight {
        Weight::Log {
            offset: 0,
            arg: Fraction { num: (docs.len() + max_count(docs)) as u128, den: docs.len() as u128 },
        }
    }

    fn idf(term: &D::Term, docs: &[D]) -> (r: Weight) {
        let mut peak: usize = 0;
        let mut seen = false;
        let mut i: usize = 0;
        while i < docs.len()
            invariant
                i <= docs@.len(),
                forall|j: int| 0 <= j < docs@.len() ==> (#[trigger] docs@[j]).valid(),
                peak as nat == corpus_peak(docs@.subrange(0, i as int)),
                seen == lists_any(docs@.subrange(0, i as int)),
            decreases docs@.len() - i,
        {
            assert(docs@.subrange(0, i + 1).drop_last() =~= docs@.subrange(0, i as int));
            assert(docs@[i as int].valid());
            let (c, listed) = document_peak(&docs[i]);
            if c > peak {
                peak = c;
            }
            seen = seen || listed;
            i = i + 1;
        }
        assert(docs@.subrange(0, docs@.len() as int) =~= docs@);
        let max: usize = if seen {
            peak
        } else {
            1
        };
        let n = docs.len();
        Weight::Log { offset: 0, arg: Fraction { num: n as u128 + max as u128, den: n as u128 } }
    }
}

} // verus!
