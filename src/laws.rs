//! Properties of the weighting strategies, proved over their specifications.

use vstd::prelude::*;

use crate::idf::{containing, Idf, InverseFrequencyIdf, InverseFrequencySmoothedIdfStrategy, UnaryIdf};
use crate::documents::{
    distinct_terms, first_count, lemma_first_count_at, lemma_first_count_is_entry,
    lemma_peak_index_bounds, peak_index,
};
use crate::idf::SmoothingFactor;
use crate::prelude::{NaiveDocument, ProcessedDocument};
use crate::TfIdfDefault;
use crate::TfIdf;
use crate::tf::DoubleHalfNormalizationTf;
use crate::tf::{
    double_k, top_frequency, BinaryTf, DoubleKNormalizationTf, LogNormalizationTf, RawFrequencyTf,
    Tf,
};
use crate::weights::{whole, Fraction, Weight};

verus! {

/// Whether `doc` reports a top term exactly when it is not blank, whether that
/// term has a count at least as high as that of every term, and whether every
/// count is 0 where it reports none.
pub open spec fn top_dominates<D: ProcessedDocument>(doc: D) -> bool {
    &&& doc.top_term() is None <==> doc.is_blank()
    &&& match doc.top_term() {
        Some(m) => forall|t: D::Term| #[trigger] doc.frequency(t) <= doc.frequency(m),
        None => forall|t: D::Term| #[trigger] doc.frequency(t) == 0,
    }
}

/// Binary tf weighs 1 or 0, and 1 exactly when the document contains the term.
pub proof fn binary_tf_is_indicator<D: NaiveDocument>(term: D::Term, doc: D)
    ensures
        <BinaryTf as Tf<D>>::tf_spec(term, doc) == whole(1) || <BinaryTf as Tf<D>>::tf_spec(
            term,
            doc,
        ) == whole(0),
        <BinaryTf as Tf<D>>::tf_spec(term, doc) == whole(1) <==> doc.contains_term(term),
{
}

/// Raw frequency tf weighs the term's count in the document.
pub proof fn raw_frequency_tf_is_count<D: ProcessedDocument>(term: D::Term, doc: D)
    ensures
        <RawFrequencyTf as Tf<D>>::tf_spec(term, doc) == whole(doc.frequency(term)),
{
}

/// With `0 <= K <= 1`, double normalization weighs a term that occurs in a
/// document with at least one entry between `K` and 1, when the document's top
/// term has the highest count.
pub proof fn double_k_in_range<S: DoubleKNormalizationTf, D: ProcessedDocument>(
    term: D::Term,
    doc: D,
)
    requires
        S::normalization().den > 0,
        S::normalization().num <= S::normalization().den,
        doc.frequency(term) > 0,
        !doc.is_blank(),
        doc.well_formed(),
        top_dominates(doc),
    ensures
        <S as Tf<D>>::tf_spec(term, doc) matches Weight::Ratio(w) && w.between(
            S::normalization().as_fraction(),
            Fraction { num: 1, den: 1 },
        ),
{
    let k = S::normalization();
    let f = doc.frequency(term);
    let m = top_frequency(doc);
    if let Some(t) = doc.top_term() {
        doc.lemma_frequency_fits(t);
        assert(doc.frequency(term) <= doc.frequency(t));
    } else {
        assert(doc.frequency(term) == 0);
    }
    let kn = k.num as int;
    let kd = k.den as int;
    assert(1 <= f <= m);
    assert(m <= 0xffff_ffff_ffff_ffff);
    assert(0 <= kn * m <= 0xffff_ffff * 0xffff_ffff_ffff_ffff) by (nonlinear_arith)
        requires
            0 <= kn <= 0xffff_ffff,
            0 <= m <= 0xffff_ffff_ffff_ffff,
    ;
    assert(0 <= (kd - kn) * f <= 0xffff_ffff * 0xffff_ffff_ffff_ffff) by (nonlinear_arith)
        requires
            0 <= kd - kn <= 0xffff_ffff,
            0 <= f <= 0xffff_ffff_ffff_ffff,
    ;
    assert(0 < kd * m <= 0xffff_ffff * 0xffff_ffff_ffff_ffff) by (nonlinear_arith)
        requires
            0 < kd <= 0xffff_ffff,
            1 <= m <= 0xffff_ffff_ffff_ffff,
    ;
    let num = kn * m + (kd - kn) * f;
    let den = kd * m;
    let w = double_k(k, f, m);
    assert(w.num == num && w.den == den);
    assert(kn * den <= num * kd) by (nonlinear_arith)
        requires
            num == kn * m + (kd - kn) * f,
            den == kd * m,
            0 <= kn <= kd,
            1 <= f,
    ;
    assert(num <= den) by (nonlinear_arith)
        requires
            num == kn * m + (kd - kn) * f,
            den == kd * m,
            0 <= kn <= kd,
            f <= m,
    ;
}

/// Unary idf weighs 1 or 0.
pub proof fn unary_idf_is_indicator<D: NaiveDocument>(term: D::Term, docs: Seq<D>)
    ensures
        <UnaryIdf as Idf<D>>::idf_spec(term, docs) == whole(1) || <UnaryIdf as Idf<D>>::idf_spec(
            term,
            docs,
        ) == whole(0),
{
}

/// A processed document contains a term exactly when the term's count is
/// positive.
pub proof fn contains_iff_counted<D: ProcessedDocument>(doc: D, t: D::Term)
    ensures
        doc.contains_term(t) == (doc.frequency(t) > 0),
{
}

proof fn lemma_containing_update<D: NaiveDocument>(docs: Seq<D>, i: int, x: D, t: D::Term)
    requires
        0 <= i < docs.len(),
    ensures
        containing(docs.update(i, x), t) + (if docs[i].contains_term(t) {
            1int
        } else {
            0int
        }) == containing(docs, t) + (if x.contains_term(t) {
            1int
        } else {
            0int
        }),
    decreases docs.len(),
{
    let u = docs.update(i, x);
    if i < docs.len() - 1 {
        assert(u.drop_last() =~= docs.drop_last().update(i, x));
        lemma_containing_update(docs.drop_last(), i, x, t);
    } else {
        assert(u.drop_last() =~= docs.drop_last());
    }
}

/// Exchanging two documents of a corpus leaves the number of documents that
/// contain a term unchanged.
pub proof fn swap_keeps_containing<D: NaiveDocument>(docs: Seq<D>, i: int, j: int, t: D::Term)
    requires
        0 <= i < docs.len(),
        0 <= j < docs.len(),
    ensures
        containing(docs.update(i, docs[j]).update(j, docs[i]), t) == containing(docs, t),
{
    let a = docs.update(i, docs[j]);
    lemma_containing_update(docs, i, docs[j], t);
    lemma_containing_update(a, j, docs[i], t);
}

/// Exchanging two documents of a corpus leaves its inverse frequency idf
/// unchanged.
pub proof fn swap_keeps_inverse_frequency<D: NaiveDocument>(docs: Seq<D>, i: int, j: int, t: D::Term)
    requires
        0 <= i < docs.len(),
        0 <= j < docs.len(),
    ensures
        <InverseFrequencyIdf as Idf<D>>::idf_spec(t, docs.update(i, docs[j]).update(j, docs[i]))
            == <InverseFrequencyIdf as Idf<D>>::idf_spec(t, docs),
{
    swap_keeps_containing(docs, i, j, t);
}

/// A sequence document whose terms are distinct reports no top term exactly
/// when it is empty, and otherwise a term whose count is at least that of
/// every term.
pub proof fn sequence_top_dominates<T: PartialEq>(doc: Vec<(T, usize)>)
    requires
        distinct_terms(doc@),
    ensures
        top_dominates(doc),
{
    let s = doc@;
    lemma_peak_index_bounds(s);
    if s.len() > 0 {
        let p = peak_index(s);
        lemma_first_count_at(s, p);
        assert forall|t: T| #[trigger] first_count(s, t) <= first_count(s, s[p].0) by {
            lemma_first_count_is_entry(s, t);
        }
    }
}

/// Documents that give every term the same count, whose top terms are
/// reported soundly, get the same weight from every tf strategy.
pub proof fn same_counts_same_tf<
    S: DoubleKNormalizationTf,
    D1: ProcessedDocument,
    D2: ProcessedDocument<Term = D1::Term>,
>(term: D1::Term, d1: D1, d2: D2)
    requires
        forall|t: D1::Term| d1.frequency(t) == #[trigger] d2.frequency(t),
        d1.is_blank() == d2.is_blank(),
        top_dominates(d1),
        top_dominates(d2),
    ensures
        <S as Tf<D1>>::tf_spec(term, d1) == <S as Tf<D2>>::tf_spec(term, d2),
        <BinaryTf as Tf<D1>>::tf_spec(term, d1) == <BinaryTf as Tf<D2>>::tf_spec(term, d2),
        <RawFrequencyTf as Tf<D1>>::tf_spec(term, d1) == <RawFrequencyTf as Tf<D2>>::tf_spec(
            term,
            d2,
        ),
        <LogNormalizationTf as Tf<D1>>::tf_spec(term, d1) == <LogNormalizationTf as Tf<
            D2,
        >>::tf_spec(term, d2),
{
    assert(d1.frequency(term) == d2.frequency(term));
    if let Some(m1) = d1.top_term() {
        let m2 = d2.top_term().unwrap();
        assert(d1.frequency(m2) <= d1.frequency(m1));
        assert(d2.frequency(m1) <= d2.frequency(m2));
        assert(d1.frequency(m1) == d2.frequency(m1));
        assert(d1.frequency(m2) == d2.frequency(m2));
    }
}

/// Corpora whose documents, position by position, agree on whether they
/// contain a term count the same documents containing it.
pub proof fn same_containment_same_count<D1: NaiveDocument, D2: NaiveDocument<Term = D1::Term>>(
    term: D1::Term,
    a: Seq<D1>,
    b: Seq<D2>,
)
    requires
        a.len() == b.len(),
        forall|i: int| 0 <= i < a.len() ==> (#[trigger] a[i]).contains_term(term) == b[i].contains_term(term),
    ensures
        containing(a, term) == containing(b, term),
    decreases a.len(),
{
    if a.len() > 0 {
        let (ra, rb) = (a.drop_last(), b.drop_last());
        assert forall|i: int| 0 <= i < ra.len() implies (#[trigger] ra[i]).contains_term(term) == rb[i].contains_term(term) by {
            assert(ra[i] == a[i] && rb[i] == b[i]);
        }
        same_containment_same_count(term, ra, rb);
        assert(a.last().contains_term(term) == b.last().contains_term(term));
    }
}

/// Corpora whose documents, position by position, agree on whether they
/// contain a term get the same weight from the unary and the smoothed inverse
/// frequency strategies.
pub proof fn same_containment_same_idf<
    S: InverseFrequencySmoothedIdfStrategy,
    D1: NaiveDocument,
    D2: NaiveDocument<Term = D1::Term>,
>(term: D1::Term, a: Seq<D1>, b: Seq<D2>)
    requires
        a.len() == b.len(),
        forall|i: int| 0 <= i < a.len() ==> (#[trigger] a[i]).contains_term(term) == b[i].contains_term(term),
    ensures
        <S as Idf<D1>>::idf_spec(term, a) == <S as Idf<D2>>::idf_spec(term, b),
        <UnaryIdf as Idf<D1>>::idf_spec(term, a) == <UnaryIdf as Idf<D2>>::idf_spec(term, b),
{
    same_containment_same_count(term, a, b);
}

/// Under the default scheme, documents with the same counts, scored over
/// corpora of documents with the same counts, get the same score.
pub proof fn default_score_independent_of_representation<
    D1: ProcessedDocument,
    D2: ProcessedDocument<Term = D1::Term>,
>(term: D1::Term, d1: D1, d2: D2, a: Seq<D1>, b: Seq<D2>)
    requires
        forall|t: D1::Term| d1.frequency(t) == #[trigger] d2.frequency(t),
        d1.is_blank() == d2.is_blank(),
        top_dominates(d1),
        top_dominates(d2),
        a.len() == b.len(),
        forall|i: int, t: D1::Term|
            0 <= i < a.len() ==> #[trigger] a[i].frequency(t) == b[i].frequency(t),
    ensures
        <<TfIdfDefault as TfIdf<D1>>::Tf as Tf<D1>>::tf_spec(term, d1)
            == <<TfIdfDefault as TfIdf<D2>>::Tf as Tf<D2>>::tf_spec(term, d2),
        <<TfIdfDefault as TfIdf<D1>>::Idf as Idf<D1>>::idf_spec(term, a)
            == <<TfIdfDefault as TfIdf<D2>>::Idf as Idf<D2>>::idf_spec(term, b),
{
    same_counts_same_tf::<DoubleHalfNormalizationTf, D1, D2>(term, d1, d2);
    assert forall|i: int| 0 <= i < a.len() implies (#[trigger] a[i]).contains_term(term) == b[i].contains_term(term) by {
        assert(a[i].frequency(term) == b[i].frequency(term));
    }
    same_containment_same_idf::<InverseFrequencyIdf, D1, D2>(term, a, b);
}

} // verus!
