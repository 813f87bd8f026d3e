//! TF-IDF (term frequency - inverse document frequency) weighting for generic
//! documents.
//!
//! Strategies act on documents that implement the document traits
//! (`NaiveDocument`, `ProcessedDocument`, `ExpandableDocument`). Every weight
//! is computed exactly: a `Weight` is either a fraction or `offset + ln(arg)`
//! for a fraction `arg`, and a `Score` is the product of a tf weight and an idf
//! weight.

use vstd::prelude::*;

pub mod documents;
pub mod idf;
pub mod laws;
pub mod prelude;
pub mod tf;
pub mod weights;

pub use idf::{Idf, SmoothingFactor};
pub use prelude::{Document, ExpandableDocument, NaiveDocument, ProcessedDocument};
pub use tf::{NormalizationFactor, Tf};
pub use weights::{Factor, Fraction, Score, Weight};

verus! {

/// A pairing of a tf strategy with an idf strategy.
pub trait TfIdf<D: NaiveDocument> {
    /// The tf weighting scheme.
    type Tf: Tf<D>;

    /// The idf weighting scheme.
    type Idf: Idf<D>;

    /// Returns the tf-idf of `term` in `doc` over the corpus `docs`: the tf
    /// weight of `term` in `doc` times its idf weight over `docs`.
    fn tfidf(term: &D::Term, doc: &D, docs: &[D]) -> (r: Score)
        requires
            doc.valid(),
            forall|i: int| 0 <= i < docs@.len() ==> (#[trigger] docs@[i]).valid(),
        ensures
            r == (Score {
                tf: <Self::Tf as Tf<D>>::tf_spec(*term, *doc),
                idf: <Self::Idf as Idf<D>>::idf_spec(*term, docs@),
            }),
    {
        Score { tf: Self::Tf::tf(term, doc), idf: Self::Idf::idf(term, docs) }
    }
}

/// The default scheme: double normalization with `K = 1/2` for tf, inverse
/// frequency for idf.
#[derive(Clone, Copy)]
pub struct TfIdfDefault;

impl<D: ProcessedDocument> TfIdf<D> for TfIdfDefault {
    type Tf = tf::DoubleHalfNormalizationTf;

    type Idf = idf::InverseFrequencyIdf;
}

} // verus!
