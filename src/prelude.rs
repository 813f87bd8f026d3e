use vstd::prelude::*;

verus! {

/// A body of terms.
pub trait Document {
    /// The type of term that the document consists of.
    type Term;
}

/// A document that only knows whether a term occurs in it.
pub trait NaiveDocument: Document {
    /// Whether the document is in a state its operations can be used on.
    spec fn valid(&self) -> bool;

    /// Whether `t` occurs in the document.
    spec fn contains_term(&self, t: Self::Term) -> bool;

    /// Returns whether `term` occurs in the document.
    fn term_exists(&self, term: &Self::Term) -> (r: bool)
        requires
            self.valid(),
        ensures
            r == self.contains_term(*term),
    ;
}

/// A document whose term counts are already known.
pub trait ProcessedDocument: Document {
    /// Whether the document is in a state its operations can be used on.
    spec fn well_formed(&self) -> bool;

    /// How many times `t` occurs in the document.
    spec fn frequency(&self, t: Self::Term) -> nat;

    /// Whether the document holds no entries at all.
    spec fn is_blank(&self) -> bool;

    /// Whether each term has at most one entry in the document.
    spec fn holds_terms_once(&self) -> bool;

    /// The term that `max` reports, or `None` where it reports none.
    spec fn top_term(&self) -> Option<Self::Term>;

    /// Every count fits in a `usize`.
    proof fn lemma_frequency_fits(&self, t: Self::Term)
        requires
            self.well_formed(),
        ensures
            self.frequency(t) <= usize::MAX,
    ;

    /// Returns the number of times `term` occurs in the document.
    fn term_frequency(&self, term: &Self::Term) -> (r: usize)
        requires
            self.well_formed(),
        ensures
            r as nat == self.frequency(*term),
    ;

    /// Returns a term with the highest count, or `None` for a blank document.
    fn max(&self) -> (r: Option<&Self::Term>)
        requires
            self.well_formed(),
        ensures
            r is None <==> self.is_blank(),
            match r {
                Some(m) => self.top_term() == Some(*m),
                None => self.top_term() is None,
            },
            self.holds_terms_once() ==> match r {
                Some(m) => forall|t: Self::Term| #[trigger] self.frequency(t) <= self.frequency(*m),
                None => forall|t: Self::Term| #[trigger] self.frequency(t) == 0,
            },
    ;
}

/// A document that can list the terms it holds.
pub trait ExpandableDocument: Document {
    /// The terms that `terms` lists, in order.
    spec fn listed_terms(&self) -> Seq<Self::Term>;

    /// Returns the terms of the document, as `listed_terms` gives them. Each
    /// distinct term should be listed at least once; repeats are allowed.
    fn terms(&self) -> (r: Vec<&Self::Term>)
        ensures
            r@.len() == self.listed_terms().len(),
            forall|i: int| 0 <= i < r@.len() ==> *r@[i] == self.listed_terms()[i],
    ;
}

impl<D: ProcessedDocument> NaiveDocument for D {
    open spec fn valid(&self) -> bool {
        self.well_formed()
    }

    open spec fn contains_term(&self, t: Self::Term) -> bool {
        self.frequency(t) > 0
    }

    fn term_exists(&self, term: &Self::Term) -> (r: bool) {
        self.term_frequency(term) > 0
    }
}

} // verus!
