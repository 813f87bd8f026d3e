use std::collections::{BTreeMap, HashMap};

use tfidf::idf::{InverseFrequencyIdf, InverseFrequencySmoothIdf, UnaryIdf};
use tfidf::{Fraction, Idf, Score, TfIdf, TfIdfDefault, Weight};

fn as_f64(f: Fraction) -> f64 {
    f.num as f64 / f.den as f64
}

fn value(w: Weight) -> f64 {
    match w {
        Weight::Ratio(f) => as_f64(f),
        Weight::Log { offset, arg } => offset as f64 + as_f64(arg).ln(),
    }
}

fn score(s: Score) -> f64 {
    value(s.tf) * value(s.idf)
}

fn sequence_docs() -> Vec<Vec<(&'static str, usize)>> {
    let mut docs = Vec::new();
    docs.push(vec![("this", 1), ("is", 1), ("a", 2), ("sample", 1)]);
    docs.push(vec![("this", 1), ("is", 1), ("another", 2), ("example", 3)]);
    docs
}

fn hash_docs() -> Vec<HashMap<&'static str, usize>> {
    let mut docs: Vec<HashMap<&'static str, usize>> = Vec::new();
    docs.push(vec![("this", 1), ("is", 1), ("a", 2), ("sample", 1)].into_iter().collect());
    docs.push(vec![("this", 1), ("is", 1), ("another", 2), ("example", 3)].into_iter().collect());
    docs
}

fn tree_docs() -> Vec<BTreeMap<&'static str, usize>> {
    let mut docs: Vec<BTreeMap<&'static str, usize>> = Vec::new();
    docs.push(vec![("this", 1), ("is", 1), ("a", 2), ("sample", 1)].into_iter().collect());
    docs.push(vec![("this", 1), ("is", 1), ("another", 2), ("example", 3)].into_iter().collect());
    docs
}

#[test]
fn idf_wiki_example_tests() {
    let mut docs = Vec::new();

    docs.push(vec![("this", 1), ("is", 1), ("a", 2), ("sample", 1)]);
    docs.push(vec![("this", 1), ("is", 1), ("another", 2), ("example", 3)]);

    assert_eq!(value(UnaryIdf::idf(&"this", &docs[..])), 1f64);
    assert_eq!(value(InverseFrequencyIdf::idf(&"this", &docs[..])), 0f64);
}

#[test]
fn idf_wiki_example_tests_hashmap() {
    let mut docs: Vec<HashMap<&'static str, usize>> = Vec::new();

    docs.push(vec![("this", 1), ("is", 1), ("a", 2), ("sample", 1)].into_iter().collect());
    docs.push(vec![("this", 1), ("is", 1), ("another", 2), ("example", 3)].into_iter().collect());

    assert_eq!(value(UnaryIdf::idf(&"this", &docs[..])), 1f64);
    assert_eq!(value(InverseFrequencyIdf::idf(&"this", &docs[..])), 0f64);
}

#[test]
fn idf_wiki_example_tests_btreemap() {
    let mut docs: Vec<BTreeMap<&'static str, usize>> = Vec::new();

    docs.push(vec![("this", 1), ("is", 1), ("a", 2), ("sample", 1)].into_iter().collect());
    docs.push(vec![("this", 1), ("is", 1), ("another", 2), ("example", 3)].into_iter().collect());

    assert_eq!(value(UnaryIdf::idf(&"this", &docs[..])), 1f64);
    assert_eq!(value(InverseFrequencyIdf::idf(&"this", &docs[..])), 0f64);
}

#[test]
fn tfidf_wiki_example_tests() {
    let mut docs = Vec::new();

    docs.push(vec![("this", 1), ("is", 1), ("a", 2), ("sample", 1)]);
    docs.push(vec![("this", 1), ("is", 1), ("another", 2), ("example", 3)]);

    let s = TfIdfDefault::tfidf(&"a", &docs[0], &docs[..]);
    assert_eq!(score(s), 2f64.ln());
}

#[test]
fn unary_idf_this_all_representations() {
    assert_eq!(UnaryIdf::idf(&"this", &sequence_docs()[..]), Weight::Ratio(Fraction { num: 1, den: 1 }));
    assert_eq!(UnaryIdf::idf(&"this", &hash_docs()[..]), Weight::Ratio(Fraction { num: 1, den: 1 }));
    assert_eq!(UnaryIdf::idf(&"this", &tree_docs()[..]), Weight::Ratio(Fraction { num: 1, den: 1 }));
}

#[test]
fn unary_idf_absent_term_is_zero() {
    assert_eq!(value(UnaryIdf::idf(&"zebra", &sequence_docs()[..])), 0f64);
    assert_eq!(value(UnaryIdf::idf(&"zebra", &hash_docs()[..])), 0f64);
}

#[test]
fn unary_idf_looks_past_the_last_document() {
    // "a" occurs in the first document only.
    assert_eq!(value(UnaryIdf::idf(&"a", &sequence_docs()[..])), 1f64);
}

#[test]
fn inverse_frequency_this_is_zero() {
    assert_eq!(value(InverseFrequencyIdf::idf(&"this", &sequence_docs()[..])), 0f64);
    assert_eq!(value(InverseFrequencyIdf::idf(&"this", &hash_docs()[..])), 0f64);
    assert_eq!(value(InverseFrequencyIdf::idf(&"this", &tree_docs()[..])), 0f64);
}

#[test]
fn inverse_frequency_a_is_ln_two() {
    let w = InverseFrequencyIdf::idf(&"a", &sequence_docs()[..]);
    assert_eq!(w, Weight::Log { offset: 0, arg: Fraction { num: 2, den: 1 } });
    assert_eq!(value(w), 2f64.ln());
    assert!((value(w) - 0.6931).abs() < 1e-4);
    assert_eq!(value(InverseFrequencyIdf::idf(&"a", &hash_docs()[..])), 2f64.ln());
    assert_eq!(value(InverseFrequencyIdf::idf(&"a", &tree_docs()[..])), 2f64.ln());
}

#[test]
fn inverse_frequency_smooth_this_is_ln_two() {
    let w = InverseFrequencySmoothIdf::idf(&"this", &sequence_docs()[..]);
    assert_eq!(w, Weight::Log { offset: 0, arg: Fraction { num: 4, den: 2 } });
    assert_eq!(value(w), 2f64.ln());
    assert_eq!(value(InverseFrequencySmoothIdf::idf(&"this", &hash_docs()[..])), 2f64.ln());
    assert_eq!(value(InverseFrequencySmoothIdf::idf(&"this", &tree_docs()[..])), 2f64.ln());
}

#[test]
fn inverse_frequency_absent_term_is_infinite() {
    let w = InverseFrequencyIdf::idf(&"zebra", &sequence_docs()[..]);
    assert_eq!(w, Weight::Log { offset: 0, arg: Fraction { num: 2, den: 0 } });
    assert_eq!(value(w), f64::INFINITY);
    assert_eq!(value(InverseFrequencySmoothIdf::idf(&"zebra", &sequence_docs()[..])), f64::INFINITY);
}

#[test]
fn inverse_frequency_empty_corpus_is_not_finite() {
    let docs: Vec<Vec<(&'static str, usize)>> = Vec::new();
    let w = InverseFrequencyIdf::idf(&"this", &docs[..]);
    assert_eq!(w, Weight::Log { offset: 0, arg: Fraction { num: 0, den: 0 } });
    assert!(value(w).is_nan());
    assert_eq!(value(UnaryIdf::idf(&"this", &docs[..])), 0f64);
}

#[test]
fn default_tfidf_a_is_ln_two() {
    let seq = sequence_docs();
    let s = TfIdfDefault::tfidf(&"a", &seq[0], &seq[..]);
    assert_eq!(s.tf, Weight::Ratio(Fraction { num: 4, den: 4 }));
    assert_eq!(value(s.tf), 1f64);
    assert_eq!(score(s), 2f64.ln());
    assert!((score(s) - 0.6931).abs() < 1e-4);

    let hash = hash_docs();
    assert_eq!(score(TfIdfDefault::tfidf(&"a", &hash[0], &hash[..])), 2f64.ln());
    let tree = tree_docs();
    assert_eq!(score(TfIdfDefault::tfidf(&"a", &tree[0], &tree[..])), 2f64.ln());
}

#[test]
fn default_tfidf_this_is_zero() {
    let seq = sequence_docs();
    let s = TfIdfDefault::tfidf(&"this", &seq[0], &seq[..]);
    assert_eq!(value(s.tf), 0.75);
    assert_eq!(score(s), 0f64);

    let hash = hash_docs();
    assert_eq!(score(TfIdfDefault::tfidf(&"this", &hash[0], &hash[..])), 0f64);
    let tree = tree_docs();
    assert_eq!(score(TfIdfDefault::tfidf(&"this", &tree[0], &tree[..])), 0f64);
}

#[test]
fn default_tfidf_from_crate_docs() {
    let mut docs = Vec::new();
    docs.push(vec![("a", 3), ("b", 2), ("c", 4)]);
    docs.push(vec![("a", 2), ("d", 5)]);

    assert_eq!(0f64, score(TfIdfDefault::tfidf(&"a", &docs[0], &docs[..])));
    assert!(score(TfIdfDefault::tfidf(&"c", &docs[0], &docs[..])) > 0.5);
}

#[test]
fn scoring_twice_gives_identical_bits() {
    let seq = sequence_docs();
    let first = score(TfIdfDefault::tfidf(&"a", &seq[0], &seq[..]));
    let second = score(TfIdfDefault::tfidf(&"a", &seq[0], &seq[..]));
    assert_eq!(first.to_bits(), second.to_bits());
}

#[test]
fn swapping_corpus_documents_keeps_inverse_frequency() {
    let docs = sequence_docs();
    let mut swapped = sequence_docs();
    swapped.swap(0, 1);
    for term in ["this", "a", "example", "zebra"] {
        assert_eq!(
            InverseFrequencyIdf::idf(&term, &docs[..]),
            InverseFrequencyIdf::idf(&term, &swapped[..])
        );
    }
}
