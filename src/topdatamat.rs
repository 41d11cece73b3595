//! The topdatamat.dk dictionary: a description list whose terms are Danish and
//! whose descriptions are English.
use vstd::prelude::*;
use crate::entry::{entries_view, make_entry, opt_entry_result_view, result_view, Entry, EntryView, ExtractError, Source};
use crate::markup::{opt_text_view, select_texts_within, texts_view, texts_within};
use crate::text::{trim_str, trimmed};

verus! {

/// The Danish terms.
pub open spec fn term_selector() -> Seq<char> {
    ".dictionary dt"@
}

/// The English descriptions.
pub open spec fn description_selector() -> Seq<char> {
    ".dictionary dd"@
}

/// The entry of a term's text and its description's text: the description is
/// the English side. `None` where either side is blank.
pub open spec fn topdatamat_pair(term: Option<Seq<char>>, description: Option<Seq<char>>) -> Result<Option<EntryView>, ExtractError> {
    match (term, description) {
        (Some(t), Some(d)) => if trimmed(t).len() == 0 || trimmed(d).len() == 0 {
            Ok(None)
        } else {
            Ok(Some(EntryView { english: trimmed(d), danish: trimmed(t), source: Source::Topdatamat }))
        },
        _ => Err(ExtractError::MissingText),
    }
}

/// The entries of the first `n` term and description pairs.
pub open spec fn topdatamat_upto(terms: Seq<Option<Seq<char>>>, descriptions: Seq<Option<Seq<char>>>, n: nat) -> Result<Seq<EntryView>, ExtractError>
    decreases n,
{
    if n == 0 {
        Ok(seq![])
    } else {
        match topdatamat_upto(terms, descriptions, (n - 1) as nat) {
            Err(e) => Err(e),
            Ok(prev) => match topdatamat_pair(terms[n - 1], descriptions[n - 1]) {
                Ok(Some(e)) => Ok(prev.push(e)),
                Ok(None) => Ok(prev),
                Err(e) => Err(e),
            },
        }
    }
}

/// Terms and descriptions paired by position, as far as both sequences go.
pub open spec fn topdatamat_pairs(terms: Seq<Option<Seq<char>>>, descriptions: Seq<Option<Seq<char>>>) -> Result<Seq<EntryView>, ExtractError> {
    let n = if terms.len() <= descriptions.len() { terms.len() } else { descriptions.len() };
    topdatamat_upto(terms, descriptions, n)
}

pub open spec fn topdatamat_document(html: Seq<char>) -> Result<Seq<EntryView>, ExtractError> {
    match (texts_within(html, term_selector()), texts_within(html, description_selector())) {
        (Some(terms), Some(descriptions)) => topdatamat_pairs(terms, descriptions),
        _ => Err(ExtractError::BadSelector),
    }
}

/// The entry of a term's text and its description's text.
pub fn topdatamat_entry(term: &Option<String>, description: &Option<String>) -> (r: Result<Option<Entry>, ExtractError>)
    ensures
        opt_entry_result_view(r) == topdatamat_pair(opt_text_view(*term), opt_text_view(*description)),
{
    match (term, description) {
        (Some(t), Some(d)) => {
            let english = trim_str(d.as_str());
            let danish = trim_str(t.as_str());
            if english.is_empty() || danish.is_empty() {
                Ok(None)
            } else {
                Ok(Some(make_entry(english, danish, Source::Topdatamat)))
            }
        },
        _ => Err(ExtractError::MissingText),
    }
}

/// The entries of the term texts paired with the description texts.
pub fn topdatamat_entries_from_texts(terms: &Vec<Option<String>>, descriptions: &Vec<Option<String>>) -> (r: Result<Vec<Entry>, ExtractError>)
    ensures
        result_view(r) == topdatamat_pairs(texts_view(terms@), texts_view(descriptions@)),
{
    let ghost ts = texts_view(terms@);
    let ghost ds = texts_view(descriptions@);
    let n = if terms.len() <= descriptions.len() { terms.len() } else { descriptions.len() };
    let mut out: Vec<Entry> = Vec::new();
    let mut err: Option<ExtractError> = None;
    let mut i: usize = 0;
    assert(entries_view(out@) =~= seq![]);
    while i < n
        invariant
            i <= n,
            n <= terms@.len(),
            n <= descriptions@.len(),
            ts == texts_view(terms@),
            ds == texts_view(descriptions@),
            (match err {
                Some(e) => topdatamat_upto(ts, ds, i as nat) == Err::<Seq<EntryView>, ExtractError>(e),
                None => topdatamat_upto(ts, ds, i as nat) == Ok::<Seq<EntryView>, ExtractError>(entries_view(out@)),
            }),
        decreases n - i,
    {
        if err.is_none() {
            match topdatamat_entry(&terms[i], &descriptions[i]) {
                Ok(Some(e)) => {
                    let ghost before = entries_view(out@);
                    out.push(e);
                    assert(entries_view(out@) =~= before.push(e@));
                },
                Ok(None) => {},
                Err(e) => {
                    err = Some(e);
                },
            }
        }
        i = i + 1;
    }
    match err {
        Some(e) => Err(e),
        None => Ok(out),
    }
}

/// The entries of the topdatamat.dk document `html`.
pub fn get_entries_from_topdatamat(html: &str) -> (r: Result<Vec<Entry>, ExtractError>)
    ensures
        result_view(r) == topdatamat_document(html@),
{
    let terms = select_texts_within(html, ".dictionary dt");
    let descriptions = select_texts_within(html, ".dictionary dd");
    match (terms, descriptions) {
        (Some(t), Some(d)) => topdatamat_entries_from_texts(&t, &d),
        _ => Err(ExtractError::BadSelector),
    }
}

} // verus!
