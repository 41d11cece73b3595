//! The sdu.dk dictionary: italic headwords, each followed by a separator and
//! its Danish gloss.
use vstd::prelude::*;
use vstd::string::*;
use crate::entry::{entries_view, make_entry, opt_entry_result_view, result_view, Entry, EntryView, ExtractError, Source};
use crate::markup::{children_view, first_child_text, first_text, opt_text_view, select_child_texts, select_texts_after, child_texts, texts_after, texts_view};
use crate::text::{trim_str, trimmed};

verus! {

/// The headword elements.
pub open spec fn sdu_selector() -> Seq<char> {
    "body > table:nth-child(1) > tbody:nth-child(1) > tr:nth-child(1) > td:nth-child(1) > em"@
}

/// The gloss of the text after a headword: its first character, the
/// separator, is dropped, and the rest trimmed.
pub open spec fn sdu_gloss(t: Seq<char>) -> Result<Seq<char>, ExtractError> {
    if t.len() == 0 {
        Err(ExtractError::MissingSeparator)
    } else {
        Ok(trimmed(t.drop_first()))
    }
}

/// The entry of a headword, given the texts of its child nodes, and the text
/// after the headword; `None` where either side is blank.
pub open spec fn sdu_pair(key: Seq<Option<Seq<char>>>, gloss: Option<Seq<char>>) -> Result<Option<EntryView>, ExtractError> {
    match (first_text(key), gloss) {
        (Some(k), Some(g)) => match sdu_gloss(g) {
            Ok(d) => if trimmed(k).len() == 0 || d.len() == 0 {
                Ok(None)
            } else {
                Ok(Some(EntryView { english: trimmed(k), danish: d, source: Source::Sdu }))
            },
            Err(e) => Err(e),
        },
        _ => Err(ExtractError::MissingText),
    }
}

/// The entries of the first `n` headwords.
pub open spec fn sdu_upto(keys: Seq<Seq<Option<Seq<char>>>>, glosses: Seq<Option<Seq<char>>>, n: nat) -> Result<Seq<EntryView>, ExtractError>
    decreases n,
{
    if n == 0 {
        Ok(seq![])
    } else {
        match sdu_upto(keys, glosses, (n - 1) as nat) {
            Err(e) => Err(e),
            Ok(prev) => match sdu_pair(keys[n - 1], glosses[n - 1]) {
                Ok(Some(e)) => Ok(prev.push(e)),
                Ok(None) => Ok(prev),
                Err(e) => Err(e),
            },
        }
    }
}

/// The entries of the headwords paired with the texts after them, as far as
/// both sequences go.
pub open spec fn sdu_pairs(keys: Seq<Seq<Option<Seq<char>>>>, glosses: Seq<Option<Seq<char>>>) -> Result<Seq<EntryView>, ExtractError> {
    let n = if keys.len() <= glosses.len() { keys.len() } else { glosses.len() };
    sdu_upto(keys, glosses, n)
}

pub open spec fn sdu_document(html: Seq<char>) -> Result<Seq<EntryView>, ExtractError> {
    match (child_texts(html, sdu_selector()), texts_after(html, sdu_selector())) {
        (Some(keys), Some(glosses)) => sdu_pairs(keys, glosses),
        _ => Err(ExtractError::BadSelector),
    }
}

/// The entry of a headword, given the texts of its child nodes, and the text
/// that follows the headword.
pub fn sdu_entry(key: &Vec<Option<String>>, gloss: &Option<String>) -> (r: Result<Option<Entry>, ExtractError>)
    ensures
        opt_entry_result_view(r) == sdu_pair(texts_view(key@), opt_text_view(*gloss)),
{
    match (first_child_text(key), gloss) {
        (Some(k), Some(g)) => {
            let n = g.as_str().unicode_len();
            if n == 0 {
                Err(ExtractError::MissingSeparator)
            } else {
                let rest = g.as_str().substring_char(1, n);
                assert(rest@ =~= g@.drop_first());
                let english = trim_str(k.as_str());
                let danish = trim_str(rest);
                if english.is_empty() || danish.is_empty() {
                    Ok(None)
                } else {
                    Ok(Some(make_entry(english, danish, Source::Sdu)))
                }
            }
        },
        _ => Err(ExtractError::MissingText),
    }
}

/// The entries of the headwords, given the texts of their child nodes, paired
/// with the texts after them.
pub fn sdu_entries_from_texts(keys: &Vec<Vec<Option<String>>>, glosses: &Vec<Option<String>>) -> (r: Result<Vec<Entry>, ExtractError>)
    ensures
        result_view(r) == sdu_pairs(children_view(keys@), texts_view(glosses@)),
{
    let ghost ks = children_view(keys@);
    let ghost gs = texts_view(glosses@);
    let n = if keys.len() <= glosses.len() { keys.len() } else { glosses.len() };
    let mut out: Vec<Entry> = Vec::new();
    let mut err: Option<ExtractError> = None;
    let mut i: usize = 0;
    assert(entries_view(out@) =~= seq![]);
    while i < n
        invariant
            i <= n,
            n <= keys@.len(),
            n <= glosses@.len(),
            ks == children_view(keys@),
            gs == texts_view(glosses@),
            (match err {
                Some(e) => sdu_upto(ks, gs, i as nat) == Err::<Seq<EntryView>, ExtractError>(e),
                None => sdu_upto(ks, gs, i as nat) == Ok::<Seq<EntryView>, ExtractError>(entries_view(out@)),
            }),
        decreases n - i,
    {
        if err.is_none() {
            match sdu_entry(&keys[i], &glosses[i]) {
                Ok(Some(e)) => {
                    let ghost before = entries_view(out@);
                    out.push(e);
                    assert(entries_view(out@) =~= before.push(e@));
                },
                Ok(None) => {},
                Err(e) => {
                    err = Some(e);
                },
            }
        }
        i = i + 1;
    }
    match err {
        Some(e) => Err(e),
        None => Ok(out),
    }
}

/// The entries of the sdu.dk document `html`.
pub fn get_entries_from_sdu(html: &str) -> (r: Result<Vec<Entry>, ExtractError>)
    ensures
        result_view(r) == sdu_document(html@),
{
    let selector = "body > table:nth-child(1) > tbody:nth-child(1) > tr:nth-child(1) > td:nth-child(1) > em";
    let keys = select_child_texts(html, selector);
    let glosses = select_texts_after(html, selector);
    match (keys, glosses) {
        (Some(k), Some(g)) => sdu_entries_from_texts(&k, &g),
        _ => Err(ExtractError::BadSelector),
    }
}

} // verus!
