//! The entry sequence that is stored at first start.
use vstd::prelude::*;
use crate::entry::{entries_view, result_view, Entry, EntryView, ExtractError, Source};
use crate::klid::{get_entries_from_klid, klid_document};
use crate::sdu::{get_entries_from_sdu, sdu_document};
use crate::topdatamat::{get_entries_from_topdatamat, topdatamat_document};

verus! {

/// The entries of one document, where it yields any.
pub open spec fn nonempty(r: Result<Seq<EntryView>, ExtractError>, source: Source) -> Result<Seq<EntryView>, ExtractError> {
    match r {
        Ok(es) => if es.len() == 0 {
            Err(ExtractError::NoEntries(source))
        } else {
            Ok(es)
        },
        Err(e) => Err(e),
    }
}

/// The entries of the three documents, in the order klid.dk, sdu.dk,
/// topdatamat.dk, or the first error met in that order; a document without
/// entries is an error.
pub open spec fn ingest(
    klid: Seq<char>,
    sdu: Seq<char>,
    topdatamat: Seq<char>,
) -> Result<Seq<EntryView>, ExtractError> {
    match nonempty(klid_document(klid), Source::Klid) {
        Err(e) => Err(e),
        Ok(a) => match nonempty(sdu_document(sdu), Source::Sdu) {
            Err(e) => Err(e),
            Ok(b) => match nonempty(topdatamat_document(topdatamat), Source::Topdatamat) {
                Err(e) => Err(e),
                Ok(c) => Ok(a + b + c),
            },
        },
    }
}

/// Extracts and concatenates the entries of the three dictionary documents;
/// nothing is deduplicated, and a document without entries is an error.
pub fn collect_entries(klid_html: &str, sdu_html: &str, topdatamat_html: &str) -> (r: Result<Vec<Entry>, ExtractError>)
    ensures
        result_view(r) == ingest(klid_html@, sdu_html@, topdatamat_html@),
{
    let mut entries = get_entries_from_klid(klid_html)?;
    if entries.len() == 0 {
        return Err(ExtractError::NoEntries(Source::Klid));
    }
    let mut more = get_entries_from_sdu(sdu_html)?;
    if more.len() == 0 {
        return Err(ExtractError::NoEntries(Source::Sdu));
    }
    let ghost a = entries_view(entries@);
    let ghost b = entries_view(more@);
    entries.append(&mut more);
    let mut last = get_entries_from_topdatamat(topdatamat_html)?;
    if last.len() == 0 {
        return Err(ExtractError::NoEntries(Source::Topdatamat));
    }
    let ghost c = entries_view(last@);
    entries.append(&mut last);
    assert(entries_view(entries@) =~= a + b + c);
    Ok(entries)
}

} // verus!
