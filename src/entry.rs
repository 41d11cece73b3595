//! Dictionary entries and their provenance.
use vstd::prelude::*;

verus! {

/// The dictionary an entry was taken from.
#[derive(Clone, Copy, Debug, PartialEq, Eq, Structural)]
pub enum Source {
    Klid,
    Sdu,
    Topdatamat,
}

impl Source {
    pub open spec fn spec_label(self) -> Seq<char> {
        match self {
            Source::Klid => "klid.dk"@,
            Source::Sdu => "sdu.dk"@,
            Source::Topdatamat => "topdatamat.dk"@,
        }
    }

    /// The label stored with every entry of this source.
    pub fn label(&self) -> (r: &'static str)
        ensures
            r@ == self.spec_label(),
    {
        match self {
            Source::Klid => "klid.dk",
            Source::Sdu => "sdu.dk",
            Source::Topdatamat => "topdatamat.dk",
        }
    }

    /// The source whose label is `s`, if any.
    pub fn from_label(s: &str) -> (r: Option<Source>)
        ensures
            r matches Some(src) ==> src.spec_label() == s@,
            r is None ==> (forall|src: Source| src.spec_label() != s@),
    {
        proof {
            reveal_strlit("klid.dk");
            reveal_strlit("sdu.dk");
            reveal_strlit("topdatamat.dk");
        }
        let owned = s.to_owned();
        if owned == String::from_str("klid.dk") {
            Some(Source::Klid)
        } else if owned == String::from_str("sdu.dk") {
            Some(Source::Sdu)
        } else if owned == String::from_str("topdatamat.dk") {
            Some(Source::Topdatamat)
        } else {
            None
        }
    }
}

/// One English term with its Danish translation or gloss.
#[derive(Clone, Debug)]
pub struct Entry {
    pub english: String,
    pub danish: String,
    pub source: Source,
}

/// The mathematical value of an [`Entry`].
pub struct EntryView {
    pub english: Seq<char>,
    pub danish: Seq<char>,
    pub source: Source,
}

impl View for Entry {
    type V = EntryView;

    open spec fn view(&self) -> EntryView {
        EntryView { english: self.english@, danish: self.danish@, source: self.source }
    }
}

/// Why a dictionary document could not be turned into entries.
#[derive(Clone, Copy, Debug, PartialEq, Eq, Structural)]
pub enum ExtractError {
    /// The selector of the source was rejected by the HTML library.
    BadSelector,
    /// A matched element lacks the text node the source layout puts there.
    MissingText,
    /// A fixed-width line has its column boundary inside a character.
    SplitInsideChar,
    /// A gloss lacks the separator character in front of it.
    MissingSeparator,
    /// A document yielded no entries at all.
    NoEntries(Source),
}

pub open spec fn entries_view(v: Seq<Entry>) -> Seq<EntryView> {
    v.map_values(|e: Entry| e@)
}

pub open spec fn result_view(r: Result<Vec<Entry>, ExtractError>) -> Result<
    Seq<EntryView>,
    ExtractError,
> {
    match r {
        Ok(v) => Ok(entries_view(v@)),
        Err(e) => Err(e),
    }
}

pub open spec fn entry_result_view(r: Result<Entry, ExtractError>) -> Result<EntryView, ExtractError> {
    match r {
        Ok(e) => Ok(e@),
        Err(e) => Err(e),
    }
}

pub open spec fn opt_entry_result_view(r: Result<Option<Entry>, ExtractError>) -> Result<Option<EntryView>, ExtractError> {
    match r {
        Ok(Some(e)) => Ok(Some(e@)),
        Ok(None) => Ok(None),
        Err(e) => Err(e),
    }
}

/// Builds an entry from its three parts.
pub fn make_entry(english: &str, danish: &str, source: Source) -> (r: Entry)
    ensures
        r@ == (EntryView { english: english@, danish: danish@, source }),
{
    Entry { english: english.to_owned(), danish: danish.to_owned(), source }
}

} // verus!
