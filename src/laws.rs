//! What holds of every extraction and ingestion.
use vstd::prelude::*;
use crate::entry::{EntryView, Source};
use crate::ingest::ingest;
use crate::klid::{klid_blocks, klid_document, klid_line, klid_lines, KEY_WIDTH};
use crate::markup::{child_texts, first_text, texts_after, texts_within};
use crate::sdu::{sdu_document, sdu_gloss, sdu_selector, sdu_upto};
use crate::text::{is_trimmed, is_white_space, lemma_trimmed_is_trimmed, lemma_trimmed_nonempty, trimmed};
use vstd::utf8::{decode_utf8, valid_utf8};
use crate::topdatamat::{description_selector, term_selector, topdatamat_document, topdatamat_upto};

verus! {

/// Every entry of `es` has trimmed English and Danish sides and comes from `src`.
pub open spec fn entries_trimmed(es: Seq<EntryView>, src: Source) -> bool {
    forall|i: int|
        0 <= i < es.len() ==> is_trimmed((#[trigger] es[i]).english) && is_trimmed(es[i].danish)
            && es[i].source == src
}

/// Every entry of `es` has trimmed, non-empty English and Danish sides and
/// comes from `src`.
pub open spec fn entries_clean(es: Seq<EntryView>, src: Source) -> bool {
    &&& entries_trimmed(es, src)
    &&& forall|i: int| 0 <= i < es.len() ==> (#[trigger] es[i]).english.len() > 0 && es[i].danish.len() > 0
}

proof fn lemma_trimmed_push(es: Seq<EntryView>, e: EntryView, src: Source)
    requires
        entries_trimmed(es, src),
        is_trimmed(e.english),
        is_trimmed(e.danish),
        e.source == src,
    ensures
        entries_trimmed(es.push(e), src),
{
    assert forall|i: int| 0 <= i < es.push(e).len() implies is_trimmed((#[trigger] es.push(e)[i]).english)
        && is_trimmed(es.push(e)[i].danish) && es.push(e)[i].source == src by {
        if i < es.len() {
            assert(es.push(e)[i] == es[i]);
        } else {
            assert(es.push(e)[i] == e);
        }
    }
}

proof fn lemma_clean_push(es: Seq<EntryView>, e: EntryView, src: Source)
    requires
        entries_clean(es, src),
        is_trimmed(e.english),
        is_trimmed(e.danish),
        e.english.len() > 0,
        e.danish.len() > 0,
        e.source == src,
    ensures
        entries_clean(es.push(e), src),
{
    lemma_trimmed_push(es, e, src);
    assert forall|i: int| 0 <= i < es.push(e).len() implies (#[trigger] es.push(e)[i]).english.len() > 0
        && es.push(e)[i].danish.len() > 0 by {
        if i < es.len() {
            assert(es.push(e)[i] == es[i]);
        } else {
            assert(es.push(e)[i] == e);
        }
    }
}

proof fn lemma_trimmed_concat(a: Seq<EntryView>, b: Seq<EntryView>, src: Source)
    requires
        entries_trimmed(a, src),
        entries_trimmed(b, src),
    ensures
        entries_trimmed(a + b, src),
{
    assert forall|i: int| 0 <= i < (a + b).len() implies is_trimmed((#[trigger] (a + b)[i]).english)
        && is_trimmed((a + b)[i].danish) && (a + b)[i].source == src by {
        if i < a.len() {
            assert((a + b)[i] == a[i]);
        } else {
            assert((a + b)[i] == b[i - a.len()]);
        }
    }
}

proof fn lemma_klid_lines_clean(lines: Seq<Seq<u8>>)
    ensures
        klid_lines(lines) matches Ok(es) ==> entries_trimmed(es, Source::Klid),
    decreases lines.len(),
{
    if lines.len() > 0 {
        lemma_klid_lines_clean(lines.drop_last());
        let line = lines.last();
        lemma_trimmed_is_trimmed(vstd::utf8::decode_utf8(line.take(KEY_WIDTH as int)));
        lemma_trimmed_is_trimmed(vstd::utf8::decode_utf8(line.skip(KEY_WIDTH as int)));
        if let Ok(prev) = klid_lines(lines.drop_last()) {
            if let Ok(e) = klid_line(line) {
                lemma_trimmed_push(prev, e, Source::Klid);
            }
        }
    }
}

proof fn lemma_klid_blocks_clean(blocks: Seq<Option<Seq<char>>>)
    ensures
        klid_blocks(blocks) matches Ok(es) ==> entries_trimmed(es, Source::Klid),
    decreases blocks.len(),
{
    if blocks.len() > 0 {
        lemma_klid_blocks_clean(blocks.drop_last());
        if let Some(b) = blocks.last() {
            lemma_klid_lines_clean(crate::klid::klid_block_lines(b));
            if let (Ok(prev), Ok(es)) = (klid_blocks(blocks.drop_last()), crate::klid::klid_block(b)) {
                lemma_trimmed_concat(prev, es, Source::Klid);
            }
        }
    }
}

proof fn lemma_sdu_clean(keys: Seq<Seq<Option<Seq<char>>>>, glosses: Seq<Option<Seq<char>>>, n: nat)
    requires
        n <= keys.len(),
        n <= glosses.len(),
    ensures
        sdu_upto(keys, glosses, n) matches Ok(es) ==> entries_clean(es, Source::Sdu),
    decreases n,
{
    if n > 0 {
        lemma_sdu_clean(keys, glosses, (n - 1) as nat);
        if let (Some(k), Some(g)) = (first_text(keys[n - 1]), glosses[n - 1]) {
            lemma_trimmed_is_trimmed(k);
            if g.len() > 0 {
                lemma_trimmed_is_trimmed(g.drop_first());
            }
            if let (Ok(prev), Ok(d)) = (sdu_upto(keys, glosses, (n - 1) as nat), sdu_gloss(g)) {
                if trimmed(k).len() > 0 && d.len() > 0 {
                    lemma_clean_push(prev, EntryView { english: trimmed(k), danish: d, source: Source::Sdu }, Source::Sdu);
                }
            }
        }
    }
}

proof fn lemma_topdatamat_clean(terms: Seq<Option<Seq<char>>>, descriptions: Seq<Option<Seq<char>>>, n: nat)
    requires
        n <= terms.len(),
        n <= descriptions.len(),
    ensures
        topdatamat_upto(terms, descriptions, n) matches Ok(es) ==> entries_clean(es, Source::Topdatamat),
    decreases n,
{
    if n > 0 {
        lemma_topdatamat_clean(terms, descriptions, (n - 1) as nat);
        if let (Some(t), Some(d)) = (terms[n - 1], descriptions[n - 1]) {
            lemma_trimmed_is_trimmed(t);
            lemma_trimmed_is_trimmed(d);
            if let Ok(prev) = topdatamat_upto(terms, descriptions, (n - 1) as nat) {
                if trimmed(t).len() > 0 && trimmed(d).len() > 0 {
                    lemma_clean_push(prev, EntryView { english: trimmed(d), danish: trimmed(t), source: Source::Topdatamat }, Source::Topdatamat);
                }
            }
        }
    }
}

/// Each extractor yields entries whose English and Danish sides carry no
/// leading or trailing white space, all labelled with that extractor's source.
/// The sides of sdu.dk and topdatamat.dk entries are non-empty; a klid.dk line
/// may leave either column blank, and is still an entry.
pub proof fn law_extracted_entries_clean(klid: Seq<char>, sdu: Seq<char>, topdatamat: Seq<char>)
    ensures
        klid_document(klid) matches Ok(es) ==> entries_trimmed(es, Source::Klid),
        sdu_document(sdu) matches Ok(es) ==> entries_clean(es, Source::Sdu),
        topdatamat_document(topdatamat) matches Ok(es) ==> entries_clean(es, Source::Topdatamat),
{
    if let Some(blocks) = texts_after(klid, crate::klid::klid_selector()) {
        lemma_klid_blocks_clean(blocks);
    }
    if let (Some(keys), Some(glosses)) = (child_texts(sdu, sdu_selector()), texts_after(sdu, sdu_selector())) {
        let n = if keys.len() <= glosses.len() { keys.len() } else { glosses.len() };
        lemma_sdu_clean(keys, glosses, n);
    }
    if let (Some(terms), Some(descriptions)) = (
        texts_within(topdatamat, term_selector()),
        texts_within(topdatamat, description_selector()),
    ) {
        let n = if terms.len() <= descriptions.len() { terms.len() } else { descriptions.len() };
        lemma_topdatamat_clean(terms, descriptions, n);
    }
}

/// The English column of `line` holds a character other than white space,
/// where the line is long enough to give an entry.
pub open spec fn key_column_filled(line: Seq<u8>) -> bool {
    line.len() >= KEY_WIDTH && valid_utf8(line.take(KEY_WIDTH as int)) ==> exists|j: int|
        0 <= j < decode_utf8(line.take(KEY_WIDTH as int)).len() && !is_white_space(
            #[trigger] decode_utf8(line.take(KEY_WIDTH as int))[j],
        )
}

/// Every line of every block of the klid.dk document `html` has a filled
/// English column.
pub open spec fn klid_keys_filled(html: Seq<char>) -> bool {
    texts_after(html, crate::klid::klid_selector()) matches Some(blocks) ==> forall|b: int|
        0 <= b < blocks.len() && blocks[b] is Some ==> forall|k: int|
            0 <= k < crate::klid::klid_block_lines(blocks[b]->Some_0).len() ==> key_column_filled(
                #[trigger] crate::klid::klid_block_lines(blocks[b]->Some_0)[k],
            )
}

proof fn lemma_klid_lines_english_nonempty(lines: Seq<Seq<u8>>)
    requires
        forall|k: int| 0 <= k < lines.len() ==> key_column_filled(#[trigger] lines[k]),
    ensures
        klid_lines(lines) matches Ok(es) ==> forall|i: int| 0 <= i < es.len() ==> (#[trigger] es[i]).english.len() > 0,
    decreases lines.len(),
{
    if lines.len() > 0 {
        let rest = lines.drop_last();
        assert forall|k: int| 0 <= k < rest.len() implies key_column_filled(#[trigger] rest[k]) by {
            assert(rest[k] == lines[k]);
        }
        lemma_klid_lines_english_nonempty(rest);
        let line = lines.last();
        assert(key_column_filled(lines[lines.len() - 1]));
        if let (Ok(prev), Ok(e)) = (klid_lines(rest), klid_line(line)) {
            if line.len() >= KEY_WIDTH {
                let key = decode_utf8(line.take(KEY_WIDTH as int));
                let j = choose|j: int| 0 <= j < key.len() && !is_white_space(#[trigger] key[j]);
                lemma_trimmed_nonempty(key, j);
                assert forall|i: int| 0 <= i < prev.push(e).len() implies (#[trigger] prev.push(e)[i]).english.len() > 0 by {
                    if i < prev.len() {
                        assert(prev.push(e)[i] == prev[i]);
                    }
                }
            }
        }
    }
}

proof fn lemma_klid_blocks_english_nonempty(blocks: Seq<Option<Seq<char>>>)
    requires
        forall|b: int| 0 <= b < blocks.len() && blocks[b] is Some ==> forall|k: int|
            0 <= k < crate::klid::klid_block_lines(blocks[b]->Some_0).len() ==> key_column_filled(
                #[trigger] crate::klid::klid_block_lines(blocks[b]->Some_0)[k],
            ),
    ensures
        klid_blocks(blocks) matches Ok(es) ==> forall|i: int| 0 <= i < es.len() ==> (#[trigger] es[i]).english.len() > 0,
    decreases blocks.len(),
{
    if blocks.len() > 0 {
        let rest = blocks.drop_last();
        assert forall|b: int| 0 <= b < rest.len() && rest[b] is Some implies forall|k: int|
            0 <= k < crate::klid::klid_block_lines(rest[b]->Some_0).len() ==> key_column_filled(
                #[trigger] crate::klid::klid_block_lines(rest[b]->Some_0)[k],
            ) by {
            assert(rest[b] == blocks[b]);
        }
        lemma_klid_blocks_english_nonempty(rest);
        if let Some(t) = blocks.last() {
            assert(blocks[blocks.len() - 1] is Some);
            lemma_klid_lines_english_nonempty(crate::klid::klid_block_lines(t));
            if let (Ok(prev), Ok(es)) = (klid_blocks(rest), crate::klid::klid_block(t)) {
                assert forall|i: int| 0 <= i < (prev + es).len() implies (#[trigger] (prev + es)[i]).english.len() > 0 by {
                    if i < prev.len() {
                        assert((prev + es)[i] == prev[i]);
                    } else {
                        assert((prev + es)[i] == es[i - prev.len()]);
                    }
                }
            }
        }
    }
}

/// A klid.dk entry has a non-empty English side wherever the English column
/// of each line holds a character other than white space.
pub proof fn law_klid_english_nonempty(html: Seq<char>)
    requires
        klid_keys_filled(html),
    ensures
        klid_document(html) matches Ok(es) ==> forall|i: int| 0 <= i < es.len() ==> (#[trigger] es[i]).english.len() > 0,
{
    if let Some(blocks) = texts_after(html, crate::klid::klid_selector()) {
        lemma_klid_blocks_english_nonempty(blocks);
    }
}

/// Every ingested entry has trimmed English and Danish sides, and its source
/// label is one of "klid.dk", "sdu.dk" and "topdatamat.dk". Both sides of an
/// entry not from klid.dk are non-empty.
pub proof fn law_ingested_entries_clean(klid: Seq<char>, sdu: Seq<char>, topdatamat: Seq<char>)
    ensures
        ingest(klid, sdu, topdatamat) matches Ok(es) ==> forall|i: int|
            0 <= i < es.len() ==> {
                &&& is_trimmed((#[trigger] es[i]).english)
                &&& is_trimmed(es[i].danish)
                &&& es[i].source.spec_label() == "klid.dk"@ || es[i].source.spec_label() == "sdu.dk"@
                    || es[i].source.spec_label() == "topdatamat.dk"@
                &&& es[i].source != Source::Klid ==> es[i].english.len() > 0 && es[i].danish.len() > 0
            },
{
    law_extracted_entries_clean(klid, sdu, topdatamat);
    if let Ok(es) = ingest(klid, sdu, topdatamat) {
        let a = klid_document(klid)->Ok_0;
        let b = sdu_document(sdu)->Ok_0;
        let c = topdatamat_document(topdatamat)->Ok_0;
        assert forall|i: int| 0 <= i < es.len() implies {
            &&& is_trimmed((#[trigger] es[i]).english)
            &&& is_trimmed(es[i].danish)
            &&& es[i].source.spec_label() == "klid.dk"@ || es[i].source.spec_label() == "sdu.dk"@
                || es[i].source.spec_label() == "topdatamat.dk"@
            &&& es[i].source != Source::Klid ==> es[i].english.len() > 0 && es[i].danish.len() > 0
        } by {
            if i < a.len() {
                assert(es[i] == a[i]);
            } else if i < a.len() + b.len() {
                assert(es[i] == b[i - a.len()]);
            } else {
                assert(es[i] == c[i - a.len() - b.len()]);
            }
        }
    }
}

/// Ingesting the same three documents twice stores the same multiset of
/// entries.
pub proof fn law_ingest_repeatable(
    klid: Seq<char>,
    sdu: Seq<char>,
    topdatamat: Seq<char>,
    first: Seq<EntryView>,
    second: Seq<EntryView>,
)
    requires
        ingest(klid, sdu, topdatamat) == Ok::<Seq<EntryView>, crate::entry::ExtractError>(first),
        ingest(klid, sdu, topdatamat) == Ok::<Seq<EntryView>, crate::entry::ExtractError>(second),
    ensures
        first.to_multiset() == second.to_multiset(),
{
}

} // verus!
