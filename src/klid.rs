//! The klid.dk dictionary: fixed-width lines of text after each `<b>` heading
//! inside `<pre>`.
use vstd::prelude::*;
use vstd::utf8::*;
use crate::entry::{entries_view, entry_result_view, make_entry, result_view, Entry, EntryView, ExtractError, Source};
use crate::markup::{opt_text_view, select_texts_after, texts_after, texts_view};
use crate::text::{decode_utf8_bytes, expand_tab_bytes, expand_tabs, split_lines, trim_str, trimmed, NEWLINE};

verus! {

/// Width in bytes of the English column.
pub const KEY_WIDTH: usize = 32;

/// The elements whose following text holds the dictionary lines.
pub open spec fn klid_selector() -> Seq<char> {
    "body > pre > b"@
}

/// The entry of a line at least `KEY_WIDTH` bytes long: the English term is the
/// first `KEY_WIDTH` bytes, the Danish side the rest, both trimmed.
pub open spec fn klid_line(line: Seq<u8>) -> Result<EntryView, ExtractError> {
    let key = line.take(KEY_WIDTH as int);
    let value = line.skip(KEY_WIDTH as int);
    if valid_utf8(key) && valid_utf8(value) {
        Ok(
            EntryView {
                english: trimmed(decode_utf8(key)),
                danish: trimmed(decode_utf8(value)),
                source: Source::Klid,
            },
        )
    } else {
        Err(ExtractError::SplitInsideChar)
    }
}

/// The entries of `lines`; lines shorter than `KEY_WIDTH` bytes are skipped.
pub open spec fn klid_lines(lines: Seq<Seq<u8>>) -> Result<Seq<EntryView>, ExtractError>
    decreases lines.len(),
{
    if lines.len() == 0 {
        Ok(seq![])
    } else {
        match klid_lines(lines.drop_last()) {
            Err(e) => Err(e),
            Ok(prev) => if lines.last().len() < KEY_WIDTH {
                Ok(prev)
            } else {
                match klid_line(lines.last()) {
                    Ok(e) => Ok(prev.push(e)),
                    Err(e) => Err(e),
                }
            },
        }
    }
}

/// The lines of a block of text: tabs expanded, split at line feeds.
pub open spec fn klid_block_lines(block: Seq<char>) -> Seq<Seq<u8>> {
    split_lines(expand_tabs(encode_utf8(block)))
}

pub open spec fn klid_block(block: Seq<char>) -> Result<Seq<EntryView>, ExtractError> {
    klid_lines(klid_block_lines(block))
}

/// The entries of the texts after the headings, in order; a heading without
/// text after it is an error.
pub open spec fn klid_blocks(blocks: Seq<Option<Seq<char>>>) -> Result<Seq<EntryView>, ExtractError>
    decreases blocks.len(),
{
    if blocks.len() == 0 {
        Ok(seq![])
    } else {
        match klid_blocks(blocks.drop_last()) {
            Err(e) => Err(e),
            Ok(prev) => match blocks.last() {
                None => Err(ExtractError::MissingText),
                Some(b) => match klid_block(b) {
                    Err(e) => Err(e),
                    Ok(es) => Ok(prev + es),
                },
            },
        }
    }
}

pub open spec fn klid_document(html: Seq<char>) -> Result<Seq<EntryView>, ExtractError> {
    match texts_after(html, klid_selector()) {
        None => Err(ExtractError::BadSelector),
        Some(blocks) => klid_blocks(blocks),
    }
}

/// The entry of one line of at least `KEY_WIDTH` bytes.
pub fn klid_entry_from_line(line: Vec<u8>) -> (r: Result<Entry, ExtractError>)
    requires
        line@.len() >= KEY_WIDTH,
    ensures
        entry_result_view(r) == klid_line(line@),
{
    let ghost whole = line@;
    let mut key = line;
    let value = key.split_off(KEY_WIDTH);
    assert(key@ == whole.take(KEY_WIDTH as int));
    assert(value@ == whole.skip(KEY_WIDTH as int));
    let key = decode_utf8_bytes(key);
    let value = decode_utf8_bytes(value);
    match (key, value) {
        (Some(k), Some(v)) => Ok(make_entry(trim_str(k.as_str()), trim_str(v.as_str()), Source::Klid)),
        _ => Err(ExtractError::SplitInsideChar),
    }
}

/// Adds the entry of a finished line to `out`, or records why it has none.
fn klid_take_line(out: &mut Vec<Entry>, err: &mut Option<ExtractError>, line: Vec<u8>, Ghost(done): Ghost<Seq<Seq<u8>>>)
    requires
        (match *old(err) {
            Some(e) => klid_lines(done) == Err::<Seq<EntryView>, ExtractError>(e),
            None => klid_lines(done) == Ok::<Seq<EntryView>, ExtractError>(entries_view(old(out)@)),
        }),
    ensures
        (match *final(err) {
            Some(e) => klid_lines(done.push(line@)) == Err::<Seq<EntryView>, ExtractError>(e),
            None => klid_lines(done.push(line@)) == Ok::<Seq<EntryView>, ExtractError>(entries_view(final(out)@)),
        }),
{
    let ghost lines = done.push(line@);
    assert(lines.drop_last() == done);
    if err.is_some() || line.len() < KEY_WIDTH {
        return;
    }
    match klid_entry_from_line(line) {
        Ok(e) => {
            out.push(e);
            assert(entries_view(out@) =~= entries_view(old(out)@).push(e@));
        },
        Err(e) => {
            *err = Some(e);
        },
    }
}

/// The entries of one block of fixed-width text.
pub fn klid_entries_from_block(block: &str) -> (r: Result<Vec<Entry>, ExtractError>)
    ensures
        result_view(r) == klid_block(block@),
{
    let bytes = expand_tab_bytes(block.as_bytes());
    let mut out: Vec<Entry> = Vec::new();
    let mut err: Option<ExtractError> = None;
    let mut cur: Vec<u8> = Vec::new();
    let ghost mut done: Seq<Seq<u8>> = seq![];
    let mut i: usize = 0;
    assert(out@.map_values(|e: Entry| e@) =~= seq![]);
    while i < bytes.len()
        invariant
            i <= bytes@.len(),
            split_lines(bytes@.take(i as int)) == done.push(cur@),
            (match err {
                Some(e) => klid_lines(done) == Err::<Seq<EntryView>, ExtractError>(e),
                None => klid_lines(done) == Ok::<Seq<EntryView>, ExtractError>(entries_view(out@)),
            }),
        decreases bytes@.len() - i,
    {
        let c = bytes[i];
        proof {
            assert(bytes@.take(i + 1).drop_last() =~= bytes@.take(i as int));
        }
        if c == NEWLINE {
            let line = cur;
            cur = Vec::new();
            klid_take_line(&mut out, &mut err, line, Ghost(done));
            proof {
                done = done.push(line@);
            }
        } else {
            let ghost prev = cur@;
            cur.push(c);
            proof {
                assert(done.push(cur@) =~= done.push(prev).update(done.len() as int, prev.push(c)));
            }
        }
        i = i + 1;
    }
    assert(bytes@.take(i as int) =~= bytes@);
    let ghost last = cur@;
    klid_take_line(&mut out, &mut err, cur, Ghost(done));
    match err {
        Some(e) => Err(e),
        None => Ok(out),
    }
}

/// The entries of the texts that follow the headings, in order.
pub fn klid_entries_from_texts(blocks: &Vec<Option<String>>) -> (r: Result<Vec<Entry>, ExtractError>)
    ensures
        result_view(r) == klid_blocks(texts_view(blocks@)),
{
    let ghost bs = texts_view(blocks@);
    let mut out: Vec<Entry> = Vec::new();
    let mut err: Option<ExtractError> = None;
    let mut i: usize = 0;
    assert(entries_view(out@) =~= seq![]);
    while i < blocks.len()
        invariant
            i <= blocks@.len(),
            bs == texts_view(blocks@),
            (match err {
                Some(e) => klid_blocks(bs.take(i as int)) == Err::<Seq<EntryView>, ExtractError>(e),
                None => klid_blocks(bs.take(i as int)) == Ok::<Seq<EntryView>, ExtractError>(entries_view(out@)),
            }),
        decreases blocks@.len() - i,
    {
        proof {
            assert(bs.take(i + 1).drop_last() =~= bs.take(i as int));
            assert(bs.take(i + 1).last() == opt_text_view(blocks@[i as int]));
        }
        if err.is_none() {
            match &blocks[i] {
                None => {
                    err = Some(ExtractError::MissingText);
                },
                Some(b) => match klid_entries_from_block(b.as_str()) {
                    Err(e) => {
                        err = Some(e);
                    },
                    Ok(mut es) => {
                        let ghost before = entries_view(out@);
                        let ghost added = entries_view(es@);
                        out.append(&mut es);
                        assert(entries_view(out@) =~= before + added);
                    },
                },
            }
        }
        i = i + 1;
    }
    assert(bs.take(i as int) =~= bs);
    match err {
        Some(e) => Err(e),
        None => Ok(out),
    }
}

/// The entries of the klid.dk document `html`.
pub fn get_entries_from_klid(html: &str) -> (r: Result<Vec<Entry>, ExtractError>)
    ensures
        result_view(r) == klid_document(html@),
{
    match select_texts_after(html, "body > pre > b") {
        None => Err(ExtractError::BadSelector),
        Some(blocks) => klid_entries_from_texts(&blocks),
    }
}

} // verus!
