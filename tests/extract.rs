use ordbog::entry::{Entry, ExtractError, Source};
use ordbog::ingest::collect_entries;
use ordbog::klid::{get_entries_from_klid, klid_entries_from_block, klid_entry_from_line};
use ordbog::sdu::{get_entries_from_sdu, sdu_entry};
use ordbog::topdatamat::get_entries_from_topdatamat;

fn triple(e: &Entry) -> (String, String, &'static str) {
    (e.english.clone(), e.danish.clone(), e.source.label())
}

fn klid_page(body: &str) -> String {
    format!("<html><body><pre>{}</pre></body></html>", body)
}

fn sdu_page(cell: &str) -> String {
    format!("<html><body><table><tbody><tr><td>{}</td></tr></tbody></table></body></html>", cell)
}

fn topdatamat_page(list: &str) -> String {
    format!("<html><body><dl class=\"dictionary\">{}</dl></body></html>", list)
}

#[test]
fn klid_single_heading_gives_one_row() {
    let line = "buffer                          bufferet lager";
    assert_eq!(line.len(), 46);
    let html = klid_page(&format!("<b>A</b>\n{}\n", line));
    let entries = get_entries_from_klid(&html).unwrap();
    assert_eq!(entries.len(), 1);
    assert_eq!(triple(&entries[0]), ("buffer".to_string(), "bufferet lager".to_string(), "klid.dk"));
}

#[test]
fn klid_line_of_exactly_key_width_is_kept_with_empty_danish() {
    let line = "compiler                        ".as_bytes().to_vec();
    assert_eq!(line.len(), 32);
    let e = klid_entry_from_line(line).unwrap();
    assert_eq!(e.english, "compiler");
    assert_eq!(e.danish, "");
    assert_eq!(e.source, Source::Klid);
    let block = "x\ncompiler                        \ny";
    let es = klid_entries_from_block(block).unwrap();
    assert_eq!(es.len(), 1);
    assert_eq!(es[0].english, "compiler");
    assert_eq!(es[0].danish, "");
}

#[test]
fn klid_key_width_line_at_end_of_block_is_kept() {
    let block = "\na                               ";
    let es = klid_entries_from_block(block).unwrap();
    assert_eq!(es.len(), 1);
    assert_eq!(es[0].english, "a");
    assert_eq!(es[0].danish, "");
    let html = klid_page("<b>A</b>\nbuffer                          bufferet lager\nlink                            ");
    let got: Vec<_> = get_entries_from_klid(&html).unwrap().iter().map(triple).collect();
    assert_eq!(
        got,
        vec![
            ("buffer".to_string(), "bufferet lager".to_string(), "klid.dk"),
            ("link".to_string(), "".to_string(), "klid.dk"),
        ]
    );
}

#[test]
fn klid_short_lines_are_skipped() {
    let block = "A\nshort line\nabort                           afbryde\n\nB\nbyte                            byte";
    let es = klid_entries_from_block(block).unwrap();
    let got: Vec<_> = es.iter().map(triple).collect();
    assert_eq!(
        got,
        vec![
            ("abort".to_string(), "afbryde".to_string(), "klid.dk"),
            ("byte".to_string(), "byte".to_string(), "klid.dk"),
        ]
    );
}

#[test]
fn klid_tab_counts_as_eight_spaces() {
    // 3 tabs are 24 bytes; "ab" and 6 spaces make up the 32-byte key column.
    let block = "\t\t\tab      lager";
    let es = klid_entries_from_block(block).unwrap();
    assert_eq!(es.len(), 1);
    assert_eq!(es[0].english, "ab");
    assert_eq!(es[0].danish, "lager");
    let block = "\tab      lager";
    assert!(klid_entries_from_block(block).unwrap().is_empty());
    let block = "x\n\t\t\tab      lager";
    let es = klid_entries_from_block(block).unwrap();
    assert_eq!(es.len(), 1);
    assert_eq!(es[0].english, "ab");
    assert_eq!(es[0].danish, "lager");
}

#[test]
fn klid_column_inside_character_is_an_error() {
    // 31 ASCII bytes then a two-byte character: byte 32 falls inside it.
    let block = "x\naaaaaaaaaaaaaaaaaaaaaaaaaaaaaaaæble";
    assert_eq!(klid_entries_from_block(block).unwrap_err(), ExtractError::SplitInsideChar);
}

#[test]
fn klid_heading_without_text_is_an_error() {
    let html = klid_page("<b>A</b><i>x</i>");
    assert_eq!(get_entries_from_klid(&html).unwrap_err(), ExtractError::MissingText);
}

#[test]
fn sdu_separator_is_dropped() {
    let html = sdu_page("<em>cache</em>: hurtiglager");
    let es = get_entries_from_sdu(&html).unwrap();
    assert_eq!(es.len(), 1);
    assert_eq!(triple(&es[0]), ("cache".to_string(), "hurtiglager".to_string(), "sdu.dk"));
}

#[test]
fn sdu_several_headwords_in_order() {
    let html = sdu_page("<em>cache</em>: hurtiglager<br><em> array </em>- tabel <br>");
    let es = get_entries_from_sdu(&html).unwrap();
    let got: Vec<_> = es.iter().map(triple).collect();
    assert_eq!(
        got,
        vec![
            ("cache".to_string(), "hurtiglager".to_string(), "sdu.dk"),
            ("array".to_string(), "tabel".to_string(), "sdu.dk"),
        ]
    );
}

#[test]
fn sdu_missing_separator_is_an_error() {
    let key = vec![Some("cache".to_string())];
    assert_eq!(sdu_entry(&key, &Some("".to_string())).unwrap_err(), ExtractError::MissingSeparator);
    assert_eq!(sdu_entry(&key, &None).unwrap_err(), ExtractError::MissingText);
    assert_eq!(sdu_entry(&vec![None], &Some(":x".to_string())).unwrap_err(), ExtractError::MissingText);
    let e = sdu_entry(&key, &Some(":x".to_string())).unwrap().unwrap();
    assert_eq!(e.danish, "x");
}

#[test]
fn sdu_separator_is_dropped_before_trimming() {
    let key = vec![Some("cache".to_string())];
    let e = sdu_entry(&key, &Some(" :x".to_string())).unwrap().unwrap();
    assert_eq!(e.danish, ":x");
}

#[test]
fn sdu_blank_sides_are_skipped() {
    let key = vec![Some("cache".to_string())];
    assert!(sdu_entry(&key, &Some(":".to_string())).unwrap().is_none());
    assert!(sdu_entry(&key, &Some("   ".to_string())).unwrap().is_none());
    assert!(sdu_entry(&vec![Some("  ".to_string())], &Some(":x".to_string())).unwrap().is_none());
    let html = sdu_page("<em>a</em>:<br><em>cache</em>: hurtiglager");
    let got: Vec<_> = get_entries_from_sdu(&html).unwrap().iter().map(triple).collect();
    assert_eq!(got, vec![("cache".to_string(), "hurtiglager".to_string(), "sdu.dk")]);
}

#[test]
fn sdu_headword_is_its_direct_text() {
    let key = vec![None, Some(" ram ".to_string()), Some("other".to_string())];
    let e = sdu_entry(&key, &Some(": lager".to_string())).unwrap().unwrap();
    assert_eq!(e.english, "ram");
    let html = sdu_page("<em><b>x</b> cache </em>: hurtiglager");
    let got: Vec<_> = get_entries_from_sdu(&html).unwrap().iter().map(triple).collect();
    assert_eq!(got, vec![("cache".to_string(), "hurtiglager".to_string(), "sdu.dk")]);
}

#[test]
fn topdatamat_sides_are_swapped() {
    let html = topdatamat_page("<dt>fil</dt><dd>file</dd>");
    let es = get_entries_from_topdatamat(&html).unwrap();
    assert_eq!(es.len(), 1);
    assert_eq!(triple(&es[0]), ("file".to_string(), "fil".to_string(), "topdatamat.dk"));
}

#[test]
fn topdatamat_finds_nested_terms() {
    let html = "<html><body><div class='dictionary'><dl><dt>fil</dt><dd>file</dd></dl></div></body></html>";
    let got: Vec<_> = get_entries_from_topdatamat(html).unwrap().iter().map(triple).collect();
    assert_eq!(got, vec![("file".to_string(), "fil".to_string(), "topdatamat.dk")]);
}

#[test]
fn topdatamat_blank_sides_are_skipped() {
    let html = topdatamat_page("<dt> </dt><dd>file</dd><dt>mappe</dt><dd>  </dd><dt>fil</dt><dd>file</dd>");
    let got: Vec<_> = get_entries_from_topdatamat(&html).unwrap().iter().map(triple).collect();
    assert_eq!(got, vec![("file".to_string(), "fil".to_string(), "topdatamat.dk")]);
}

#[test]
fn topdatamat_pairs_stop_at_the_shorter_list() {
    let html = topdatamat_page("<dt> fil </dt><dd> file </dd><dt>mappe</dt>");
    let es = get_entries_from_topdatamat(&html).unwrap();
    assert_eq!(es.len(), 1);
    assert_eq!(es[0].english, "file");
    assert_eq!(es[0].danish, "fil");
}

fn three_pages() -> (String, String, String) {
    (
        klid_page("<b>A</b>\narray                           tabel\n"),
        sdu_page("<em>array</em>: række"),
        topdatamat_page("<dt>matrix</dt><dd>array</dd><dt>fil</dt><dd>file</dd>"),
    )
}

#[test]
fn ingestion_concatenates_in_source_order() {
    let (k, s, t) = three_pages();
    let es = collect_entries(&k, &s, &t).unwrap();
    let got: Vec<_> = es.iter().map(triple).collect();
    assert_eq!(
        got,
        vec![
            ("array".to_string(), "tabel".to_string(), "klid.dk"),
            ("array".to_string(), "række".to_string(), "sdu.dk"),
            ("array".to_string(), "matrix".to_string(), "topdatamat.dk"),
            ("file".to_string(), "fil".to_string(), "topdatamat.dk"),
        ]
    );
}

#[test]
fn ingestion_twice_gives_the_same_entries() {
    let (k, s, t) = three_pages();
    let first: Vec<_> = collect_entries(&k, &s, &t).unwrap().iter().map(triple).collect();
    let second: Vec<_> = collect_entries(&k, &s, &t).unwrap().iter().map(triple).collect();
    assert_eq!(first, second);
}

#[test]
fn ingestion_reports_the_first_error() {
    let (_, s, t) = three_pages();
    let bad = klid_page("<b>A</b><i>x</i>");
    assert_eq!(collect_entries(&bad, &s, &t).unwrap_err(), ExtractError::MissingText);
}

#[test]
fn ingestion_rejects_a_document_without_entries() {
    let (k, s, _) = three_pages();
    let empty = topdatamat_page("");
    assert_eq!(collect_entries(&k, &s, &empty).unwrap_err(), ExtractError::NoEntries(Source::Topdatamat));
    let empty = sdu_page("");
    let (_, _, t) = three_pages();
    assert_eq!(collect_entries(&k, &empty, &t).unwrap_err(), ExtractError::NoEntries(Source::Sdu));
}

#[test]
fn extracted_entries_are_trimmed_and_labelled() {
    let (k, s, t) = three_pages();
    for e in collect_entries(&k, &s, &t).unwrap() {
        assert_eq!(e.english.trim(), e.english);
        assert_eq!(e.danish.trim(), e.danish);
        assert!(["klid.dk", "sdu.dk", "topdatamat.dk"].contains(&e.source.label()));
    }
}

#[test]
fn source_labels_round_trip() {
    for s in [Source::Klid, Source::Sdu, Source::Topdatamat] {
        assert_eq!(Source::from_label(s.label()), Some(s));
    }
    assert_eq!(Source::from_label("example.dk"), None);
}
