use ordbog::entry::Entry;
use ordbog::ingest::collect_entries;
use ordbog::klid::get_entries_from_klid;
use ordbog::query::{plan_request, take_ranked, Plan};
use ordbog::schema::{
    get_data_query, get_database_name, get_insert_query, get_optimize_query, get_schema_begreber,
    get_schema_index, get_search_query,
};
use ordbog::sdu::get_entries_from_sdu;
use ordbog::topdatamat::get_entries_from_topdatamat;
use rusqlite::Connection;

type Row = (String, String, String);

fn build_store(entries: &[Entry]) -> Connection {
    let conn = Connection::open_in_memory().unwrap();
    conn.execute(get_schema_begreber(), ()).unwrap();
    conn.execute("BEGIN TRANSACTION;", ()).unwrap();
    {
        let mut insert = conn.prepare(get_insert_query()).unwrap();
        for e in entries {
            insert.execute((e.english.as_str(), e.danish.as_str(), e.source.label())).unwrap();
        }
    }
    conn.execute("COMMIT;", ()).unwrap();
    conn.execute(get_schema_index(), ()).unwrap();
    conn.execute(get_data_query(), ()).unwrap();
    conn.execute(get_optimize_query(), ()).unwrap();
    conn
}

fn search(conn: &Connection, body: &str) -> Result<Vec<Row>, rusqlite::Error> {
    let q = match plan_request(body.as_bytes()) {
        Plan::Search(q) => q,
        _ => return Ok(vec![]),
    };
    let mut stmt = conn.prepare(get_search_query())?;
    let rows = stmt.query_map([q.as_str()], |r| Ok((r.get(0)?, r.get(1)?, r.get(2)?)))?;
    rows.collect()
}

fn stored(conn: &Connection) -> Vec<Row> {
    let mut stmt = conn.prepare("SELECT EngelskUdgave, DanskUdgave, Kilde FROM Begreber ORDER BY Id").unwrap();
    let rows = stmt.query_map([], |r| Ok((r.get(0)?, r.get(1)?, r.get(2)?))).unwrap();
    rows.map(|r| r.unwrap()).collect()
}

fn row(e: &str, d: &str, s: &str) -> Row {
    (e.to_string(), d.to_string(), s.to_string())
}

#[test]
fn store_klid_buffer_scenario() {
    let html = "<html><body><pre><b>A</b>\nbuffer                          bufferet lager\n</pre></body></html>";
    let conn = build_store(&get_entries_from_klid(html).unwrap());
    assert_eq!(stored(&conn), vec![row("buffer", "bufferet lager", "klid.dk")]);
    assert_eq!(search(&conn, "buffer").unwrap(), vec![row("buffer", "bufferet lager", "klid.dk")]);
}

#[test]
fn store_sdu_cache_scenario() {
    let html = "<html><body><table><tbody><tr><td><em>cache</em>: hurtiglager</td></tr></tbody></table></body></html>";
    let conn = build_store(&get_entries_from_sdu(html).unwrap());
    assert_eq!(stored(&conn), vec![row("cache", "hurtiglager", "sdu.dk")]);
    assert_eq!(search(&conn, "cache").unwrap(), vec![row("cache", "hurtiglager", "sdu.dk")]);
}

#[test]
fn store_topdatamat_file_scenario() {
    let html = "<html><body><dl class=\"dictionary\"><dt>fil</dt><dd>file</dd></dl></body></html>";
    let conn = build_store(&get_entries_from_topdatamat(html).unwrap());
    assert_eq!(stored(&conn), vec![row("file", "fil", "topdatamat.dk")]);
    assert_eq!(search(&conn, "fil").unwrap(), vec![row("file", "fil", "topdatamat.dk")]);
    assert_eq!(search(&conn, "file").unwrap(), vec![row("file", "fil", "topdatamat.dk")]);
}

fn all_three() -> Connection {
    let k = "<html><body><pre><b>A</b>\narray                           tabel\n</pre></body></html>";
    let s = "<html><body><table><tbody><tr><td><em>array</em>: række</td></tr></tbody></table></body></html>";
    let t = "<html><body><dl class=\"dictionary\"><dt>matrix</dt><dd>array</dd></dl></body></html>";
    build_store(&collect_entries(k, s, t).unwrap())
}

#[test]
fn store_array_from_every_source() {
    let conn = all_three();
    let rows = search(&conn, "array").unwrap();
    assert_eq!(rows.len(), 3);
    let mut sources: Vec<&str> = rows.iter().map(|r| r.2.as_str()).collect();
    sources.sort();
    assert_eq!(sources, vec!["klid.dk", "sdu.dk", "topdatamat.dk"]);
    assert_eq!(search(&conn, "array").unwrap(), rows);
}

#[test]
fn store_malformed_match_does_not_poison() {
    let conn = all_three();
    assert!(search(&conn, "\"\"\"").is_err());
    assert_eq!(search(&conn, "array").unwrap().len(), 3);
}

#[test]
fn store_short_and_empty_queries_give_nothing() {
    let conn = all_three();
    assert!(search(&conn, "").unwrap().is_empty());
    assert!(search(&conn, "ar").unwrap().is_empty());
}

#[test]
fn store_index_rowid_is_entry_id() {
    let conn = all_three();
    let mut stmt = conn.prepare("SELECT fts.rowid, Begreber.Id FROM fts JOIN Begreber ON fts.rowid = Begreber.Id").unwrap();
    let pairs: Vec<(i64, i64)> = stmt.query_map([], |r| Ok((r.get(0)?, r.get(1)?))).unwrap().map(|r| r.unwrap()).collect();
    assert_eq!(pairs, vec![(1, 1), (2, 2), (3, 3)]);
}

#[test]
fn store_results_are_at_most_twenty() {
    let entries: Vec<Entry> = (0..30)
        .map(|i| Entry { english: format!("buffer{}", i), danish: "lager".to_string(), source: ordbog::entry::Source::Klid })
        .collect();
    let conn = build_store(&entries);
    let rows = search(&conn, "buffer").unwrap();
    assert_eq!(rows.len(), 20);
    assert_eq!(take_ranked(entries).len(), 20);
}

#[test]
fn database_file_name() {
    assert_eq!(get_database_name(), "db.db");
    assert!(get_schema_index().contains("content_rowid=Id"));
    assert!(get_schema_index().contains("tokenize='trigram'"));
}
