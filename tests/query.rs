use ordbog::entry::{Entry, Source};
use ordbog::query::{plan_request, take_ranked, Plan, MAX_BODY_BYTES, RESULT_LIMIT};

#[test]
fn empty_query_matches_nothing() {
    let p = plan_request(b"");
    assert!(matches!(p, Plan::NoMatch));
    assert_eq!(p.status(), 200);
    assert!(matches!(plan_request(b"  \n\t "), Plan::NoMatch));
}

#[test]
fn queries_below_trigram_width_match_nothing() {
    assert!(matches!(plan_request(b"a"), Plan::NoMatch));
    assert!(matches!(plan_request(b" ab "), Plan::NoMatch));
    assert!(matches!(plan_request("æø".as_bytes()), Plan::NoMatch));
}

#[test]
fn query_is_trimmed() {
    match plan_request(b"  buffer \n") {
        Plan::Search(q) => assert_eq!(q, "buffer"),
        other => panic!("unexpected plan {:?}", other),
    }
    match plan_request(b"\"\"\"") {
        Plan::Search(q) => assert_eq!(q, "\"\"\""),
        other => panic!("unexpected plan {:?}", other),
    }
}

#[test]
fn body_size_limit_is_inclusive() {
    assert_eq!(MAX_BODY_BYTES, 32 * 1024);
    let at = vec![b'a'; 32 * 1024];
    assert!(matches!(plan_request(&at), Plan::Search(_)));
    let over = vec![b'a'; 32 * 1024 + 1];
    let p = plan_request(&over);
    assert!(matches!(p, Plan::TooLarge));
    assert_eq!(p.status(), 413);
}

#[test]
fn forty_kib_body_is_rejected() {
    let body = vec![b'x'; 40 * 1024];
    assert_eq!(plan_request(&body).status(), 413);
    assert!(matches!(plan_request(b"buffer"), Plan::Search(_)));
}

#[test]
fn body_that_is_not_utf8_is_an_error() {
    let p = plan_request(&[0x62, 0xff, 0x62, 0x62]);
    assert!(matches!(p, Plan::NotText));
    assert_eq!(p.status(), 500);
}

#[test]
fn ranked_rows_are_capped_in_order() {
    let rows: Vec<Entry> = (0..25)
        .map(|i| Entry { english: format!("t{}", i), danish: "d".to_string(), source: Source::Sdu })
        .collect();
    let top = take_ranked(rows);
    assert_eq!(top.len(), RESULT_LIMIT);
    assert_eq!(RESULT_LIMIT, 20);
    for (i, e) in top.iter().enumerate() {
        assert_eq!(e.english, format!("t{}", i));
    }
    let few: Vec<Entry> = vec![Entry { english: "a".to_string(), danish: "b".to_string(), source: Source::Klid }];
    assert_eq!(take_ranked(few).len(), 1);
}
