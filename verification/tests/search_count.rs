use pessoas::dto::PessoaDTO;
use pessoas::numfmt::count_body;
use pessoas::search::record_matches;
use pessoas::search::search_pattern;
use pessoas::search::search_records;

fn record(id: &str, apelido: &str, nome: &str, stack: Option<Vec<&str>>) -> PessoaDTO {
    PessoaDTO {
        id: id.to_string(),
        apelido: apelido.to_string(),
        nome: nome.to_string(),
        nascimento: "1990-01-01".to_string(),
        stack: stack.map(|v| v.into_iter().map(|s| s.to_string()).collect()),
    }
}

#[test]
fn token_in_stack_only_still_matches() {
    let p = record("i1", "zeus", "Zeus", Some(vec!["go", "rust"]));
    assert!(record_matches(&p, "rus"));
    assert!(!record_matches(&p, "python"));
}

#[test]
fn matching_is_case_insensitive() {
    let p = record("i1", "zeus", "Zeus", Some(vec!["Go", "RuSt"]));
    assert!(record_matches(&p, "RUST"));
    assert!(record_matches(&p, "ZEUS"));
    assert!(record_matches(&p, "zEu"));
}

#[test]
fn nickname_and_name_match_too() {
    let p = record("i1", "thunder", "Zeus Olympian", None);
    assert!(record_matches(&p, "under"));
    assert!(record_matches(&p, "olymp"));
    assert!(!record_matches(&p, "hera"));
}

#[test]
fn search_returns_matching_records_in_row_order() {
    let rows = vec![
        record("i1", "zeus", "Zeus", Some(vec!["go"])),
        record("i2", "hera", "Hera", Some(vec!["rust"])),
        record("i3", "ares", "Ares", Some(vec!["go", "rust"])),
    ];
    let hits = search_records(&rows, "rust");
    let ids: Vec<&str> = hits.iter().map(|p| p.id.as_str()).collect();
    assert_eq!(ids, vec!["i2", "i3"]);
}

#[test]
fn never_more_than_fifty_results() {
    let mut rows = Vec::new();
    for i in 0..60 {
        rows.push(record(&format!("id{i}"), &format!("nick{i}"), "Common", None));
    }
    let hits = search_records(&rows, "common");
    assert_eq!(hits.len(), 50);
    assert_eq!(hits[0].id, "id0");
    assert_eq!(hits[49].id, "id49");
}

#[test]
fn case_variant_tokens_select_the_same_records() {
    let rows = vec![
        record("i1", "zeus", "Zeus", Some(vec!["Go"])),
        record("i2", "hera", "Hera", Some(vec!["RuSt"])),
        record("i3", "ares", "Ares", None),
    ];
    for (t1, t2) in [("rust", "RUST"), ("RuSt", "ruST"), ("go", "GO")] {
        let ids1: Vec<String> = search_records(&rows, t1).into_iter().map(|p| p.id).collect();
        let ids2: Vec<String> = search_records(&rows, t2).into_iter().map(|p| p.id).collect();
        assert_eq!(ids1, ids2, "{t1} vs {t2}");
        for p in &rows {
            assert_eq!(record_matches(p, t1), record_matches(p, t2), "{t1} vs {t2}");
        }
    }
}

#[test]
fn store_pattern_wraps_the_lowered_token() {
    assert_eq!(search_pattern("AbC"), "%abc%");
    assert_eq!(search_pattern(""), "%%");
}

#[test]
fn count_body_renders_the_plain_integer() {
    assert_eq!(count_body(0), "0");
    assert_eq!(count_body(7), "7");
    assert_eq!(count_body(12345), "12345");
    assert_eq!(count_body(u64::MAX), "18446744073709551615");
}
