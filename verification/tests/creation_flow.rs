use std::collections::HashMap;

use pessoas::dto::ApiError;
use pessoas::dto::CriarPessoaDTO;
use pessoas::flow::CacheProbe;
use pessoas::flow::accept_creation;
use pessoas::flow::admit_request;
use pessoas::flow::new_uuid_string;
use pessoas::flush::flush_cycle;
use pessoas::jsonfmt::serialize_pessoa;
use pessoas::queue::IngestQueue;
use pessoas::readpath::render_stored;

fn zeus() -> CriarPessoaDTO {
    CriarPessoaDTO {
        apelido: "zeus".to_string(),
        nome: "Zeus".to_string(),
        nascimento: "1990-01-01".to_string(),
        stack: Some(vec!["go".to_string(), "rust".to_string()]),
    }
}

#[test]
fn generated_ids_are_hyphenated_uuids() {
    let a = new_uuid_string();
    let b = new_uuid_string();
    assert_eq!(a.chars().count(), 36);
    assert_eq!(a.chars().filter(|c| *c == '-').count(), 4);
    assert_ne!(a, b);
}

#[test]
fn marked_nickname_is_rejected_without_an_event() {
    let r = accept_creation(zeus(), CacheProbe::Marked, new_uuid_string());
    match r {
        Err(e) => assert_eq!(e, ApiError::DuplicateNickname),
        Ok(_) => panic!("a cache-marked nickname must be rejected"),
    }
}

#[test]
fn accepted_creation_round_trips_through_the_cache() {
    // The concrete creation scenario: POST the payload, then immediately
    // look the id up again; the cached record must match the input exactly,
    // stack order included.
    let payload = zeus();
    let key = admit_request(&payload).expect("valid payload");
    assert_eq!(key, "a/zeus");

    let mut cache: HashMap<String, String> = HashMap::new();
    let probe = if cache.contains_key(&key) { CacheProbe::Marked } else { CacheProbe::Unmarked };
    let id = new_uuid_string();
    let acc = accept_creation(payload, probe, id.clone()).expect("unmarked nickname");
    assert_eq!(acc.location, format!("/pessoas/{id}"));
    assert_eq!(acc.marker_key, "a/zeus");
    assert_eq!(acc.event.id, id);

    // The two synchronous cache writes land before the acknowledgment.
    cache.insert(id.clone(), acc.record_json.clone());
    cache.insert(acc.marker_key.clone(), acc.marker_value.clone());

    // Immediately-subsequent lookup by the returned id: the cache hit is
    // returned verbatim.
    let body = cache.get(&id).expect("read-after-write through the cache");
    let v: serde_json::Value = serde_json::from_str(body).expect("valid json");
    assert_eq!(v.get("id").and_then(|x| x.as_str()), Some(id.as_str()));
    assert_eq!(v.get("apelido").and_then(|x| x.as_str()), Some("zeus"));
    assert_eq!(v.get("nome").and_then(|x| x.as_str()), Some("Zeus"));
    assert_eq!(v.get("nascimento").and_then(|x| x.as_str()), Some("1990-01-01"));
    let stack = v.get("stack").and_then(|x| x.as_array()).expect("stack kept");
    let got: Vec<&str> = stack.iter().map(|x| x.as_str().unwrap()).collect();
    assert_eq!(got, vec!["go", "rust"]);

    // A second creation of the same nickname now sees the marker.
    let probe2 = if cache.contains_key("a/zeus") { CacheProbe::Marked } else { CacheProbe::Unmarked };
    assert_eq!(probe2, CacheProbe::Marked);
}

#[test]
fn racing_duplicates_both_acknowledged_one_durable() {
    // Two concurrent creations of nickname "dup": both probe the cache
    // before either marker write lands, so both are accepted and both
    // callers get 201 — the documented race. The next flush settles it:
    // exactly one row, the first arrival, reaches the durable store, while
    // the loser's record still sits in the cache (stale, by design).
    let mut payload_a = zeus();
    payload_a.apelido = "dup".to_string();
    let mut payload_b = zeus();
    payload_b.apelido = "dup".to_string();
    payload_b.nome = "Second".to_string();

    let mut cache: HashMap<String, String> = HashMap::new();
    let probe_a = if cache.contains_key("a/dup") { CacheProbe::Marked } else { CacheProbe::Unmarked };
    let probe_b = if cache.contains_key("a/dup") { CacheProbe::Marked } else { CacheProbe::Unmarked };

    let id_a = "11111111-1111-1111-1111-111111111111".to_string();
    let id_b = "22222222-2222-2222-2222-222222222222".to_string();
    let acc_a = accept_creation(payload_a, probe_a, id_a.clone()).expect("both pass the race");
    let acc_b = accept_creation(payload_b, probe_b, id_b.clone()).expect("both pass the race");

    let mut q = IngestQueue::new();
    cache.insert(id_a.clone(), acc_a.record_json.clone());
    cache.insert(acc_a.marker_key.clone(), acc_a.marker_value.clone());
    q.push(acc_a.event);
    cache.insert(id_b.clone(), acc_b.record_json.clone());
    cache.insert(acc_b.marker_key.clone(), acc_b.marker_value.clone());
    q.push(acc_b.event);

    let sql = flush_cycle(&mut q).expect("two events queued");
    // Exactly one durable row for the nickname: the first arrival.
    assert_eq!(sql.matches("INSERT INTO PESSOAS").count(), 1);
    assert!(sql.contains(&format!("'{id_a}'")));
    assert!(!sql.contains(&format!("'{id_b}'")));
    // The losing id: not durable, yet its cached record still answers —
    // the documented inconsistency.
    assert!(cache.contains_key(&id_b));
}

#[test]
fn accepted_stack_round_trips_through_the_durable_row() {
    // The durable path: an accepted event's encoded stack column, read
    // back as a row, decodes to exactly the input stack — spaces inside
    // elements and the absent/empty distinction included.
    for stack in [
        None,
        Some(vec![]),
        Some(vec!["go".to_string(), "ru st".to_string(), "a\\b".to_string()]),
        Some(vec!["".to_string()]),
    ] {
        let payload = CriarPessoaDTO {
            apelido: "zeus".to_string(),
            nome: "Zeus".to_string(),
            nascimento: "1990-01-01".to_string(),
            stack: stack.clone(),
        };
        let acc = accept_creation(payload, CacheProbe::Unmarked, new_uuid_string())
            .expect("unmarked nickname");
        let row = pessoas::dto::StoredRow {
            id: acc.event.id.clone(),
            apelido: acc.event.payload.apelido.clone(),
            nome: acc.event.payload.nome.clone(),
            nascimento: acc.event.payload.nascimento.clone(),
            stack: acc.event.stack_joined.clone(),
        };
        let record = pessoas::dto::PessoaDTO::from(&row);
        assert_eq!(record.stack, stack);
    }
}

#[test]
fn lookup_of_a_missing_row_is_not_found() {
    assert_eq!(render_stored(&None), Err(ApiError::NotFound));
}

#[test]
fn lookup_of_a_durable_row_serializes_it() {
    let row = pessoas::dto::StoredRow {
        id: "i1".to_string(),
        apelido: "zeus".to_string(),
        nome: "Zeus".to_string(),
        nascimento: "1990-01-01".to_string(),
        stack: Some("go rust ".to_string()),
    };
    let body = render_stored(&Some(row)).expect("row present");
    let expected = serialize_pessoa(&pessoas::dto::PessoaDTO {
        id: "i1".to_string(),
        apelido: "zeus".to_string(),
        nome: "Zeus".to_string(),
        nascimento: "1990-01-01".to_string(),
        stack: Some(vec!["go".to_string(), "rust".to_string()]),
    });
    assert_eq!(body, expected);
}
