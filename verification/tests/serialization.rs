use pessoas::dto::PessoaDTO;
use pessoas::jsonfmt::serialize_pessoa;

fn record(id: &str, apelido: &str, nome: &str, nascimento: &str, stack: Option<Vec<&str>>) -> PessoaDTO {
    PessoaDTO {
        id: id.to_string(),
        apelido: apelido.to_string(),
        nome: nome.to_string(),
        nascimento: nascimento.to_string(),
        stack: stack.map(|v| v.into_iter().map(|s| s.to_string()).collect()),
    }
}

#[test]
fn plain_record_serializes_field_for_field() {
    let p = record("i1", "zeus", "Zeus", "1990-01-01", Some(vec!["go", "rust"]));
    assert_eq!(
        serialize_pessoa(&p),
        "{\"id\":\"i1\",\"apelido\":\"zeus\",\"nome\":\"Zeus\",\"nascimento\":\"1990-01-01\",\"stack\":[\"go\",\"rust\"]}"
    );
}

#[test]
fn absent_stack_serializes_as_null() {
    let p = record("i1", "zeus", "Zeus", "1990-01-01", None);
    assert_eq!(
        serialize_pessoa(&p),
        "{\"id\":\"i1\",\"apelido\":\"zeus\",\"nome\":\"Zeus\",\"nascimento\":\"1990-01-01\",\"stack\":null}"
    );
}

#[test]
fn empty_stack_is_distinct_from_absent() {
    let p = record("i1", "zeus", "Zeus", "1990-01-01", Some(vec![]));
    assert_eq!(
        serialize_pessoa(&p),
        "{\"id\":\"i1\",\"apelido\":\"zeus\",\"nome\":\"Zeus\",\"nascimento\":\"1990-01-01\",\"stack\":[]}"
    );
}

#[test]
fn escaping_matches_the_reference_json_library() {
    let tricky = "a\"b\\c\nd\te\rf\u{8}g\u{c}h\u{1f}i\u{0}j";
    let expected_literal = serde_json::Value::String(tricky.to_string()).to_string();
    let p = record("i1", "zeus", tricky, "1990-01-01", None);
    let body = serialize_pessoa(&p);
    assert!(
        body.contains(&expected_literal),
        "expected {expected_literal} inside {body}"
    );
}

#[test]
fn output_parses_back_to_the_same_fields() {
    let p = record(
        "id-42",
        "n\"ick",
        "Nome com \\ barra\ne quebra",
        "2000-02-29",
        Some(vec!["c++", "ru st", "emoji\u{e9}"]),
    );
    let body = serialize_pessoa(&p);
    let v: serde_json::Value = serde_json::from_str(&body).expect("valid json");
    assert_eq!(v.get("id").and_then(|x| x.as_str()), Some("id-42"));
    assert_eq!(v.get("apelido").and_then(|x| x.as_str()), Some("n\"ick"));
    assert_eq!(
        v.get("nome").and_then(|x| x.as_str()),
        Some("Nome com \\ barra\ne quebra")
    );
    assert_eq!(v.get("nascimento").and_then(|x| x.as_str()), Some("2000-02-29"));
    let stack = v.get("stack").and_then(|x| x.as_array()).expect("array");
    let got: Vec<&str> = stack.iter().map(|x| x.as_str().unwrap()).collect();
    assert_eq!(got, vec!["c++", "ru st", "emoji\u{e9}"]);
}

#[test]
fn list_of_records_serializes_as_the_json_array() {
    let a = record("i1", "zeus", "Zeus", "1990-01-01", Some(vec!["go"]));
    let b = record("i2", "hera", "Hera", "1991-02-02", None);
    let expected = format!(
        "[{},{}]",
        pessoas::jsonfmt::serialize_pessoa(&a),
        pessoas::jsonfmt::serialize_pessoa(&b)
    );
    assert_eq!(pessoas::jsonfmt::serialize_pessoas(&vec![a, b]), expected);
    assert_eq!(pessoas::jsonfmt::serialize_pessoas(&Vec::new()), "[]");
}

#[test]
fn non_ascii_passes_through_unescaped() {
    let p = record("i1", "jo\u{e3}o", "Jo\u{e3}o", "1990-01-01", None);
    let body = serialize_pessoa(&p);
    assert!(body.contains("jo\u{e3}o"));
    let v: serde_json::Value = serde_json::from_str(&body).expect("valid json");
    assert_eq!(v.get("apelido").and_then(|x| x.as_str()), Some("jo\u{e3}o"));
}
