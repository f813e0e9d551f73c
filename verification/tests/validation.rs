use pessoas::dto::ApiError;
use pessoas::dto::CriarPessoaDTO;
use pessoas::validate::is_valid_date;
use pessoas::validate::validate_payload;

fn payload(apelido: &str, nome: &str, nascimento: &str, stack: Option<Vec<&str>>) -> CriarPessoaDTO {
    CriarPessoaDTO {
        apelido: apelido.to_string(),
        nome: nome.to_string(),
        nascimento: nascimento.to_string(),
        stack: stack.map(|v| v.into_iter().map(|s| s.to_string()).collect()),
    }
}

#[test]
fn valid_payload_passes() {
    let p = payload("zeus", "Zeus", "1990-01-01", Some(vec!["go", "rust"]));
    assert!(validate_payload(&p));
}

#[test]
fn absent_stack_is_valid() {
    let p = payload("zeus", "Zeus", "1990-01-01", None);
    assert!(validate_payload(&p));
}

#[test]
fn empty_stack_is_valid() {
    let p = payload("zeus", "Zeus", "1990-01-01", Some(vec![]));
    assert!(validate_payload(&p));
}

#[test]
fn long_name_rejected() {
    let name: String = std::iter::repeat('x').take(101).collect();
    let p = payload("zeus", &name, "1990-01-01", None);
    assert!(!validate_payload(&p));
}

#[test]
fn name_of_exactly_100_accepted() {
    let name: String = std::iter::repeat('x').take(100).collect();
    let p = payload("zeus", &name, "1990-01-01", None);
    assert!(validate_payload(&p));
}

#[test]
fn empty_name_rejected() {
    let p = payload("zeus", "", "1990-01-01", None);
    assert!(!validate_payload(&p));
}

#[test]
fn long_nickname_rejected() {
    let nick: String = std::iter::repeat('a').take(33).collect();
    let p = payload(&nick, "Zeus", "1990-01-01", None);
    assert!(!validate_payload(&p));
}

#[test]
fn nickname_of_exactly_32_accepted() {
    let nick: String = std::iter::repeat('a').take(32).collect();
    let p = payload(&nick, "Zeus", "1990-01-01", None);
    assert!(validate_payload(&p));
}

#[test]
fn long_stack_element_rejected() {
    let tag: String = std::iter::repeat('t').take(33).collect();
    let p = payload("zeus", "Zeus", "1990-01-01", Some(vec!["go", &tag]));
    assert!(!validate_payload(&p));
}

#[test]
fn unparsable_birth_date_rejected() {
    for bad in [
        "not-a-date",
        "1990-13-01",
        "1990-00-01",
        "1990-01-00",
        "1990-01-32",
        "1990-02-30",
        "1900-02-29",
        "2001-02-29",
        "1990-1-1",
        "90-01-01",
        "1990/01/01",
        "1990-01-011",
        "",
    ] {
        let p = payload("zeus", "Zeus", bad, None);
        assert!(!validate_payload(&p), "{bad} should be rejected");
    }
}

#[test]
fn calendar_dates_accepted() {
    for good in ["2000-02-29", "1999-12-31", "1990-01-01", "0001-01-01", "2400-02-29"] {
        assert!(is_valid_date(good), "{good} should parse");
    }
    assert!(!is_valid_date("2100-02-29"));
    assert!(is_valid_date("2100-02-28"));
    assert!(!is_valid_date("1990-04-31"));
    assert!(is_valid_date("1990-04-30"));
}

#[test]
fn admit_request_rejects_invalid_with_client_error() {
    let nick: String = std::iter::repeat('a').take(33).collect();
    let p = payload(&nick, "Zeus", "1990-01-01", None);
    let r = pessoas::flow::admit_request(&p);
    assert_eq!(r, Err(ApiError::InvalidPayload));
}

#[test]
fn admit_request_hands_back_marker_key() {
    let p = payload("zeus", "Zeus", "1990-01-01", None);
    let r = pessoas::flow::admit_request(&p);
    assert_eq!(r, Ok("a/zeus".to_string()));
}
