use pessoas::dto::PessoaDTO;
use pessoas::dto::StoredRow;
use pessoas::stackcodec::decode_stack;
use pessoas::stackcodec::encode_stack;

fn stack(v: Vec<&str>) -> Vec<String> {
    v.into_iter().map(|s| s.to_string()).collect()
}

#[test]
fn plain_elements_encode_with_trailing_delimiters() {
    assert_eq!(encode_stack(&stack(vec!["go", "rust"])), "go rust ");
    assert_eq!(encode_stack(&stack(vec!["solo"])), "solo ");
    assert_eq!(encode_stack(&Vec::new()), "");
    assert_eq!(encode_stack(&stack(vec![""])), " ");
}

#[test]
fn delimiter_and_escape_inside_elements_are_escaped() {
    assert_eq!(encode_stack(&stack(vec!["ru st"])), "ru\\sst ");
    assert_eq!(encode_stack(&stack(vec!["a\\b"])), "a\\\\b ");
    assert_eq!(encode_stack(&stack(vec![" ", "\\"])), "\\s \\\\ ");
}

#[test]
fn decode_inverts_encode_for_every_stack() {
    for v in [
        vec![],
        vec![""],
        vec!["go", "rust"],
        vec!["ru st", "a\\b"],
        vec!["", "", " "],
        vec!["\\s", " \\ "],
    ] {
        let v = stack(v);
        let column = encode_stack(&v);
        assert_eq!(decode_stack(&column), Some(v.clone()), "column {column:?}");
    }
}

#[test]
fn distinct_stacks_encode_distinctly() {
    assert_ne!(encode_stack(&Vec::new()), encode_stack(&stack(vec![""])));
    assert_ne!(
        encode_stack(&stack(vec!["a b"])),
        encode_stack(&stack(vec!["a", "b"]))
    );
}

#[test]
fn malformed_columns_decode_to_none() {
    assert_eq!(decode_stack("abc"), None);
    assert_eq!(decode_stack("a\\"), None);
    assert_eq!(decode_stack("a\\x "), None);
    assert_eq!(decode_stack("go rust"), None);
}

#[test]
fn row_with_stack_column_becomes_record_with_decoded_stack() {
    let row = StoredRow {
        id: "i1".to_string(),
        apelido: "zeus".to_string(),
        nome: "Zeus".to_string(),
        nascimento: "1990-01-01".to_string(),
        stack: Some("go rust ".to_string()),
    };
    let p = PessoaDTO::from(&row);
    assert_eq!(p.id, "i1");
    assert_eq!(p.apelido, "zeus");
    assert_eq!(p.nome, "Zeus");
    assert_eq!(p.nascimento, "1990-01-01");
    assert_eq!(p.stack, Some(stack(vec!["go", "rust"])));
}

#[test]
fn row_with_null_stack_column_keeps_the_stack_absent() {
    let row = StoredRow {
        id: "i1".to_string(),
        apelido: "zeus".to_string(),
        nome: "Zeus".to_string(),
        nascimento: "1990-01-01".to_string(),
        stack: None,
    };
    let p = PessoaDTO::from(&row);
    assert_eq!(p.stack, None);
}

#[test]
fn empty_column_is_the_empty_stack_not_an_absent_one() {
    let row = StoredRow {
        id: "i1".to_string(),
        apelido: "zeus".to_string(),
        nome: "Zeus".to_string(),
        nascimento: "1990-01-01".to_string(),
        stack: Some("".to_string()),
    };
    let p = PessoaDTO::from(&row);
    assert_eq!(p.stack, Some(Vec::new()));
}
