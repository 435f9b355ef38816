use graph_ingest::json::Json;

fn text(s: &str) -> Json {
    Json::Text(s.to_string())
}

fn number(s: &str) -> Json {
    Json::Number(s.to_string())
}

#[test]
fn a_document_is_read_node_for_node() {
    let doc = Json::parse(r#" {"b": [1, -2, 0.9, "x", null, true, {}], "a": {"k": "v"}} "#).unwrap();
    assert_eq!(
        doc,
        Json::Object(vec![
            ("a".to_string(), Json::Object(vec![("k".to_string(), text("v"))])),
            (
                "b".to_string(),
                Json::Array(vec![
                    number("1"),
                    number("-2"),
                    number("0.9"),
                    text("x"),
                    Json::Null,
                    Json::Bool(true),
                    Json::Object(vec![]),
                ]),
            ),
        ])
    );
}

#[test]
fn scalars_are_documents_too() {
    assert_eq!(Json::parse("null"), Some(Json::Null));
    assert_eq!(Json::parse("false"), Some(Json::Bool(false)));
    assert_eq!(Json::parse("12"), Some(number("12")));
    assert_eq!(Json::parse("1e2"), Some(number("100.0")));
    assert_eq!(Json::parse(r#""a\nbé""#), Some(text("a\nb\u{e9}")));
    assert_eq!(Json::parse("[]"), Some(Json::Array(vec![])));
}

#[test]
fn what_is_not_json_is_not_read() {
    assert_eq!(Json::parse(""), None);
    assert_eq!(Json::parse("{"), None);
    assert_eq!(Json::parse(r#"{"a": 1,}"#), None);
    assert_eq!(Json::parse("[1] x"), None);
    assert_eq!(Json::parse("{'a': 1}"), None);
    assert_eq!(Json::parse("NaN"), None);
}

#[test]
fn a_repeated_key_keeps_its_last_value() {
    let doc = Json::parse(r#"{"k": 1, "k": 2}"#).unwrap();
    assert_eq!(doc, Json::Object(vec![("k".to_string(), number("2"))]));
    assert_eq!(doc.member("k"), Some(&number("2")));
}

#[test]
fn members_are_found_by_their_exact_key() {
    let doc = Json::parse(r#"{"id": "A", "Id": "B", "n": 3}"#).unwrap();
    assert_eq!(doc.member("id"), Some(&text("A")));
    assert_eq!(doc.member("Id"), Some(&text("B")));
    assert_eq!(doc.member("ID"), None);
    assert_eq!(doc.member(""), None);
    assert_eq!(Json::Array(vec![]).member("id"), None);
    assert_eq!(text("id").member("id"), None);
}

#[test]
fn the_first_of_two_members_with_one_key_is_found() {
    let doc = Json::Object(vec![("k".to_string(), number("1")), ("k".to_string(), number("2"))]);
    assert_eq!(doc.member("k"), Some(&number("1")));
}

#[test]
fn values_are_read_by_their_kind() {
    assert_eq!(text("x").text(), Some(&"x".to_string()));
    assert_eq!(number("1").text(), None);
    assert_eq!(Json::Null.text(), None);
    assert_eq!(number("0.5").number(), Some(&"0.5".to_string()));
    assert_eq!(text("0.5").number(), None);
    assert_eq!(Json::Array(vec![Json::Null]).items(), Some(&vec![Json::Null]));
    assert_eq!(Json::Object(vec![]).items(), None);
    assert_eq!(text("[]").items(), None);
}
