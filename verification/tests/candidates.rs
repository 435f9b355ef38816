use graph_ingest::candidates::{
    read_list, Candidates, Category, CausalPair, DecodeError, HierarchicalPair, KeywordPair, Record,
    SimilarPair,
};
use graph_ingest::json::Json;

const FULL: &str = r#"{
    "similar_pairs": [
        {"start_id": "A", "end_id": "B", "similarity": 0.9},
        {"start_id": "12", "end_id": "A", "similarity": 1, "extra": [1, 2]}
    ],
    "keyword_pairs": [
        {"start_id": "A", "end_id": "B", "keywords": ["graph", "edge"]},
        {"start_id": "B", "end_id": "A", "keywords": []}
    ],
    "causal_pairs": [
        {"id": "B", "phrase": "caused by", "context": "intro"},
        {"id": "A", "context": "conclusion", "phrase": "leads to"}
    ],
    "hierarchical_pairs": [
        {"id": "B", "heading": "intro"}
    ],
    "something_else": 1
}"#;

fn s(text: &str) -> String {
    text.to_string()
}

fn with_list(key: &str, list: &str) -> String {
    let mut doc = String::from("{");
    for k in ["similar_pairs", "keyword_pairs", "causal_pairs", "hierarchical_pairs"] {
        if doc.len() > 1 {
            doc.push(',');
        }
        if k == key {
            doc.push_str(&format!("\"{}\": {}", k, list));
        } else {
            doc.push_str(&format!("\"{}\": []", k));
        }
    }
    doc.push('}');
    doc
}

#[test]
fn the_four_lists_are_decoded_in_document_order() {
    let c = Candidates::from_text(FULL).unwrap();
    assert_eq!(
        c,
        Candidates {
            similar_pairs: vec![
                SimilarPair { start_id: s("A"), end_id: s("B"), similarity: s("0.9") },
                SimilarPair { start_id: s("12"), end_id: s("A"), similarity: s("1") },
            ],
            keyword_pairs: vec![
                KeywordPair { start_id: s("A"), end_id: s("B"), keywords: vec![s("graph"), s("edge")] },
                KeywordPair { start_id: s("B"), end_id: s("A"), keywords: vec![] },
            ],
            causal_pairs: vec![
                CausalPair { id: s("B"), context: s("intro"), phrase: s("caused by") },
                CausalPair { id: s("A"), context: s("conclusion"), phrase: s("leads to") },
            ],
            hierarchical_pairs: vec![HierarchicalPair { id: s("B"), heading: s("intro") }],
        }
    );
}

#[test]
fn empty_lists_decode_to_no_candidates() {
    let c = Candidates::from_text(&with_list("none", "[]")).unwrap();
    assert_eq!(
        c,
        Candidates {
            similar_pairs: vec![],
            keyword_pairs: vec![],
            causal_pairs: vec![],
            hierarchical_pairs: vec![],
        }
    );
}

#[test]
fn text_that_is_not_json_is_a_syntax_error() {
    assert_eq!(Candidates::from_text("similar_pairs: []"), Err(DecodeError::Syntax));
    assert_eq!(Candidates::from_text(""), Err(DecodeError::Syntax));
}

#[test]
fn a_document_that_is_no_object_has_no_lists() {
    assert_eq!(Candidates::from_text("[]"), Err(DecodeError::MissingList(Category::Similar)));
    assert_eq!(Candidates::from_text("null"), Err(DecodeError::MissingList(Category::Similar)));
    assert_eq!(Candidates::from_text("{}"), Err(DecodeError::MissingList(Category::Similar)));
}

#[test]
fn each_list_has_to_be_there() {
    assert_eq!(
        Candidates::from_text(r#"{"similar_pairs": []}"#),
        Err(DecodeError::MissingList(Category::Keyword))
    );
    assert_eq!(
        Candidates::from_text(r#"{"similar_pairs": [], "keyword_pairs": []}"#),
        Err(DecodeError::MissingList(Category::Causal))
    );
    assert_eq!(
        Candidates::from_text(r#"{"similar_pairs": [], "keyword_pairs": [], "causal_pairs": []}"#),
        Err(DecodeError::MissingList(Category::Hierarchical))
    );
}

#[test]
fn a_list_has_to_be_an_array() {
    assert_eq!(
        Candidates::from_text(&with_list("keyword_pairs", "{}")),
        Err(DecodeError::MissingList(Category::Keyword))
    );
    assert_eq!(
        Candidates::from_text(&with_list("causal_pairs", "null")),
        Err(DecodeError::MissingList(Category::Causal))
    );
    assert_eq!(
        Candidates::from_text(&with_list("hierarchical_pairs", "\"[]\"")),
        Err(DecodeError::MissingList(Category::Hierarchical))
    );
}

#[test]
fn the_first_bad_record_of_the_first_bad_list_is_reported() {
    let doc = r#"{
        "similar_pairs": [{"start_id": "A", "end_id": "B", "similarity": 0.5}],
        "keyword_pairs": [
            {"start_id": "A", "end_id": "B", "keywords": []},
            {"start_id": "A", "keywords": []},
            {"end_id": "B", "keywords": []}
        ],
        "causal_pairs": [{"id": 1}],
        "hierarchical_pairs": 7
    }"#;
    assert_eq!(Candidates::from_text(doc), Err(DecodeError::BadRecord(Category::Keyword, 1)));
}

#[test]
fn a_similarity_record_needs_two_strings_and_a_number() {
    let bad = [
        r#"[{"end_id": "B", "similarity": 0.9}]"#,
        r#"[{"start_id": "A", "similarity": 0.9}]"#,
        r#"[{"start_id": "A", "end_id": "B"}]"#,
        r#"[{"start_id": 1, "end_id": "B", "similarity": 0.9}]"#,
        r#"[{"start_id": "A", "end_id": null, "similarity": 0.9}]"#,
        r#"[{"start_id": "A", "end_id": "B", "similarity": "0.9"}]"#,
        r#"[{"start_id": "A", "end_id": "B", "similarity": null}]"#,
        r#"[["A", "B", 0.9]]"#,
        r#"["A"]"#,
        r#"[null]"#,
    ];
    for list in bad {
        assert_eq!(
            Candidates::from_text(&with_list("similar_pairs", list)),
            Err(DecodeError::BadRecord(Category::Similar, 0)),
            "{}",
            list
        );
    }
}

#[test]
fn a_keyword_record_needs_a_list_of_strings() {
    let bad = [
        r#"[{"start_id": "A", "end_id": "B"}]"#,
        r#"[{"start_id": "A", "end_id": "B", "keywords": "graph"}]"#,
        r#"[{"start_id": "A", "end_id": "B", "keywords": ["graph", 1]}]"#,
        r#"[{"start_id": "A", "end_id": "B", "keywords": [null]}]"#,
        r#"[{"start_id": "A", "end_id": "B", "keywords": {}}]"#,
    ];
    for list in bad {
        assert_eq!(
            Candidates::from_text(&with_list("keyword_pairs", list)),
            Err(DecodeError::BadRecord(Category::Keyword, 0)),
            "{}",
            list
        );
    }
}

#[test]
fn a_causal_record_needs_its_three_strings() {
    let bad = [
        r#"[{"id": "A", "phrase": "caused by"}]"#,
        r#"[{"id": "A", "context": "intro"}]"#,
        r#"[{"phrase": "caused by", "context": "intro"}]"#,
        r#"[{"id": "A", "phrase": ["caused by"], "context": "intro"}]"#,
        r#"[{"id": 5, "phrase": "caused by", "context": "intro"}]"#,
    ];
    for list in bad {
        assert_eq!(
            Candidates::from_text(&with_list("causal_pairs", list)),
            Err(DecodeError::BadRecord(Category::Causal, 0)),
            "{}",
            list
        );
    }
}

#[test]
fn a_hierarchical_record_needs_its_two_strings() {
    let list = r#"[{"id": "A", "heading": "h"}, {"id": "B", "heading": "h"}, {"id": "C"}]"#;
    assert_eq!(
        Candidates::from_text(&with_list("hierarchical_pairs", list)),
        Err(DecodeError::BadRecord(Category::Hierarchical, 2))
    );
    let list = r#"[{"heading": "h"}]"#;
    assert_eq!(
        Candidates::from_text(&with_list("hierarchical_pairs", list)),
        Err(DecodeError::BadRecord(Category::Hierarchical, 0))
    );
}

#[test]
fn a_document_built_by_hand_decodes_like_its_text() {
    let text = |t: &str| Json::Text(t.to_string());
    let build = || Json::Object(vec![(s("id"), text("B")), (s("heading"), text("intro"))]);
    let record = build();
    let doc = Json::Object(vec![
        (s("hierarchical_pairs"), Json::Array(vec![build()])),
        (s("causal_pairs"), Json::Array(vec![])),
        (s("keyword_pairs"), Json::Array(vec![])),
        (s("similar_pairs"), Json::Array(vec![])),
    ]);
    let c = Candidates::from_json(&doc).unwrap();
    assert_eq!(c.hierarchical_pairs, vec![HierarchicalPair { id: s("B"), heading: s("intro") }]);
    assert_eq!(HierarchicalPair::read(&record), Some(HierarchicalPair { id: s("B"), heading: s("intro") }));
    assert_eq!(CausalPair::read(&record), None);
    assert_eq!(read_list::<HierarchicalPair>(&doc).map(|l| l.len()), Ok(1));
    assert_eq!(read_list::<SimilarPair>(&doc), Ok(vec![]));
    assert_eq!(
        read_list::<KeywordPair>(&Json::Null),
        Err(DecodeError::MissingList(Category::Keyword))
    );
}

#[test]
fn each_kind_of_record_knows_its_list() {
    assert_eq!(SimilarPair::category(), (Category::Similar, "similar_pairs"));
    assert_eq!(KeywordPair::category(), (Category::Keyword, "keyword_pairs"));
    assert_eq!(CausalPair::category(), (Category::Causal, "causal_pairs"));
    assert_eq!(HierarchicalPair::category(), (Category::Hierarchical, "hierarchical_pairs"));
}
