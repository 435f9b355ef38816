use graph_ingest::reltype::{normalized, type_char, RelType, TypeNameError};

#[test]
fn caused_by_becomes_an_upper_case_type() {
    let t = RelType::from_phrase("caused by").unwrap();
    assert_eq!(t.as_str(), "CAUSED_BY");
}

#[test]
fn phrase_keeps_digits_and_underscores() {
    let t = RelType::from_phrase("leads to_step 2").unwrap();
    assert_eq!(t.as_str(), "LEADS_TO_STEP_2");
}

#[test]
fn every_space_becomes_an_underscore() {
    let t = RelType::from_phrase("a  b ").unwrap();
    assert_eq!(t.as_str(), "A__B_");
}

#[test]
fn phrase_with_semicolon_is_rejected() {
    let r = RelType::from_phrase("x]->(b) DETACH DELETE b; //");
    assert_eq!(r, Err(TypeNameError::UnsafeCharacter));
}

#[test]
fn phrase_with_quote_backtick_or_newline_is_rejected() {
    assert_eq!(RelType::from_phrase("it's"), Err(TypeNameError::UnsafeCharacter));
    assert_eq!(RelType::from_phrase("a`b"), Err(TypeNameError::UnsafeCharacter));
    assert_eq!(RelType::from_phrase("a\nb"), Err(TypeNameError::UnsafeCharacter));
    assert_eq!(RelType::from_phrase("a\tb"), Err(TypeNameError::UnsafeCharacter));
    assert_eq!(RelType::from_phrase("a-b"), Err(TypeNameError::UnsafeCharacter));
}

#[test]
fn phrase_with_letters_beyond_ascii_is_rejected() {
    assert_eq!(RelType::from_phrase("führt zu"), Err(TypeNameError::UnsafeCharacter));
    assert_eq!(RelType::from_phrase("cau\u{17f}ed"), Err(TypeNameError::UnsafeCharacter));
}

#[test]
fn empty_phrase_is_rejected() {
    assert_eq!(RelType::from_phrase(""), Err(TypeNameError::Empty));
    assert_eq!(RelType::new(""), Err(TypeNameError::Empty));
}

#[test]
fn new_admits_a_name_as_it_stands() {
    let t = RelType::new("Mixed_Case9").unwrap();
    assert_eq!(t.as_str(), "Mixed_Case9");
}

#[test]
fn new_rejects_a_space() {
    assert_eq!(RelType::new("SIMILAR TO"), Err(TypeNameError::UnsafeCharacter));
}

#[test]
fn fixed_types_have_their_names() {
    assert_eq!(RelType::similar_to().as_str(), "SIMILAR_TO");
    assert_eq!(RelType::keyword_overlap().as_str(), "KEYWORD_OVERLAP");
    assert_eq!(RelType::part_of().as_str(), "PART_OF");
}

#[test]
fn clone_keeps_the_name() {
    let t = RelType::from_phrase("because of").unwrap();
    assert_eq!(t.clone(), t);
    assert_eq!(t.clone().as_str(), "BECAUSE_OF");
}

#[test]
fn characters_are_classified_one_by_one() {
    for c in ['A', 'Z', 'a', 'z', '0', '9', '_'] {
        assert!(type_char(c));
    }
    for c in [' ', ';', '-', '@', '[', '`', '{', '/', ':', '\u{e9}'] {
        assert!(!type_char(c));
    }
    assert_eq!(normalized(' '), '_');
    assert_eq!(normalized('a'), 'A');
    assert_eq!(normalized('z'), 'Z');
    assert_eq!(normalized('Q'), 'Q');
    assert_eq!(normalized(';'), ';');
    assert_eq!(normalized('\u{e9}'), '\u{e9}');
}
