//! The analyzer's output: four lists of candidate relationships, decoded
//! from a JSON document.
//!
//! Decoding is all or nothing. The first list that is missing, or the first
//! record that lacks a field or has one of the wrong kind, fails the whole
//! document.

use vstd::prelude::*;
use crate::json::{Json, JsonValue, item_views, parsed};

verus! {

/// Two nodes that the analyzer found similar.
#[derive(Clone, Debug, PartialEq, Eq)]
pub struct SimilarPair {
    pub start_id: String,
    pub end_id: String,
    /// The similarity score, in decimal notation.
    pub similarity: String,
}

/// [`SimilarPair`] as a mathematical value.
pub struct SimilarPairView {
    pub start_id: Seq<char>,
    pub end_id: Seq<char>,
    pub similarity: Seq<char>,
}

impl View for SimilarPair {
    type V = SimilarPairView;

    open spec fn view(&self) -> SimilarPairView {
        SimilarPairView {
            start_id: self.start_id@,
            end_id: self.end_id@,
            similarity: self.similarity@,
        }
    }
}

/// Two nodes that share keywords.
#[derive(Clone, Debug, PartialEq, Eq)]
pub struct KeywordPair {
    pub start_id: String,
    pub end_id: String,
    pub keywords: Vec<String>,
}

/// [`KeywordPair`] as a mathematical value.
pub struct KeywordPairView {
    pub start_id: Seq<char>,
    pub end_id: Seq<char>,
    pub keywords: Seq<Seq<char>>,
}

/// The texts of a vector of strings.
pub open spec fn texts(strings: Seq<String>) -> Seq<Seq<char>> {
    Seq::new(strings.len(), |i: int| strings[i]@)
}

impl View for KeywordPair {
    type V = KeywordPairView;

    open spec fn view(&self) -> KeywordPairView {
        KeywordPairView {
            start_id: self.start_id@,
            end_id: self.end_id@,
            keywords: texts(self.keywords@),
        }
    }
}

/// A node that a causal phrase points at, with the text around the phrase.
#[derive(Clone, Debug, PartialEq, Eq)]
pub struct CausalPair {
    pub id: String,
    pub context: String,
    pub phrase: String,
}

/// [`CausalPair`] as a mathematical value.
pub struct CausalPairView {
    pub id: Seq<char>,
    pub context: Seq<char>,
    pub phrase: Seq<char>,
}

impl View for CausalPair {
    type V = CausalPairView;

    open spec fn view(&self) -> CausalPairView {
        CausalPairView { id: self.id@, context: self.context@, phrase: self.phrase@ }
    }
}

/// A node that stands under a heading.
#[derive(Clone, Debug, PartialEq, Eq)]
pub struct HierarchicalPair {
    pub id: String,
    pub heading: String,
}

/// [`HierarchicalPair`] as a mathematical value.
pub struct HierarchicalPairView {
    pub id: Seq<char>,
    pub heading: Seq<char>,
}

impl View for HierarchicalPair {
    type V = HierarchicalPairView;

    open spec fn view(&self) -> HierarchicalPairView {
        HierarchicalPairView { id: self.id@, heading: self.heading@ }
    }
}

/// Everything the analyzer proposed, list by list, each in the order of the
/// document.
#[derive(Clone, Debug, PartialEq, Eq)]
pub struct Candidates {
    pub similar_pairs: Vec<SimilarPair>,
    pub keyword_pairs: Vec<KeywordPair>,
    pub causal_pairs: Vec<CausalPair>,
    pub hierarchical_pairs: Vec<HierarchicalPair>,
}

/// [`Candidates`] as a mathematical value.
pub struct CandidatesView {
    pub similar_pairs: Seq<SimilarPairView>,
    pub keyword_pairs: Seq<KeywordPairView>,
    pub causal_pairs: Seq<CausalPairView>,
    pub hierarchical_pairs: Seq<HierarchicalPairView>,
}

impl View for Candidates {
    type V = CandidatesView;

    open spec fn view(&self) -> CandidatesView {
        CandidatesView {
            similar_pairs: record_views(self.similar_pairs@),
            keyword_pairs: record_views(self.keyword_pairs@),
            causal_pairs: record_views(self.causal_pairs@),
            hierarchical_pairs: record_views(self.hierarchical_pairs@),
        }
    }
}

/// The four lists of the analyzer's output.
#[derive(Clone, Copy, Debug, PartialEq, Eq, Structural)]
pub enum Category {
    Similar,
    Keyword,
    Causal,
    Hierarchical,
}

/// Why a document was not decoded.
#[derive(Clone, Copy, Debug, PartialEq, Eq, Structural)]
pub enum DecodeError {
    /// The text is not JSON.
    Syntax,
    /// The document has no member for this list, or the member is no array.
    MissingList(Category),
    /// The record at this place in the list lacks a field or has one of the
    /// wrong kind. It is the first such record of the list.
    BadRecord(Category, usize),
}

/// The member under which a list stands in the document.
pub open spec fn list_key(category: Category) -> Seq<char> {
    match category {
        Category::Similar => "similar_pairs"@,
        Category::Keyword => "keyword_pairs"@,
        Category::Causal => "causal_pairs"@,
        Category::Hierarchical => "hierarchical_pairs"@,
    }
}

/// The text of the member `key` of an object, where it is a string.
pub open spec fn text_member(record: JsonValue, key: Seq<char>) -> Option<Seq<char>> {
    match record.member(key) {
        Some(value) => value.text(),
        None => None,
    }
}

/// The texts of an array of strings.
pub open spec fn text_items(value: JsonValue) -> Option<Seq<Seq<char>>> {
    match value.items() {
        Some(items) => if forall|i: int| 0 <= i < items.len() ==> (#[trigger] items[i]).text() is Some {
            Some(Seq::new(items.len(), |i: int| items[i].text()->Some_0))
        } else {
            None
        },
        None => None,
    }
}

/// A similarity record: two references as strings and a score as a number.
pub open spec fn similar_of(record: JsonValue) -> Option<SimilarPairView> {
    match (
        text_member(record, "start_id"@),
        text_member(record, "end_id"@),
        record.member("similarity"@),
    ) {
        (Some(start_id), Some(end_id), Some(JsonValue::Number(similarity))) => Some(
            SimilarPairView { start_id, end_id, similarity },
        ),
        _ => None,
    }
}

/// A keyword record: two references as strings and an array of strings.
pub open spec fn keyword_of(record: JsonValue) -> Option<KeywordPairView> {
    match (
        text_member(record, "start_id"@),
        text_member(record, "end_id"@),
        record.member("keywords"@),
    ) {
        (Some(start_id), Some(end_id), Some(list)) => match text_items(list) {
            Some(keywords) => Some(KeywordPairView { start_id, end_id, keywords }),
            None => None,
        },
        _ => None,
    }
}

/// A causal record: a reference, a context and a phrase, all strings, in
/// any order.
pub open spec fn causal_of(record: JsonValue) -> Option<CausalPairView> {
    match (
        text_member(record, "id"@),
        text_member(record, "context"@),
        text_member(record, "phrase"@),
    ) {
        (Some(id), Some(context), Some(phrase)) => Some(CausalPairView { id, context, phrase }),
        _ => None,
    }
}

/// A hierarchical record: a reference and a heading, both strings.
pub open spec fn hierarchical_of(record: JsonValue) -> Option<HierarchicalPairView> {
    match (text_member(record, "id"@), text_member(record, "heading"@)) {
        (Some(id), Some(heading)) => Some(HierarchicalPairView { id, heading }),
        _ => None,
    }
}

/// Record `i` does not decode and every record before it does.
pub open spec fn is_first_bad<T>(
    records: Seq<JsonValue>,
    decode: spec_fn(JsonValue) -> Option<T>,
    i: int,
) -> bool {
    &&& 0 <= i < records.len()
    &&& decode(records[i]) is None
    &&& forall|j: int| 0 <= j < i ==> decode(#[trigger] records[j]) is Some
}

/// A list decoded record by record: all of them, or the place of the first
/// that does not decode.
pub open spec fn decode_records<T>(
    records: Seq<JsonValue>,
    decode: spec_fn(JsonValue) -> Option<T>,
) -> Result<Seq<T>, int> {
    if exists|i: int| is_first_bad(records, decode, i) {
        Err(choose|i: int| is_first_bad(records, decode, i))
    } else {
        Ok(Seq::new(records.len(), |i: int| decode(records[i])->Some_0))
    }
}

/// One list of the document, decoded.
pub open spec fn decode_list<T>(
    doc: JsonValue,
    category: Category,
    decode: spec_fn(JsonValue) -> Option<T>,
) -> Result<Seq<T>, DecodeError> {
    match doc.member(list_key(category)) {
        Some(JsonValue::Array(records)) => match decode_records(records, decode) {
            Ok(list) => Ok(list),
            Err(i) => Err(DecodeError::BadRecord(category, i as usize)),
        },
        _ => Err(DecodeError::MissingList(category)),
    }
}

/// The candidates that a document holds: the four lists in their fixed
/// order, and the error of the first list that fails.
pub open spec fn decode(doc: JsonValue) -> Result<CandidatesView, DecodeError> {
    match decode_list(doc, Category::Similar, |r: JsonValue| SimilarPair::of(r)) {
        Err(e) => Err(e),
        Ok(similar_pairs) => match decode_list(doc, Category::Keyword, |r: JsonValue| KeywordPair::of(r)) {
            Err(e) => Err(e),
            Ok(keyword_pairs) => match decode_list(
                doc,
                Category::Causal,
                |r: JsonValue| CausalPair::of(r),
            ) {
                Err(e) => Err(e),
                Ok(causal_pairs) => match decode_list(
                    doc,
                    Category::Hierarchical,
                    |r: JsonValue| HierarchicalPair::of(r),
                ) {
                    Err(e) => Err(e),
                    Ok(hierarchical_pairs) => Ok(
                        CandidatesView {
                            similar_pairs,
                            keyword_pairs,
                            causal_pairs,
                            hierarchical_pairs,
                        },
                    ),
                },
            },
        },
    }
}

/// What the text of an analyzer's output decodes to.
pub open spec fn decode_text(text: Seq<char>) -> Result<CandidatesView, DecodeError> {
    match parsed(text) {
        None => Err(DecodeError::Syntax),
        Some(doc) => decode(doc),
    }
}

/// The first record that does not decode is the one that
/// [`decode_records`] reports.
pub proof fn lemma_first_bad<T>(
    records: Seq<JsonValue>,
    decode: spec_fn(JsonValue) -> Option<T>,
    i: int,
)
    requires
        is_first_bad(records, decode, i),
    ensures
        decode_records(records, decode) == Err::<Seq<T>, int>(i),
{
    let k = choose|k: int| is_first_bad(records, decode, k);
    if k < i {
        assert(decode(records[k]) is Some);
    } else if i < k {
        assert(decode(records[i]) is Some);
    }
}

fn text_of(record: &Json, key: &str) -> (r: Option<String>)
    ensures
        match r {
            Some(t) => text_member(record@, key@) == Some(t@),
            None => text_member(record@, key@) is None,
        },
{
    match record.member(key) {
        Some(value) => match value.text() {
            Some(t) => Some(t.clone()),
            None => None,
        },
        None => None,
    }
}

fn texts_of(value: &Json) -> (r: Option<Vec<String>>)
    ensures
        match r {
            Some(list) => text_items(value@) == Some(texts(list@)),
            None => text_items(value@) is None,
        },
{
    match value.items() {
        None => None,
        Some(items) => {
            let ghost views = item_views(items@);
            let mut list: Vec<String> = Vec::new();
            let mut i: usize = 0;
            while i < items.len()
                invariant
                    i <= items.len(),
                    views == item_views(items@),
                    value@.items() == Some(views),
                    list@.len() == i,
                    forall|j: int| 0 <= j < i ==> (#[trigger] views[j]).text() == Some(list@[j]@),
                decreases items.len() - i,
            {
                assert(views[i as int] == items@[i as int]@);
                match items[i].text() {
                    Some(t) => {
                        list.push(t.clone());
                    },
                    None => {
                        return None;
                    },
                }
                i += 1;
            }
            assert(texts(list@) =~= Seq::new(views.len(), |i: int| views[i].text()->Some_0));
            Some(list)
        },
    }
}

/// A kind of candidate record: how one is read from a JSON value, and under
/// which list of the document it stands.
pub trait Record: View + Sized {
    /// The record that a JSON value holds.
    spec fn of(record: JsonValue) -> Option<Self::V>;

    /// The list that holds records of this kind.
    spec fn list() -> Category;

    /// Reads one record.
    fn read(record: &Json) -> (r: Option<Self>)
        ensures
            match r {
                Some(pair) => Self::of(record@) == Some(pair@),
                None => Self::of(record@) is None,
            },
    ;

    /// Says which list holds records of this kind, and under which member.
    fn category() -> (r: (Category, &'static str))
        ensures
            r.0 == Self::list(),
            r.1@ == list_key(Self::list()),
    ;
}

impl Record for SimilarPair {
    open spec fn of(record: JsonValue) -> Option<SimilarPairView> {
        similar_of(record)
    }

    open spec fn list() -> Category {
        Category::Similar
    }

    fn read(record: &Json) -> (r: Option<Self>) {
        let start_id = text_of(record, "start_id");
        let end_id = text_of(record, "end_id");
        let score = record.member("similarity");
        match (start_id, end_id, score) {
            (Some(start_id), Some(end_id), Some(score)) => match score.number() {
                Some(n) => Some(SimilarPair { start_id, end_id, similarity: n.clone() }),
                None => None,
            },
            _ => None,
        }
    }

    fn category() -> (r: (Category, &'static str)) {
        (Category::Similar, "similar_pairs")
    }
}

impl Record for KeywordPair {
    open spec fn of(record: JsonValue) -> Option<KeywordPairView> {
        keyword_of(record)
    }

    open spec fn list() -> Category {
        Category::Keyword
    }

    fn read(record: &Json) -> (r: Option<Self>) {
        let start_id = text_of(record, "start_id");
        let end_id = text_of(record, "end_id");
        let list = record.member("keywords");
        match (start_id, end_id, list) {
            (Some(start_id), Some(end_id), Some(list)) => match texts_of(list) {
                Some(keywords) => Some(KeywordPair { start_id, end_id, keywords }),
                None => None,
            },
            _ => None,
        }
    }

    fn category() -> (r: (Category, &'static str)) {
        (Category::Keyword, "keyword_pairs")
    }
}

impl Record for CausalPair {
    open spec fn of(record: JsonValue) -> Option<CausalPairView> {
        causal_of(record)
    }

    open spec fn list() -> Category {
        Category::Causal
    }

    fn read(record: &Json) -> (r: Option<Self>) {
        let id = text_of(record, "id");
        let context = text_of(record, "context");
        let phrase = text_of(record, "phrase");
        match (id, context, phrase) {
            (Some(id), Some(context), Some(phrase)) => Some(CausalPair { id, context, phrase }),
            _ => None,
        }
    }

    fn category() -> (r: (Category, &'static str)) {
        (Category::Causal, "causal_pairs")
    }
}

impl Record for HierarchicalPair {
    open spec fn of(record: JsonValue) -> Option<HierarchicalPairView> {
        hierarchical_of(record)
    }

    open spec fn list() -> Category {
        Category::Hierarchical
    }

    fn read(record: &Json) -> (r: Option<Self>) {
        let id = text_of(record, "id");
        let heading = text_of(record, "heading");
        match (id, heading) {
            (Some(id), Some(heading)) => Some(HierarchicalPair { id, heading }),
            _ => None,
        }
    }

    fn category() -> (r: (Category, &'static str)) {
        (Category::Hierarchical, "hierarchical_pairs")
    }
}

/// The records of a vector as mathematical values.
pub open spec fn record_views<R: Record>(list: Seq<R>) -> Seq<R::V> {
    Seq::new(list.len(), |i: int| list[i]@)
}

/// Decodes the list of one kind of record from a document.
pub fn read_list<R: Record>(doc: &Json) -> (r: Result<Vec<R>, DecodeError>)
    ensures
        match r {
            Ok(list) => decode_list(doc@, R::list(), |r: JsonValue| R::of(r)) == Ok::<
                Seq<R::V>,
                DecodeError,
            >(record_views(list@)),
            Err(e) => decode_list(doc@, R::list(), |r: JsonValue| R::of(r)) == Err::<
                Seq<R::V>,
                DecodeError,
            >(e),
        },
{
    let (category, key) = R::category();
    let records = match doc.member(key) {
        Some(value) => match value.items() {
            Some(records) => records,
            None => {
                return Err(DecodeError::MissingList(category));
            },
        },
        None => {
            return Err(DecodeError::MissingList(category));
        },
    };
    let ghost views = item_views(records@);
    let ghost decode = |r: JsonValue| R::of(r);
    let mut list: Vec<R> = Vec::new();
    let mut i: usize = 0;
    while i < records.len()
        invariant
            i <= records.len(),
            category == R::list(),
            views == item_views(records@),
            doc@.member(list_key(category)) == Some(JsonValue::Array(views)),
            decode == (|r: JsonValue| R::of(r)),
            list@.len() == i,
            forall|j: int| 0 <= j < i ==> decode(#[trigger] views[j]) == Some(list@[j]@),
        decreases records.len() - i,
    {
        assert(views[i as int] == records@[i as int]@);
        match R::read(&records[i]) {
            Some(pair) => {
                list.push(pair);
            },
            None => {
                proof {
                    lemma_first_bad(views, decode, i as int);
                }
                return Err(DecodeError::BadRecord(category, i));
            },
        }
        i += 1;
    }
    assert(decode_records(views, decode) == Ok::<Seq<R::V>, int>(record_views(list@))) by {
        assert(Seq::new(views.len(), |i: int| decode(views[i])->Some_0) =~= record_views(list@));
    }
    Ok(list)
}

impl Candidates {
    /// Decodes the four lists of a document, in their fixed order. The
    /// first list that fails, fails the document.
    pub fn from_json(doc: &Json) -> (r: Result<Candidates, DecodeError>)
        ensures
            match r {
                Ok(c) => decode(doc@) == Ok::<CandidatesView, DecodeError>(c@),
                Err(e) => decode(doc@) == Err::<CandidatesView, DecodeError>(e),
            },
    {
        let similar_pairs = match read_list::<SimilarPair>(doc) {
            Ok(list) => list,
            Err(e) => {
                return Err(e);
            },
        };
        let keyword_pairs = match read_list::<KeywordPair>(doc) {
            Ok(list) => list,
            Err(e) => {
                return Err(e);
            },
        };
        let causal_pairs = match read_list::<CausalPair>(doc) {
            Ok(list) => list,
            Err(e) => {
                return Err(e);
            },
        };
        let hierarchical_pairs = match read_list::<HierarchicalPair>(doc) {
            Ok(list) => list,
            Err(e) => {
                return Err(e);
            },
        };
        Ok(Candidates { similar_pairs, keyword_pairs, causal_pairs, hierarchical_pairs })
    }

    /// Decodes the text of an analyzer's output.
    pub fn from_text(text: &str) -> (r: Result<Candidates, DecodeError>)
        ensures
            match r {
                Ok(c) => decode_text(text@) == Ok::<CandidatesView, DecodeError>(c@),
                Err(e) => decode_text(text@) == Err::<CandidatesView, DecodeError>(e),
            },
    {
        match Json::parse(text) {
            Some(doc) => Candidates::from_json(&doc),
            None => Err(DecodeError::Syntax),
        }
    }
}

} // verus!
