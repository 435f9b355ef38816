//! Relationship type names.
//!
//! A type name is spliced into the text of a query, so only names made of
//! ASCII letters, digits and underscores are ever admitted. [`RelType`] can
//! hold nothing else.

use vstd::prelude::*;

verus! {

/// A character that may occur in a relationship type name.
pub open spec fn is_type_char(c: char) -> bool {
    ||| 'A' <= c && c <= 'Z'
    ||| 'a' <= c && c <= 'z'
    ||| '0' <= c && c <= '9'
    ||| c == '_'
}

/// A usable relationship type name: not empty, and every character passes
/// [`is_type_char`].
pub open spec fn is_type_name(s: Seq<char>) -> bool {
    &&& s.len() > 0
    &&& forall|i: int| 0 <= i < s.len() ==> is_type_char(#[trigger] s[i])
}

/// What one character of a phrase becomes in the derived type name: a space
/// becomes an underscore, an ASCII lower-case letter its upper-case form, and
/// every other character stays.
pub open spec fn normalize_char(c: char) -> char {
    if c == ' ' {
        '_'
    } else if 'a' <= c && c <= 'z' {
        ((c as u8 - 32) as u8) as char
    } else {
        c
    }
}

/// The type name derived from a phrase, character by character.
pub open spec fn normalize(phrase: Seq<char>) -> Seq<char> {
    Seq::new(phrase.len(), |i: int| normalize_char(phrase[i]))
}

/// Why a name was not admitted as a relationship type.
#[derive(Clone, Copy, Debug, PartialEq, Eq, Structural)]
pub enum TypeNameError {
    /// The name has no characters.
    Empty,
    /// The name holds a character other than a letter, a digit or `_`.
    UnsafeCharacter,
}

/// A validated relationship type name.
#[derive(Debug, PartialEq, Eq)]
pub struct RelType {
    name: String,
}

impl View for RelType {
    type V = Seq<char>;

    closed spec fn view(&self) -> Seq<char> {
        self.name@
    }
}

impl Clone for RelType {
    fn clone(&self) -> (r: Self)
        ensures
            r@ == self@,
    {
        proof {
            use_type_invariant(self);
        }
        RelType { name: self.name.clone() }
    }
}

/// Decides [`is_type_char`].
pub fn type_char(c: char) -> (r: bool)
    ensures
        r == is_type_char(c),
{
    ('A' <= c && c <= 'Z') || ('a' <= c && c <= 'z') || ('0' <= c && c <= '9') || c == '_'
}

/// Computes [`normalize_char`].
pub fn normalized(c: char) -> (r: char)
    ensures
        r == normalize_char(c),
{
    if c == ' ' {
        '_'
    } else if 'a' <= c && c <= 'z' {
        ((c as u8 - 32) as u8) as char
    } else {
        c
    }
}

impl RelType {
    #[verifier::type_invariant]
    spec fn admitted(&self) -> bool {
        is_type_name(self.name@)
    }

    /// Admits `name` as a relationship type if, and only if, it is a usable
    /// type name.
    pub fn new(name: &str) -> (r: Result<RelType, TypeNameError>)
        ensures
            r is Ok <==> is_type_name(name@),
            r matches Ok(t) ==> t@ == name@,
            r == Err::<RelType, TypeNameError>(TypeNameError::Empty) <==> name@.len() == 0,
    {
        let mut safe = true;
        let mut copy = String::new();
        for c in it: name.chars()
            invariant
                it.seq() == name@,
                copy@ == name@.take(it.index()),
                safe == (forall|i: int| 0 <= i < it.index() ==> is_type_char(#[trigger] name@[i])),
        {
            if !type_char(c) {
                safe = false;
            }
            copy.push(c);
            assert(name@.take(it.index() + 1) == name@.take(it.index()).push(c));
        }
        assert(name@.take(name@.len() as int) == name@);
        if copy.as_str().unicode_len() == 0 {
            Err(TypeNameError::Empty)
        } else if !safe {
            Err(TypeNameError::UnsafeCharacter)
        } else {
            Ok(RelType { name: copy })
        }
    }

    /// Derives a relationship type from a free-text phrase: spaces become
    /// underscores and ASCII letters upper case. The phrase is rejected
    /// unless the derived name is a usable type name.
    pub fn from_phrase(phrase: &str) -> (r: Result<RelType, TypeNameError>)
        ensures
            r is Ok <==> is_type_name(normalize(phrase@)),
            r matches Ok(t) ==> t@ == normalize(phrase@),
            r == Err::<RelType, TypeNameError>(TypeNameError::Empty) <==> phrase@.len() == 0,
    {
        let mut derived = String::new();
        for c in it: phrase.chars()
            invariant
                it.seq() == phrase@,
                derived@ == normalize(phrase@.take(it.index())),
        {
            derived.push(normalized(c));
            assert(normalize(phrase@.take(it.index() + 1)) == normalize(
                phrase@.take(it.index()),
            ).push(normalize_char(c)));
        }
        assert(phrase@.take(phrase@.len() as int) == phrase@);
        RelType::new(derived.as_str())
    }

    /// The type of an edge between two nodes with similar content.
    pub fn similar_to() -> (t: RelType)
        ensures
            t@ == "SIMILAR_TO"@,
    {
        let name = "SIMILAR_TO";
        proof {
            reveal_strlit("SIMILAR_TO");
            assert forall|i: int| 0 <= i < name@.len() implies is_type_char(#[trigger] name@[i]) by {
                assert(name@ =~= seq!['S', 'I', 'M', 'I', 'L', 'A', 'R', '_', 'T', 'O']);
            }
        }
        RelType { name: name.to_owned() }
    }

    /// The type of an edge between two nodes that share keywords.
    pub fn keyword_overlap() -> (t: RelType)
        ensures
            t@ == "KEYWORD_OVERLAP"@,
    {
        let name = "KEYWORD_OVERLAP";
        proof {
            reveal_strlit("KEYWORD_OVERLAP");
            assert forall|i: int| 0 <= i < name@.len() implies is_type_char(#[trigger] name@[i]) by {
                assert(name@ =~= seq![
                    'K',
                    'E',
                    'Y',
                    'W',
                    'O',
                    'R',
                    'D',
                    '_',
                    'O',
                    'V',
                    'E',
                    'R',
                    'L',
                    'A',
                    'P',
                ]);
            }
        }
        RelType { name: name.to_owned() }
    }

    /// The type of an edge from a heading to a node under it.
    pub fn part_of() -> (t: RelType)
        ensures
            t@ == "PART_OF"@,
    {
        let name = "PART_OF";
        proof {
            reveal_strlit("PART_OF");
            assert forall|i: int| 0 <= i < name@.len() implies is_type_char(#[trigger] name@[i]) by {
                assert(name@ =~= seq!['P', 'A', 'R', 'T', '_', 'O', 'F']);
            }
        }
        RelType { name: name.to_owned() }
    }

    /// The name as text.
    pub fn as_str(&self) -> (s: &str)
        ensures
            s@ == self@,
            is_type_name(s@),
    {
        proof {
            use_type_invariant(self);
        }
        self.name.as_str()
    }
}

/// A phrase with a character that stays unsafe after normalising has no
/// derived type name: [`RelType::from_phrase`] rejects it.
pub proof fn lemma_unsafe_phrase_has_no_type(phrase: Seq<char>, i: int)
    requires
        0 <= i < phrase.len(),
        !is_type_char(normalize_char(phrase[i])),
    ensures
        !is_type_name(normalize(phrase)),
{
    assert(normalize(phrase)[i] == normalize_char(phrase[i]));
}

/// Whatever the phrase, a derived type name consists of upper-case ASCII
/// letters, digits and underscores only.
pub proof fn lemma_derived_type_is_upper_case(phrase: Seq<char>, i: int)
    requires
        is_type_name(normalize(phrase)),
        0 <= i < phrase.len(),
    ensures
        ({
            let c = normalize(phrase)[i];
            ('A' <= c && c <= 'Z') || ('0' <= c && c <= '9') || c == '_'
        }),
{
    let c = phrase[i];
    assert(is_type_char(normalize(phrase)[i]));
    if 'a' <= c && c <= 'z' {
        assert('A' <= normalize_char(c) && normalize_char(c) <= 'Z');
    }
}

} // verus!
