//! The closed set of relations and the names they go by.

use vstd::prelude::*;
use vstd::string::StringExecFns;
use crate::error::{IngestError, IngestErrorView};

verus! {

/// A relation that rows can be loaded into and whose changes are exported.
#[derive(Clone, Copy, Debug, PartialEq, Eq, Structural)]
pub enum Relations {
    Edge,
}

/// The name under which a relation is declared.
pub open spec fn name_of(relation: Relations) -> Seq<char> {
    match relation {
        Relations::Edge => "Edge"@,
    }
}

/// A character with the ASCII capitals turned into small letters.
pub open spec fn lower(c: char) -> char {
    if 'A' <= c && c <= 'Z' {
        ((c as u8) + 32) as char
    } else {
        c
    }
}

/// A text with its ASCII capitals turned into small letters.
pub open spec fn lower_case(text: Seq<char>) -> Seq<char> {
    text.map_values(|c: char| lower(c))
}

/// Whether `name` is a spelling of `relation`: its declared name, with each
/// letter in either case.
pub open spec fn answers_to(relation: Relations, name: Seq<char>) -> bool {
    lower_case(name) == lower_case(name_of(relation))
}

/// The relation that `name` denotes, if any.
pub open spec fn resolve(name: Seq<char>) -> Option<Relations> {
    if answers_to(Relations::Edge, name) {
        Some(Relations::Edge)
    } else {
        None
    }
}

/// Whether two texts hold the same characters.
pub fn same_text(a: &str, b: &str) -> (same: bool)
    ensures
        same == (a@ == b@),
{
    let left = String::from_str(a);
    let right = String::from_str(b);
    left == right
}

/// A character with an ASCII capital turned into its small letter.
pub fn to_lower(c: char) -> (small: char)
    ensures
        small == lower(c),
{
    if 'A' <= c && c <= 'Z' {
        ((c as u8) + 32) as char
    } else {
        c
    }
}

/// Whether two texts hold the same characters, with no regard to the case of
/// ASCII letters.
pub fn same_text_in_any_case(a: &str, b: &str) -> (same: bool)
    ensures
        same == (lower_case(a@) == lower_case(b@)),
{
    let len = a.unicode_len();
    if b.unicode_len() != len {
        assert(lower_case(a@).len() != lower_case(b@).len());
        return false;
    }
    let mut at: usize = 0;
    while at < len
        invariant
            at <= len,
            len == a@.len(),
            len == b@.len(),
            forall|i: int| 0 <= i < at ==> lower(a@[i]) == lower(b@[i]),
        decreases len - at,
    {
        if to_lower(a.get_char(at)) != to_lower(b.get_char(at)) {
            assert(lower_case(a@)[at as int] != lower_case(b@)[at as int]);
            return false;
        }
        at += 1;
    }
    assert(lower_case(a@) =~= lower_case(b@));
    true
}

/// Looks a relation up by name. The case of the letters makes no difference.
pub fn relation_str_to_enum(relation: &str) -> (found: Result<Relations, IngestError>)
    ensures
        match resolve(relation@) {
            Some(id) => found == Ok::<Relations, IngestError>(id),
            None => found is Err && found->Err_0@ == (IngestErrorView::UnknownRelation {
                name: relation@,
            }),
        },
{
    if same_text_in_any_case(relation, relation_name(Relations::Edge)) {
        Ok(Relations::Edge)
    } else {
        Err(IngestError::UnknownRelation { name: String::from_str(relation) })
    }
}

/// The declared name of a relation.
pub fn relation_name(relation: Relations) -> (name: &'static str)
    ensures
        name@ == name_of(relation),
{
    match relation {
        Relations::Edge => "Edge",
    }
}

/// Turning a text into lower case twice gives what once gives.
pub proof fn lemma_lower_case_once(text: Seq<char>)
    ensures
        lower_case(lower_case(text)) == lower_case(text),
{
    assert(lower_case(lower_case(text)) =~= lower_case(text));
}

/// A name resolves to a relation exactly if it is a spelling of it, so every
/// name that is a spelling of no relation is unknown. A relation's declared
/// name is a spelling of it, and so is that name in lower case.
pub proof fn lemma_resolve_by_spelling(relation: Relations, name: Seq<char>)
    ensures
        answers_to(relation, name) <==> resolve(name) == Some(relation),
        resolve(name_of(relation)) == Some(relation),
        resolve(lower_case(name_of(relation))) == Some(relation),
{
    lemma_lower_case_once(name_of(relation));
}

/// The case of the letters makes no difference to what a name resolves to:
/// two names that differ only in the case of their letters resolve to the
/// same relation, or are both unknown. So every case variant of a relation's
/// name resolves to that relation.
pub proof fn lemma_case_variants_agree(first: Seq<char>, second: Seq<char>)
    ensures
        lower_case(first) == lower_case(second) ==> resolve(first) == resolve(second),
        forall|relation: Relations|
            lower_case(first) == lower_case(#[trigger] name_of(relation)) ==> resolve(first)
                == Some(relation),
{
}

} // verus!
