//! Raw flag tokens: `name` or `name=value`, and what a token asks of a
//! catalog.

use vstd::prelude::*;
use crate::catalog::{flag_index, lemma_flag_index_in_range, Catalog, EntryView};
use crate::occurrence::{first_occurrence, lemma_first_occurrence_cases};
use crate::text::find_char;
use crate::value::{coerce_spec, FlagKind, FlagValue, Value};

verus! {

/// The two parts of a token.
pub struct TokenParts {
    /// What stands before the first `=`, or the whole token if it has none.
    pub name: Seq<char>,
    /// What stands after the first `=`, if the token has one.
    pub value: Option<Seq<char>>,
}

/// Splits a token at its first `=`. Later `=` signs belong to the value.
pub open spec fn split_token(token: Seq<char>) -> TokenParts {
    match first_occurrence(token, '=') {
        Some(i) => TokenParts { name: token.take(i), value: Some(token.skip(i + 1)) },
        None => TokenParts { name: token, value: None },
    }
}

/// A flag of the catalog, by position, and the value to store for it.
pub struct Assignment {
    pub index: int,
    pub value: Value,
}

/// The assignment that a token asks for, or `None` if the token is skipped.
///
/// A token is skipped when its name is not in the catalog, when its value
/// does not coerce to the flag's kind, or when it has no value and the flag
/// is not boolean. A bare name of a boolean flag sets the flag to `true`.
pub open spec fn assignment_of(catalog: Seq<EntryView>, token: Seq<char>) -> Option<Assignment> {
    let parts = split_token(token);
    match flag_index(catalog, parts.name) {
        None => None,
        Some(index) => match parts.value {
            None => if catalog[index].kind == FlagKind::Boolean {
                Some(Assignment { index, value: Value::Bool(true) })
            } else {
                None
            },
            Some(text) => match coerce_spec(catalog[index].kind, text) {
                Some(value) => Some(Assignment { index, value }),
                None => None,
            },
        },
    }
}

/// An assignment names a flag of the catalog and gives it a value of the
/// flag's kind.
pub proof fn lemma_assignment_fits(catalog: Seq<EntryView>, token: Seq<char>)
    ensures
        assignment_of(catalog, token) matches Some(a) ==> {
            &&& 0 <= a.index < catalog.len()
            &&& a.value.kind() == catalog[a.index].kind
        },
{
    lemma_flag_index_in_range(catalog, split_token(token).name);
}

/// Resolves `token` against `catalog`: the position of the flag it names and
/// the value it gives, or `None` if the token is to be skipped.
pub fn resolve(catalog: &Catalog, token: &str) -> (r: Option<(usize, FlagValue)>)
    ensures
        r is Some <==> assignment_of(catalog@, token@) is Some,
        r matches Some((index, value)) ==> {
            &&& assignment_of(catalog@, token@) == Some(
                Assignment { index: index as int, value: value@ },
            )
            &&& index < catalog@.len()
            &&& value@.kind() == catalog@[index as int].kind
        },
{
    proof {
        lemma_assignment_fits(catalog@, token@);
        lemma_first_occurrence_cases(token@, '=');
    }
    let (name, text): (&str, Option<&str>) = match find_char(token, '=') {
        Some(at) => {
            let end: usize = token.unicode_len();
            (token.substring_char(0, at), Some(token.substring_char(at + 1, end)))
        },
        None => (token, None),
    };
    assert(match text {
        Some(t) => split_token(token@).value == Some(t@),
        None => split_token(token@).value is None,
    });
    let index: usize = match catalog.find(name) {
        Some(index) => index,
        None => {
            return None;
        },
    };
    let kind: FlagKind = catalog.entry(index).unwrap().kind;
    match text {
        None => match kind {
            FlagKind::Boolean => Some((index, FlagValue::Bool(true))),
            _ => None,
        },
        Some(text) => match FlagValue::coerce(kind, text) {
            Some(value) => Some((index, value)),
            None => None,
        },
    }
}

} // verus!
