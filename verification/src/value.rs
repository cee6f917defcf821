//! Flag kinds and values, the coercion of text to a value of a given kind,
//! and the canonical text of a value.

use vstd::prelude::*;
use vstd::string::*;
use crate::decimal::{decimal_text, lemma_i32_round_trip, parse_i32, parse_i32_spec, render_i32};
use crate::text::str_eq;

verus! {

/// The type of value that a flag holds.
#[derive(Clone, Copy, Debug, PartialEq, Eq, Structural)]
pub enum FlagKind {
    Boolean,
    Integer,
    Text,
}

/// The mathematical value of a flag.
pub enum Value {
    Bool(bool),
    Int(i32),
    Text(Seq<char>),
}

impl Value {
    /// The kind that this value belongs to.
    pub open spec fn kind(self) -> FlagKind {
        match self {
            Value::Bool(_) => FlagKind::Boolean,
            Value::Int(_) => FlagKind::Integer,
            Value::Text(_) => FlagKind::Text,
        }
    }
}

/// The value of a flag as the program holds it.
#[derive(Debug, PartialEq, Eq)]
pub enum FlagValue {
    Bool(bool),
    Int(i32),
    Text(String),
}

impl View for FlagValue {
    type V = Value;

    open spec fn view(&self) -> Value {
        match self {
            FlagValue::Bool(b) => Value::Bool(*b),
            FlagValue::Int(n) => Value::Int(*n),
            FlagValue::Text(s) => Value::Text(s@),
        }
    }
}

/// The values that a sequence of flag values stands for.
pub open spec fn value_views(values: Seq<FlagValue>) -> Seq<Value> {
    Seq::new(values.len(), |i: int| values[i]@)
}

/// The text `true`.
pub open spec fn true_text() -> Seq<char> {
    seq!['t', 'r', 'u', 'e']
}

/// The text `false`.
pub open spec fn false_text() -> Seq<char> {
    seq!['f', 'a', 'l', 's', 'e']
}

/// What `text` means as a value of kind `kind`, if it means anything.
///
/// A boolean is exactly `true` or `false` in lower case. An integer is a
/// base-10 number that fits 32 bits. Any text is a text value, verbatim.
pub open spec fn coerce_spec(kind: FlagKind, text: Seq<char>) -> Option<Value> {
    match kind {
        FlagKind::Boolean => if text == true_text() {
            Some(Value::Bool(true))
        } else if text == false_text() {
            Some(Value::Bool(false))
        } else {
            None
        },
        FlagKind::Integer => match parse_i32_spec(text) {
            Some(n) => Some(Value::Int(n)),
            None => None,
        },
        FlagKind::Text => Some(Value::Text(text)),
    }
}

/// The canonical text of a value: `true` or `false`, base 10, or the text
/// itself.
pub open spec fn render_spec(value: Value) -> Seq<char> {
    match value {
        Value::Bool(b) => if b {
            true_text()
        } else {
            false_text()
        },
        Value::Int(n) => decimal_text(n as int),
        Value::Text(s) => s,
    }
}

/// The canonical text of a value, coerced to the value's own kind, is the
/// value again.
pub proof fn lemma_render_then_coerce(value: Value)
    ensures
        coerce_spec(value.kind(), render_spec(value)) == Some(value),
{
    match value {
        Value::Int(n) => {
            lemma_i32_round_trip(n);
        },
        _ => {},
    }
}

impl Clone for FlagValue {
    fn clone(&self) -> (r: Self)
        ensures
            r@ == self@,
    {
        match self {
            FlagValue::Bool(b) => FlagValue::Bool(*b),
            FlagValue::Int(n) => FlagValue::Int(*n),
            FlagValue::Text(s) => FlagValue::Text(s.clone()),
        }
    }
}

impl FlagValue {
    /// The kind that this value belongs to.
    pub fn kind(&self) -> (r: FlagKind)
        ensures
            r == self@.kind(),
    {
        match self {
            FlagValue::Bool(_) => FlagKind::Boolean,
            FlagValue::Int(_) => FlagKind::Integer,
            FlagValue::Text(_) => FlagKind::Text,
        }
    }

    /// Coerces `text` to a value of kind `kind`. Text that does not denote
    /// such a value gives `None`.
    pub fn coerce(kind: FlagKind, text: &str) -> (r: Option<FlagValue>)
        ensures
            r is Some <==> coerce_spec(kind, text@) is Some,
            r matches Some(v) ==> coerce_spec(kind, text@) == Some(v@),
    {
        match kind {
            FlagKind::Boolean => {
                proof {
                    reveal_strlit("true");
                    reveal_strlit("false");
                    assert("true"@ =~= true_text());
                    assert("false"@ =~= false_text());
                }
                if str_eq(text, "true") {
                    Some(FlagValue::Bool(true))
                } else if str_eq(text, "false") {
                    Some(FlagValue::Bool(false))
                } else {
                    None
                }
            },
            FlagKind::Integer => match parse_i32(text) {
                Some(n) => Some(FlagValue::Int(n)),
                None => None,
            },
            FlagKind::Text => Some(FlagValue::Text(String::from_str(text))),
        }
    }

    /// The canonical text of this value.
    pub fn render(&self) -> (r: String)
        ensures
            r@ == render_spec(self@),
    {
        match self {
            FlagValue::Bool(b) => {
                proof {
                    reveal_strlit("true");
                    reveal_strlit("false");
                }
                if *b {
                    String::from_str("true")
                } else {
                    String::from_str("false")
                }
            },
            FlagValue::Int(n) => render_i32(*n),
            FlagValue::Text(s) => s.clone(),
        }
    }
}

} // verus!
