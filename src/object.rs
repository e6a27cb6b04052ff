//! Classification of editor values as characters or text.
use vstd::prelude::*;

use crate::codec::{is_codepoint, MAX_CHAR};

verus! {

/// A value as the editor's command layer hands it over: an integer, a
/// string, or anything else.
#[derive(Debug)]
pub enum Value {
    Integer(i64),
    Text(String),
    Other,
}

/// Whether `v` is a character: an integer in `0..=MAX_CHAR`.
pub open spec fn is_character(v: Value) -> bool {
    match v {
        Value::Integer(n) => is_codepoint(n as int),
        _ => false,
    }
}

/// Whether `v` is a character or a string.
pub open spec fn is_character_or_string(v: Value) -> bool {
    is_character(v) || v is Text
}

/// True iff `object` is a character.
pub fn characterp(object: &Value) -> (r: bool)
    ensures
        r == is_character(*object),
{
    match object {
        Value::Integer(n) => 0 <= *n && *n <= MAX_CHAR as i64,
        _ => false,
    }
}

/// True iff `object` is a character or a string.
pub fn char_or_string_p(object: &Value) -> (r: bool)
    ensures
        r == is_character_or_string(*object),
{
    characterp(object) || matches!(object, Value::Text(_))
}

/// `max_char` gives the last character: it is a character, and the integer
/// after it is not.
pub proof fn lemma_max_char_is_last_character()
    ensures
        is_character(Value::Integer(MAX_CHAR as i64)),
        !is_character(Value::Integer((MAX_CHAR + 1) as i64)),
{
}

} // verus!
