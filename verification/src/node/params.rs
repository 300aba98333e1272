//! Reading typed values out of the inputs of a node.

use vstd::prelude::*;
use crate::json::{items_view, lemma_array_view, JsonNumber, JsonValue, JsonView, NumberView};
use crate::store::{entries_view, find_entry};
use crate::types::node::{CoerceError, CoerceFault};

verus! {

/// The text under `name`, where a string is there.
pub open spec fn text_at(m: Map<Seq<char>, JsonView>, name: Seq<char>) -> Option<Seq<char>> {
    if m.contains_key(name) {
        match m[name] {
            JsonView::String(s) => Some(s),
            _ => None,
        }
    } else {
        None
    }
}

/// The whole number under `name`, where one is there.
pub open spec fn whole_at(m: Map<Seq<char>, JsonView>, name: Seq<char>) -> Option<int> {
    if m.contains_key(name) {
        match m[name] {
            JsonView::Number(NumberView::PosInt(n)) => Some(n as int),
            JsonView::Number(NumberView::NegInt(n)) => Some(n as int),
            _ => None,
        }
    } else {
        None
    }
}

/// The truth value under `name`, where one is there.
pub open spec fn flag_at(m: Map<Seq<char>, JsonView>, name: Seq<char>) -> Option<bool> {
    if m.contains_key(name) {
        match m[name] {
            JsonView::Bool(b) => Some(b),
            _ => None,
        }
    } else {
        None
    }
}

/// The view of a text that may be absent.
pub open spec fn text_view(t: Option<String>) -> Option<Seq<char>> {
    match t {
        Some(s) => Some(s@),
        None => None,
    }
}

/// The text under `name`.
pub fn read_text(params: &Vec<(String, JsonValue)>, name: &str) -> (r: Option<String>)
    ensures
        text_view(r) == text_at(entries_view(params@), name@),
{
    match find_entry(params, name) {
        Some(i) => match &params[i].1 {
            JsonValue::String(s) => Some(s.clone()),
            _ => None,
        },
        None => None,
    }
}

/// The whole number under `name`, where it fits in 64 bits with a sign.
pub fn read_i64(params: &Vec<(String, JsonValue)>, name: &str) -> (r: Option<i64>)
    ensures
        match whole_at(entries_view(params@), name@) {
            Some(v) => if v <= i64::MAX {
                r == Some(v as i64)
            } else {
                r is None
            },
            None => r is None,
        },
{
    match find_entry(params, name) {
        Some(i) => match &params[i].1 {
            JsonValue::Number(JsonNumber::PosInt(n)) => if *n <= 9223372036854775807 {
                Some(*n as i64)
            } else {
                None
            },
            JsonValue::Number(JsonNumber::NegInt(n)) => Some(*n),
            _ => None,
        },
        None => None,
    }
}

/// The whole number under `name`, where it is not negative.
pub fn read_u64(params: &Vec<(String, JsonValue)>, name: &str) -> (r: Option<u64>)
    ensures
        match whole_at(entries_view(params@), name@) {
            Some(v) => if v >= 0 {
                r == Some(v as u64)
            } else {
                r is None
            },
            None => r is None,
        },
{
    match find_entry(params, name) {
        Some(i) => match &params[i].1 {
            JsonValue::Number(JsonNumber::PosInt(n)) => Some(*n),
            JsonValue::Number(JsonNumber::NegInt(n)) => if *n >= 0 {
                Some(*n as u64)
            } else {
                None
            },
            _ => None,
        },
        None => None,
    }
}

/// The truth value under `name`.
pub fn read_flag(params: &Vec<(String, JsonValue)>, name: &str) -> (r: Option<bool>)
    ensures
        r == flag_at(entries_view(params@), name@),
{
    match find_entry(params, name) {
        Some(i) => match &params[i].1 {
            JsonValue::Bool(b) => Some(*b),
            _ => None,
        },
        None => None,
    }
}

/// The views of a list of texts.
pub open spec fn texts_view(texts: Seq<String>) -> Seq<Seq<char>> {
    Seq::new(texts.len(), |i: int| texts[i]@)
}

/// The texts of a list of values, where every value is a string.
pub open spec fn all_texts(items: Seq<JsonView>) -> Option<Seq<Seq<char>>> {
    if forall|i: int| 0 <= i < items.len() ==> #[trigger] items[i] is String {
        Some(Seq::new(items.len(), |i: int| items[i]->String_0))
    } else {
        None
    }
}

/// The list of texts under `name`: none where nothing or null is there, an
/// error where something else than a list of strings is.
pub open spec fn texts_at(m: Map<Seq<char>, JsonView>, name: Seq<char>) -> Result<
    Option<Seq<Seq<char>>>,
    (),
> {
    if m.contains_key(name) {
        match m[name] {
            JsonView::Array(items) => match all_texts(items) {
                Some(texts) => Ok(Some(texts)),
                None => Err(()),
            },
            JsonView::Null => Ok(None),
            _ => Err(()),
        }
    } else {
        Ok(None)
    }
}

/// The fault of a value under `name` that is no list of strings.
pub open spec fn texts_fault(m: Map<Seq<char>, JsonView>, name: Seq<char>) -> CoerceFault {
    if m.contains_key(name) && m[name] is Array {
        shape_fault(name, "expected a list of strings"@)
    } else {
        shape_fault(name, "expected a list"@)
    }
}

/// The fault of an input that has not the shape that a runner asks for.
pub open spec fn shape_fault(name: Seq<char>, what: Seq<char>) -> CoerceFault {
    CoerceFault::ParamShapeMismatch(name + ": "@ + what)
}

/// The texts of a list of values, where every value is a string.
pub fn texts_of(items: &Vec<JsonValue>) -> (r: Option<Vec<String>>)
    ensures
        match all_texts(items_view(items@)) {
            Some(texts) => r matches Some(v) && texts_view(v@) == texts,
            None => r is None,
        },
{
    let mut out: Vec<String> = Vec::new();
    let mut i: usize = 0;
    while i < items.len()
        invariant
            i <= items@.len(),
            out@.len() == i,
            forall|k: int| 0 <= k < i ==> items@[k]@ == JsonView::String((#[trigger] out@[k])@),
        decreases items@.len() - i,
    {
        match &items[i] {
            JsonValue::String(s) => {
                out.push(s.clone());
            },
            _ => {
                assert(!(items_view(items@)[i as int] is String));
                return None;
            },
        }
        i += 1;
    }
    proof {
        assert forall|k: int| 0 <= k < items@.len() implies #[trigger] items_view(
            items@,
        )[k] is String by {
            assert(items@[k]@ == JsonView::String(out@[k]@));
        }
        assert(texts_view(out@) =~= all_texts(items_view(items@))->0);
    }
    Some(out)
}

/// The list of texts under `name`.
pub fn read_texts(params: &Vec<(String, JsonValue)>, name: &str) -> (r: Result<
    Option<Vec<String>>,
    CoerceError,
>)
    ensures
        match texts_at(entries_view(params@), name@) {
            Ok(Some(texts)) => r matches Ok(Some(v)) && texts_view(v@) == texts,
            Ok(None) => r matches Ok(None),
            Err(_) => r matches Err(e) && e@ == texts_fault(entries_view(params@), name@),
        },
{
    match find_entry(params, name) {
        Some(i) => {
            proof {
                if params@[i as int].1 is Array {
                    lemma_array_view(params@[i as int].1);
                }
            }
            match &params[i].1 {
                JsonValue::Array(items) => match texts_of(items) {
                    Some(texts) => Ok(Some(texts)),
                    None => Err(shape_error(name, "expected a list of strings")),
                },
                JsonValue::Null => Ok(None),
                _ => Err(shape_error(name, "expected a list")),
            }
        },
        None => Ok(None),
    }
}

/// The error of an input that has not the shape that a runner asks for.
pub fn shape_error(name: &str, what: &str) -> (r: CoerceError)
    ensures
        r@ == shape_fault(name@, what@),
{
    let mut text = String::new();
    text.push_str(name);
    text.push_str(": ");
    text.push_str(what);
    assert(text@ =~= name@ + ": "@ + what@);
    CoerceError::ParamShapeMismatch(text)
}

} // verus!
