//! Reading the parameters of a tool call from a JSON value.
//!
//! A JSON value is opaque here. What a lookup or a conversion gives is a
//! function of the value alone, so each has a name that contracts can speak
//! of; the selection of strings from an array is proved over those names.

use vstd::prelude::*;
use vstd::string::*;
use serde_json::Value;
use crate::text::{lemma_texts_push, opt_text, texts};

verus! {

/// A JSON value. Its inside is not modelled.
#[verifier::external_type_specification]
#[verifier::external_body]
pub struct ExValue(Value);

/// The member of a JSON object under a key; nothing when the value is no
/// object or has no such member.
pub uninterp spec fn json_member(value: Value, key: Seq<char>) -> Option<Value>;

/// The text of a JSON string; nothing for any other kind of value.
pub uninterp spec fn json_text(value: Value) -> Option<Seq<char>>;

/// The elements of a JSON array; nothing for any other kind of value.
pub uninterp spec fn json_items(value: Value) -> Option<Seq<Value>>;

/// Calls `Value::get` with a string key: the member under the key when the
/// value is an object that has one.
#[verifier::external_body]
pub(crate) fn member<'a>(value: &'a Value, key: &str) -> (res: Option<&'a Value>)
    ensures
        match res {
            Some(m) => json_member(*value, key@) == Some(*m),
            None => json_member(*value, key@) is None,
        },
{
    value.get(key)
}

/// Calls `Value::as_str`: the text when the value is a string.
#[verifier::external_body]
pub(crate) fn as_text<'a>(value: &'a Value) -> (res: Option<&'a str>)
    ensures
        match res {
            Some(s) => json_text(*value) == Some(s@),
            None => json_text(*value) is None,
        },
{
    value.as_str()
}

/// Calls `Value::as_array`: the elements when the value is an array.
#[verifier::external_body]
pub(crate) fn as_items<'a>(value: &'a Value) -> (res: Option<&'a Vec<Value>>)
    ensures
        match res {
            Some(items) => json_items(*value) == Some(items@),
            None => json_items(*value) is None,
        },
{
    value.as_array()
}

/// The text under a key of the parameters: present when the parameters
/// are an object whose member under the key is a string.
pub open spec fn text_at(params: Value, key: Seq<char>) -> Option<Seq<char>> {
    match json_member(params, key) {
        Some(m) => json_text(m),
        None => None,
    }
}

/// The texts of the strings among some JSON values, in order; values of
/// other kinds are passed over.
pub open spec fn only_texts(items: Seq<Value>) -> Seq<Seq<char>>
    decreases items.len(),
{
    if items.len() == 0 {
        Seq::empty()
    } else {
        match json_text(items.last()) {
            Some(s) => only_texts(items.drop_last()).push(s),
            None => only_texts(items.drop_last()),
        }
    }
}

/// The list of strings under a key of the parameters: the strings of the
/// array under the key, and the empty list when there is no array there.
pub open spec fn texts_at(params: Value, key: Seq<char>) -> Seq<Seq<char>> {
    match json_member(params, key) {
        Some(m) => match json_items(m) {
            Some(items) => only_texts(items),
            None => Seq::empty(),
        },
        None => Seq::empty(),
    }
}

/// Reads the string under a key of the parameters.
pub fn string_param(params: &Value, key: &str) -> (res: Option<String>)
    ensures
        opt_text(res) == text_at(*params, key@),
{
    match member(params, key) {
        Some(m) => match as_text(m) {
            Some(s) => Some(String::from_str(s)),
            None => None,
        },
        None => None,
    }
}

/// Selects the strings among some JSON values.
pub fn strings_of(items: &Vec<Value>) -> (res: Vec<String>)
    ensures
        texts(res@) == only_texts(items@),
{
    let mut out: Vec<String> = Vec::new();
    let mut i: usize = 0;
    proof {
        assert(texts(out@) =~= Seq::<Seq<char>>::empty());
    }
    while i < items.len()
        invariant
            i <= items.len(),
            texts(out@) == only_texts(items@.take(i as int)),
        decreases items.len() - i,
    {
        proof {
            assert(items@.take(i as int + 1).drop_last() =~= items@.take(i as int));
            assert(items@.take(i as int + 1).last() == items@[i as int]);
        }
        match as_text(&items[i]) {
            Some(s) => {
                let ghost before = out@;
                let item = String::from_str(s);
                out.push(item);
                proof {
                    lemma_texts_push(before, item);
                }
            },
            None => {},
        }
        i = i + 1;
    }
    proof {
        assert(items@.take(items@.len() as int) =~= items@);
    }
    out
}

/// Reads the list of strings under a key of the parameters.
pub fn string_list_param(params: &Value, key: &str) -> (res: Vec<String>)
    ensures
        texts(res@) == texts_at(*params, key@),
{
    match member(params, key) {
        Some(m) => match as_items(m) {
            Some(items) => strings_of(items),
            None => {
                let out: Vec<String> = Vec::new();
                proof {
                    assert(texts(out@) =~= Seq::<Seq<char>>::empty());
                }
                out
            },
        },
        None => {
            let out: Vec<String> = Vec::new();
            proof {
                assert(texts(out@) =~= Seq::<Seq<char>>::empty());
            }
            out
        },
    }
}

} // verus!
