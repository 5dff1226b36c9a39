//! The typed conversion layer.
//!
//! A kernel result arrives as a generic value; these conversions turn it
//! into a concrete host type and refuse, rather than coerce, any value of
//! another shape: a number is never stringified, a text never parsed into
//! a number. Optional conversions map null to the empty case; sequence
//! conversions require every element to convert, or the whole conversion
//! fails.

use vstd::prelude::*;

use crate::api::JsiiGetResponse;
use crate::api::JsiiInvokeResponse;
use crate::client::JsiiClientError;
use crate::client::SpecClientError;
use crate::json::JsonValue;
use crate::json::SpecJson;
use crate::json::clone_json;

verus! {

/// Every element of the sequence is text.
pub open spec fn spec_all_texts(es: Seq<SpecJson>) -> bool {
    forall|i: int| 0 <= i < es.len() ==> es[i] is Str
}

/// The value is an array of texts.
pub open spec fn spec_is_text_arr(v: SpecJson) -> bool {
    v matches SpecJson::Arr(es) && spec_all_texts(es)
}

/// The model of a converted text sequence: each element quoted back into
/// a value gives the original array.
pub open spec fn spec_texts_value(ss: Seq<String>) -> SpecJson {
    SpecJson::Arr(
        Seq::new(
            ss.len(),
            |i: int|
                if 0 <= i < ss.len() {
                    SpecJson::Str(ss[i]@)
                } else {
                    SpecJson::Null
                },
        ),
    )
}

/// The value as a number: exactly the integer case, nothing coerced.
pub fn to_number(v: &JsonValue) -> (r: Result<i64, JsiiClientError>)
    ensures
        r matches Ok(n) ==> v@ == SpecJson::Int(n as int),
        r matches Err(e) ==> !(v@ is Int) && e@ == SpecClientError::FormatError(v@),
{
    match v {
        JsonValue::Int(n) => Ok(*n),
        _ => Err(JsiiClientError::FormatError(clone_json(v))),
    }
}

/// The value as text: exactly the text case, nothing stringified.
pub fn to_text(v: &JsonValue) -> (r: Result<String, JsiiClientError>)
    ensures
        r matches Ok(s) ==> v@ == SpecJson::Str(s@),
        r matches Err(e) ==> !(v@ is Str) && e@ == SpecClientError::FormatError(v@),
{
    match v {
        JsonValue::Str(s) => Ok(s.clone()),
        _ => Err(JsiiClientError::FormatError(clone_json(v))),
    }
}

/// The value as a boolean: exactly the boolean case.
pub fn to_boolean(v: &JsonValue) -> (r: Result<bool, JsiiClientError>)
    ensures
        r matches Ok(b) ==> v@ == SpecJson::Bool(b),
        r matches Err(e) ==> !(v@ is Bool) && e@ == SpecClientError::FormatError(v@),
{
    match v {
        JsonValue::Bool(b) => Ok(*b),
        _ => Err(JsiiClientError::FormatError(clone_json(v))),
    }
}

/// The value as nothing: exactly the null case, for methods that return
/// no value.
pub fn to_unit(v: &JsonValue) -> (r: Result<(), JsiiClientError>)
    ensures
        r is Ok ==> v@ == SpecJson::Null,
        r matches Err(e) ==> !(v@ is Null) && e@ == SpecClientError::FormatError(v@),
{
    match v {
        JsonValue::Null => Ok(()),
        _ => Err(JsiiClientError::FormatError(clone_json(v))),
    }
}

/// The value as optional text: null is the empty case, text the present
/// one, anything else refused.
pub fn to_opt_text(v: &JsonValue) -> (r: Result<Option<String>, JsiiClientError>)
    ensures
        r matches Ok(o) ==> (match o {
            None => v@ == SpecJson::Null,
            Some(s) => v@ == SpecJson::Str(s@),
        }),
        r matches Err(e) ==> !(v@ is Null) && !(v@ is Str) && e@ == SpecClientError::FormatError(
            v@,
        ),
{
    match v {
        JsonValue::Null => Ok(None),
        JsonValue::Str(s) => Ok(Some(s.clone())),
        _ => Err(JsiiClientError::FormatError(clone_json(v))),
    }
}

/// The value as a text sequence: an array whose every element is text;
/// one element of another shape refuses the whole conversion.
pub fn to_text_seq(v: &JsonValue) -> (r: Result<Vec<String>, JsiiClientError>)
    ensures
        r matches Ok(ss) ==> v@ == spec_texts_value(ss@),
        r matches Err(e) ==> !spec_is_text_arr(v@) && e@ == SpecClientError::FormatError(v@),
{
    match v {
        JsonValue::Arr(items) => {
            proof {
                assert(v@ == SpecJson::Arr(crate::json::views_of_values(items@)));
            }
            let mut out: Vec<String> = Vec::new();
            let mut j: usize = 0;
            while j < items.len()
                invariant
                    j <= items@.len(),
                    out@.len() == j,
                    v@ == SpecJson::Arr(crate::json::views_of_values(items@)),
                    forall|i: int|
                        0 <= i < j ==> items@[i]@ == SpecJson::Str(#[trigger] out@[i]@),
                decreases items@.len() - j,
            {
                match &items[j] {
                    JsonValue::Str(s) => {
                        out.push(s.clone());
                    },
                    _ => {
                        proof {
                            let es = crate::json::views_of_values(items@);
                            assert(es[j as int] == items@[j as int]@);
                            if spec_is_text_arr(v@) {
                                assert(v@ == SpecJson::Arr(es));
                                assert(spec_all_texts(es));
                                assert((j as int) < es.len());
                                assert(es[j as int] is Str);
                            }
                        }
                        return Err(JsiiClientError::FormatError(clone_json(v)));
                    },
                }
                j += 1;
            }
            proof {
                assert(forall|i: int|
                    0 <= i < items@.len() ==> crate::json::views_of_values(items@)[i] == items@[i]@);
                assert(crate::json::views_of_values(items@) =~= Seq::new(
                    out@.len(),
                    |i: int|
                        if 0 <= i < out@.len() {
                            SpecJson::Str(out@[i]@)
                        } else {
                            SpecJson::Null
                        },
                ));
            }
            Ok(out)
        },
        _ => Err(JsiiClientError::FormatError(clone_json(v))),
    }
}

/// Every element of the sequence is an integer.
pub open spec fn spec_all_numbers(es: Seq<SpecJson>) -> bool {
    forall|i: int| 0 <= i < es.len() ==> es[i] is Int
}

/// The value is an array of integers.
pub open spec fn spec_is_number_arr(v: SpecJson) -> bool {
    v matches SpecJson::Arr(es) && spec_all_numbers(es)
}

/// The model of a converted number sequence.
pub open spec fn spec_numbers_value(ns: Seq<i64>) -> SpecJson {
    SpecJson::Arr(
        Seq::new(
            ns.len(),
            |i: int|
                if 0 <= i < ns.len() {
                    SpecJson::Int(ns[i] as int)
                } else {
                    SpecJson::Null
                },
        ),
    )
}

/// The value as a number sequence: an array whose every element is an
/// integer; one element of another shape refuses the whole conversion.
pub fn to_number_seq(v: &JsonValue) -> (r: Result<Vec<i64>, JsiiClientError>)
    ensures
        r matches Ok(ns) ==> v@ == spec_numbers_value(ns@),
        r matches Err(e) ==> !spec_is_number_arr(v@) && e@ == SpecClientError::FormatError(v@),
{
    match v {
        JsonValue::Arr(items) => {
            proof {
                assert(v@ == SpecJson::Arr(crate::json::views_of_values(items@)));
            }
            let mut out: Vec<i64> = Vec::new();
            let mut j: usize = 0;
            while j < items.len()
                invariant
                    j <= items@.len(),
                    out@.len() == j,
                    v@ == SpecJson::Arr(crate::json::views_of_values(items@)),
                    forall|i: int|
                        0 <= i < j ==> items@[i]@ == SpecJson::Int(#[trigger] out@[i] as int),
                decreases items@.len() - j,
            {
                match &items[j] {
                    JsonValue::Int(n) => {
                        out.push(*n);
                    },
                    _ => {
                        proof {
                            let es = crate::json::views_of_values(items@);
                            assert(es[j as int] == items@[j as int]@);
                            if spec_is_number_arr(v@) {
                                assert(v@ == SpecJson::Arr(es));
                                assert(spec_all_numbers(es));
                                assert((j as int) < es.len());
                                assert(es[j as int] is Int);
                            }
                        }
                        return Err(JsiiClientError::FormatError(clone_json(v)));
                    },
                }
                j += 1;
            }
            proof {
                assert(forall|i: int|
                    0 <= i < items@.len() ==> crate::json::views_of_values(items@)[i] == items@[i]@);
                assert(crate::json::views_of_values(items@) =~= Seq::new(
                    out@.len(),
                    |i: int|
                        if 0 <= i < out@.len() {
                            SpecJson::Int(out@[i] as int)
                        } else {
                            SpecJson::Null
                        },
                ));
            }
            Ok(out)
        },
        _ => Err(JsiiClientError::FormatError(clone_json(v))),
    }
}

/// The value as an optional text sequence: null is the empty case.
pub fn to_opt_text_seq(v: &JsonValue) -> (r: Result<Option<Vec<String>>, JsiiClientError>)
    ensures
        r matches Ok(o) ==> (match o {
            None => v@ == SpecJson::Null,
            Some(ss) => v@ == spec_texts_value(ss@),
        }),
        r matches Err(e) ==> !(v@ is Null) && !spec_is_text_arr(v@) && e@
            == SpecClientError::FormatError(v@),
{
    match v {
        JsonValue::Null => Ok(None),
        _ => match to_text_seq(v) {
            Ok(ss) => Ok(Some(ss)),
            Err(e) => Err(e),
        },
    }
}

impl JsiiInvokeResponse {
    /// The invocation's result as a number.
    pub fn to_number(&self) -> (r: Result<i64, JsiiClientError>)
        ensures
            r matches Ok(n) ==> self.result@ == SpecJson::Int(n as int),
            r matches Err(e) ==> !(self.result@ is Int) && e@ == SpecClientError::FormatError(
                self.result@,
            ),
    {
        to_number(&self.result)
    }

    /// The invocation's result as text.
    pub fn to_text(&self) -> (r: Result<String, JsiiClientError>)
        ensures
            r matches Ok(s) ==> self.result@ == SpecJson::Str(s@),
            r matches Err(e) ==> !(self.result@ is Str) && e@ == SpecClientError::FormatError(
                self.result@,
            ),
    {
        to_text(&self.result)
    }

    /// The invocation's result as nothing, for void methods.
    pub fn to_unit(&self) -> (r: Result<(), JsiiClientError>)
        ensures
            r is Ok ==> self.result@ == SpecJson::Null,
            r matches Err(e) ==> !(self.result@ is Null) && e@ == SpecClientError::FormatError(
                self.result@,
            ),
    {
        to_unit(&self.result)
    }
}

impl JsiiGetResponse {
    /// The property's value as a number.
    pub fn to_number(&self) -> (r: Result<i64, JsiiClientError>)
        ensures
            r matches Ok(n) ==> self.value@ == SpecJson::Int(n as int),
            r matches Err(e) ==> !(self.value@ is Int) && e@ == SpecClientError::FormatError(
                self.value@,
            ),
    {
        to_number(&self.value)
    }

    /// The property's value as text.
    pub fn to_text(&self) -> (r: Result<String, JsiiClientError>)
        ensures
            r matches Ok(s) ==> self.value@ == SpecJson::Str(s@),
            r matches Err(e) ==> !(self.value@ is Str) && e@ == SpecClientError::FormatError(
                self.value@,
            ),
    {
        to_text(&self.value)
    }

    /// The property's value as a boolean.
    pub fn to_boolean(&self) -> (r: Result<bool, JsiiClientError>)
        ensures
            r matches Ok(b) ==> self.value@ == SpecJson::Bool(b),
            r matches Err(e) ==> !(self.value@ is Bool) && e@ == SpecClientError::FormatError(
                self.value@,
            ),
    {
        to_boolean(&self.value)
    }

    /// The property's value as optional text.
    pub fn to_opt_text(&self) -> (r: Result<Option<String>, JsiiClientError>)
        ensures
            r matches Ok(o) ==> (match o {
                None => self.value@ == SpecJson::Null,
                Some(s) => self.value@ == SpecJson::Str(s@),
            }),
            r matches Err(e) ==> !(self.value@ is Null) && !(self.value@ is Str) && e@
                == SpecClientError::FormatError(self.value@),
    {
        to_opt_text(&self.value)
    }

    /// The property's value as a text sequence.
    pub fn to_text_seq(&self) -> (r: Result<Vec<String>, JsiiClientError>)
        ensures
            r matches Ok(ss) ==> self.value@ == spec_texts_value(ss@),
            r matches Err(e) ==> !spec_is_text_arr(self.value@) && e@
                == SpecClientError::FormatError(self.value@),
    {
        to_text_seq(&self.value)
    }

    /// The property's value as a number sequence.
    pub fn to_number_seq(&self) -> (r: Result<Vec<i64>, JsiiClientError>)
        ensures
            r matches Ok(ns) ==> self.value@ == spec_numbers_value(ns@),
            r matches Err(e) ==> !spec_is_number_arr(self.value@) && e@
                == SpecClientError::FormatError(self.value@),
    {
        to_number_seq(&self.value)
    }

    /// The property's value as an optional text sequence.
    pub fn to_opt_text_seq(&self) -> (r: Result<Option<Vec<String>>, JsiiClientError>)
        ensures
            r matches Ok(o) ==> (match o {
                None => self.value@ == SpecJson::Null,
                Some(ss) => self.value@ == spec_texts_value(ss@),
            }),
            r matches Err(e) ==> !(self.value@ is Null) && !spec_is_text_arr(self.value@) && e@
                == SpecClientError::FormatError(self.value@),
    {
        to_opt_text_seq(&self.value)
    }
}

} // verus!
