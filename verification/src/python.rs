//! The Python host: building its objects from host values.
//!
//! The interpreter's types and constructors are taken on trust. Each function
//! marked `external_body` below is one call into `pyo3`, and its contract says
//! what the object that comes back holds. A constructor unwinds only where
//! the interpreter is out of memory. What is proved is the walk over the host
//! value: that the object built mirrors the value node for node, and that a
//! refusal of the interpreter is passed on as it is.

use crate::error::BridgeError;
use crate::host::{assigned, lemma_settled_unique, put, HostModel, HostValue};
use pyo3::types::{PyAny, PyBool, PyDict, PyInt, PyList, PyString};
use pyo3::types::{PyDictMethods, PyListMethods};
use pyo3::{Bound, PyErr, Python};
use std::fmt::Write;
use vstd::prelude::*;

verus! {

/// `pyo3::Python`: the token that shows that the thread is attached to the
/// interpreter.
#[verifier::external_type_specification]
#[verifier::external_body]
pub struct ExPython<'py>(Python<'py>);

/// `pyo3::Bound`: an owning reference to an object of the interpreter, tied
/// to the token's lifetime.
#[verifier::external_type_specification]
#[verifier::external_body]
#[verifier::reject_recursive_types(T)]
pub struct ExBound<'py, T>(Bound<'py, T>);

/// `pyo3::types::PyAny`: any object of the interpreter.
#[verifier::external_type_specification]
#[verifier::external_body]
pub struct ExPyAny(PyAny);

/// `pyo3::types::PyList`: the interpreter's `list`.
#[verifier::external_type_specification]
#[verifier::external_body]
pub struct ExPyList(PyList);

/// `pyo3::types::PyDict`: the interpreter's `dict`.
#[verifier::external_type_specification]
#[verifier::external_body]
pub struct ExPyDict(PyDict);

/// `pyo3::PyErr`: an exception raised by the interpreter.
#[verifier::external_type_specification]
#[verifier::external_body]
pub struct ExPyErr(PyErr);

/// The host value that a Python object holds when it is handed over.
pub uninterp spec fn object_model(object: Bound<'_, PyAny>) -> HostModel;

/// The items that a Python `list` holds, in order.
pub uninterp spec fn list_model(list: Bound<'_, PyList>) -> Seq<HostModel>;

/// The entries that a Python `dict` with `str` keys holds, in insertion
/// order.
pub uninterp spec fn dict_model(dict: Bound<'_, PyDict>) -> Seq<(Seq<char>, HostModel)>;

/// Calls `PyBool::new`: the interpreter's `True` or `False`.
#[verifier::external_body]
fn python_bool<'py>(py: Python<'py>, value: bool) -> (object: Bound<'py, PyAny>)
    ensures
        object_model(object) == HostModel::Bool(value),
{
    PyBool::new(py, value).to_owned().into_any()
}

/// Calls `PyInt::new`: an `int` object with the given value.
#[verifier::external_body]
fn python_int<'py>(py: Python<'py>, value: i64) -> (object: Bound<'py, PyAny>)
    ensures
        object_model(object) == HostModel::Int(value as int),
{
    PyInt::new(py, value).into_any()
}

/// Calls `PyString::new`: a `str` object with the given text.
#[verifier::external_body]
fn python_str<'py>(py: Python<'py>, text: &str) -> (object: Bound<'py, PyAny>)
    ensures
        object_model(object) == HostModel::Str(text@),
{
    PyString::new(py, text).into_any()
}

/// Calls `Python::None`: the interpreter's `None`.
#[verifier::external_body]
fn python_none<'py>(py: Python<'py>) -> (object: Bound<'py, PyAny>)
    ensures
        object_model(object) == HostModel::Absent,
{
    py.None().into_bound(py)
}

/// Calls `PyList::empty`: a new `list` without items.
#[verifier::external_body]
fn new_list<'py>(py: Python<'py>) -> (list: Bound<'py, PyList>)
    ensures
        list_model(list) == Seq::<HostModel>::empty(),
{
    PyList::empty(py)
}

/// Calls `append` on a `list`: where the interpreter accepts, the item has
/// gone to the end. Nothing is said of the list after a refusal. The list is
/// taken by unique reference so that the contract can speak of it before and
/// after.
#[verifier::external_body]
fn list_append<'py>(list: &mut Bound<'py, PyList>, item: Bound<'py, PyAny>) -> (done: Result<
    (),
    PyErr,
>)
    ensures
        done is Ok ==> list_model(*final(list)) == list_model(*old(list)).push(object_model(item)),
{
    list.append(item)
}

/// Calls `into_any` on a `list`: the same object, seen as any object.
#[verifier::external_body]
fn list_object<'py>(list: Bound<'py, PyList>) -> (object: Bound<'py, PyAny>)
    ensures
        object_model(object) == HostModel::List(list_model(list)),
{
    list.into_any()
}

/// Calls `PyDict::new`: a new `dict` without entries.
#[verifier::external_body]
fn new_dict<'py>(py: Python<'py>) -> (dict: Bound<'py, PyDict>)
    ensures
        dict_model(dict) == Seq::<(Seq<char>, HostModel)>::empty(),
{
    PyDict::new(py)
}

/// Calls `set_item` on a `dict`, with a `str` key: where the interpreter
/// accepts, the statement `dict[key] = value` has been carried out. Nothing
/// is said of the dictionary after a refusal. The dictionary is taken by
/// unique reference so that the contract can speak of it before and after.
#[verifier::external_body]
fn dict_set_item<'py>(dict: &mut Bound<'py, PyDict>, key: &str, value: Bound<'py, PyAny>) -> (done:
    Result<(), PyErr>)
    ensures
        done is Ok ==> dict_model(*final(dict)) == put(
            dict_model(*old(dict)),
            key@,
            object_model(value),
        ),
{
    dict.set_item(key, value)
}

/// Calls `into_any` on a `dict`: the same object, seen as any object.
#[verifier::external_body]
fn dict_object<'py>(dict: Bound<'py, PyDict>) -> (object: Bound<'py, PyAny>)
    ensures
        object_model(object) == HostModel::Dict(dict_model(dict)),
{
    dict.into_any()
}

/// Writes an exception into a string through its `Display`: the
/// interpreter's own description, as far as the exception can be written.
#[verifier::external_body]
fn error_text(error: &PyErr) -> String {
    let mut text = String::new();
    let _ = write!(text, "{}", error);
    text
}

/// `float_object` can be called on every bit pattern.
pub open spec fn takes_all_bits<'py, F: Fn(u64) -> Bound<'py, PyAny>>(float_object: &F) -> bool {
    forall|bits: u64| call_requires(float_object, (bits,))
}

/// Whatever `float_object` returns for a bit pattern holds the float with
/// that bit pattern.
pub open spec fn builds_floats<'py, F: Fn(u64) -> Bound<'py, PyAny>>(float_object: &F) -> bool {
    forall|bits: u64, object: Bound<'py, PyAny>|
        call_ensures(float_object, (bits,), object) ==> object_model(object) == HostModel::Float(
            bits,
        )
}

/// Builds the Python object for a host value: `bool`, `int`, `float`, `str`,
/// `None`, `list` or `dict`, children first and in order.
///
/// The library holds a float by its bit pattern, so the caller supplies
/// `float_object`, which builds the `float` object for a bit pattern. What
/// is said of the object built holds where `float_object` does that, and for
/// every value in which no float stands.
///
/// A value without children is always built. A list or a dictionary with
/// children is built unless the interpreter refuses an `append` or a
/// `set_item`; the refusal is passed on with the interpreter's own words, and
/// no partial object is returned. The object built holds the value as the
/// host settles it, which for a value that holds no key twice is the value
/// itself, node for node.
pub fn to_python<'py, F: Fn(u64) -> Bound<'py, PyAny>>(
    py: Python<'py>,
    value: &HostValue,
    float_object: &F,
) -> (built: Result<Bound<'py, PyAny>, BridgeError>)
    requires
        takes_all_bits(float_object),
    ensures
        value@.children().len() == 0 ==> built is Ok,
        match built {
            Ok(object) => builds_floats(float_object) || !value@.holds_float() ==> {
                &&& object_model(object) == value@.settled()
                &&& value@.keys_unique() ==> object_model(object) == value@
            },
            Err(error) => error@ is HostConversion,
        },
    decreases value,
{
    proof {
        if value@.keys_unique() {
            lemma_settled_unique(value@);
        }
    }
    match value {
        HostValue::Bool(b) => Ok(python_bool(py, *b)),
        HostValue::Int(i) => Ok(python_int(py, *i)),
        HostValue::Float(bits) => Ok(float_object(*bits)),
        HostValue::Str(text) => Ok(python_str(py, text.as_str())),
        HostValue::Absent => Ok(python_none(py)),
        HostValue::List(items) => {
            let mut list = new_list(py);
            let mut i: usize = 0;
            while i < items.len()
                invariant
                    i <= items.len(),
                    value is List,
                    value->List_0 == *items,
                    takes_all_bits(float_object),
                    builds_floats(float_object) || !value@.holds_float() ==> list_model(list)
                        == value@.settled()->List_0.take(i as int),
                decreases items.len() - i,
            {
                proof {
                    assert(decreases_to!(*value => value->List_0));
                    assert(decreases_to!(*items => items[i as int]));
                }
                let item = match to_python(py, &items[i], float_object) {
                    Ok(item) => item,
                    Err(error) => {
                        return Err(error);
                    },
                };
                match list_append(&mut list, item) {
                    Ok(()) => {},
                    Err(error) => {
                        return Err(BridgeError::HostConversion(error_text(&error)));
                    },
                }
                proof {
                    let held = value@.settled()->List_0;
                    assert(value@->List_0[i as int] == items@[i as int]@);
                    assert(held[i as int] == items@[i as int]@.settled());
                    assert(held.take(i as int).push(held[i as int]) =~= held.take(i + 1));
                }
                i = i + 1;
            }
            proof {
                let held = value@.settled()->List_0;
                assert(held.take(i as int) =~= held);
            }
            Ok(list_object(list))
        },
        HostValue::Dict(entries) => {
            let mut dict = new_dict(py);
            let mut i: usize = 0;
            while i < entries.len()
                invariant
                    i <= entries.len(),
                    value is Dict,
                    value->Dict_0 == *entries,
                    takes_all_bits(float_object),
                    builds_floats(float_object) || !value@.holds_float() ==> dict_model(dict)
                        == assigned(value@->Dict_0, i as nat),
                decreases entries.len() - i,
            {
                proof {
                    assert(decreases_to!(*value => value->Dict_0));
                    assert(decreases_to!(*entries => entries[i as int]));
                    assert(decreases_to!(entries[i as int] => entries[i as int].1));
                }
                let entry = &entries[i];
                let item = match to_python(py, &entry.1, float_object) {
                    Ok(item) => item,
                    Err(error) => {
                        return Err(error);
                    },
                };
                match dict_set_item(&mut dict, entry.0.as_str(), item) {
                    Ok(()) => {},
                    Err(error) => {
                        return Err(BridgeError::HostConversion(error_text(&error)));
                    },
                }
                proof {
                    let held = value@->Dict_0;
                    assert(held[i as int] == (entries@[i as int].0@, entries@[i as int].1@));
                }
                i = i + 1;
            }
            Ok(dict_object(dict))
        },
    }
}

} // verus!
