//! Reading typed values out of JSON values.

use vstd::prelude::*;

use super::parse_error::{ParseError, ParseErrorKind, ParseFailure, ParseResult};
use super::path::{valid_key, Path};
use super::value::{Number, Object, Value};

verus! {

/// Whether a parse result is the one that the specification gives: the
/// parsed value (seen through its deep view) or the failure.
pub open spec fn parse_agrees<T: DeepView>(
    parsed: ParseResult<T>,
    expected: Result<T::V, ParseFailure>,
) -> bool {
    match parsed {
        Ok(v) => expected == Ok::<T::V, ParseFailure>(v.deep_view()),
        Err(e) => expected == Err::<T::V, ParseFailure>(e@),
    }
}

/// A type that can be read out of a JSON value.
pub trait FromValue: Sized + DeepView {
    /// How error reports name the type.
    spec fn spec_type_label() -> Seq<char>;

    /// How error reports name the type.
    fn type_label() -> (label: String)
        ensures
            label@ == Self::spec_type_label(),
    ;

    /// What reading a value of the type out of the JSON value gives.
    spec fn spec_from_value(value: Value) -> Result<<Self as DeepView>::V, ParseFailure>;

    /// Reads a value of the type out of the JSON value.
    fn from_value(value: Value) -> (parsed: ParseResult<Self>)
        ensures
            parse_agrees(parsed, Self::spec_from_value(value)),
    ;
}

/// The failure of finding a JSON value of another type than the one with
/// the label.
pub open spec fn labeled_failure(label: Seq<char>) -> ParseFailure {
    ParseFailure { kind: ParseErrorKind::UnexpectedType, path: Seq::empty(), expected: label }
}

/// The failure of finding a JSON value of another type than `T` expects.
pub open spec fn type_failure<T: FromValue>() -> ParseFailure {
    labeled_failure(T::spec_type_label())
}

/// The result of finding a JSON value of another type than the one with the
/// label.
fn labeled_type_err<T>(label: String) -> (parsed: ParseResult<T>)
    ensures
        parsed matches Err(e) && e@ == labeled_failure(label@),
{
    Err(ParseError { kind: ParseErrorKind::UnexpectedType, path: Path::new(), expected: label })
}

/// The error of finding a JSON value of another type than `T` expects.
pub fn parse_type_err<T: FromValue>() -> (error: ParseError)
    ensures
        error@ == type_failure::<T>(),
{
    ParseError { kind: ParseErrorKind::UnexpectedType, path: Path::new(), expected: T::type_label() }
}

/// The result of finding a JSON value of another type than `T` expects.
pub fn parse_type_err_res<T: FromValue>() -> (parsed: ParseResult<T>)
    ensures
        parsed matches Err(e) && e@ == type_failure::<T>(),
{
    Err(parse_type_err::<T>())
}

/// `"prefix" + label + "suffix"`, for the labels of generic types.
fn wrap_label(prefix: &str, label: String, suffix: &str) -> (text: String)
    ensures
        text@ == prefix@ + label@ + suffix@,
{
    let mut text = String::from_str(prefix);
    text.append(label.as_str());
    text.append(suffix);
    text
}

// Helpers

/// What taking the key out of the object and reading its value gives:
/// `None` when the key is absent, and a failure placed under the key when
/// reading fails.
pub open spec fn spec_take_optional<T: FromValue>(object: Map<Seq<char>, Value>, key: Seq<char>) -> Result<
    Option<T::V>,
    ParseFailure,
> {
    if object.contains_key(key) {
        match T::spec_from_value(object[key]) {
            Ok(v) => Ok(Some(v)),
            Err(e) => Err(e.lifted(key)),
        }
    } else {
        Ok(None)
    }
}

/// The failure of a required key that the object lacks.
pub open spec fn absent_failure(key: Seq<char>) -> ParseFailure {
    ParseFailure { kind: ParseErrorKind::FieldAbsent, path: Seq::empty(), expected: key }
}

/// What taking the required key out of the object and reading its value
/// gives.
pub open spec fn spec_take<T: FromValue>(object: Map<Seq<char>, Value>, key: Seq<char>) -> Result<
    T::V,
    ParseFailure,
> {
    match spec_take_optional::<T>(object, key) {
        Ok(Some(v)) => Ok(v),
        Ok(None) => Err(absent_failure(key)),
        Err(e) => Err(e),
    }
}

/// Reading the key's value would fail.
pub open spec fn take_fails<T: FromValue>(object: Map<Seq<char>, Value>, key: Seq<char>) -> bool {
    object.contains_key(key) && T::spec_from_value(object[key]) is Err
}

/// Takes the key out of the object and reads its value, if the key is there.
/// A failure is reported under the key, which then must hold no delimiter.
pub fn try_take_optional_key<T: FromValue>(object: &mut Object, key: &str) -> (taken: ParseResult<
    Option<T>,
>)
    requires
        take_fails::<T>(old(object)@, key@) ==> valid_key(key@),
    ensures
        final(object)@ == old(object)@.remove(key@),
        parse_agrees(taken, spec_take_optional::<T>(old(object)@, key@)),
{
    match object.remove(key) {
        Some(value) => match T::from_value(value) {
            Ok(v) => Ok(Some(v)),
            Err(e) => Err(e.lift(key)),
        },
        None => Ok(None),
    }
}

/// Takes the required key out of the object and reads its value.
pub fn try_take_key<T: FromValue>(object: &mut Object, key: &str) -> (taken: ParseResult<T>)
    requires
        take_fails::<T>(old(object)@, key@) ==> valid_key(key@),
    ensures
        final(object)@ == old(object)@.remove(key@),
        parse_agrees(taken, spec_take::<T>(old(object)@, key@)),
{
    match try_take_optional_key::<T>(object, key) {
        Ok(Some(v)) => Ok(v),
        Ok(None) => Err(
            ParseError {
                kind: ParseErrorKind::FieldAbsent,
                path: Path::new(),
                expected: String::from_str(key),
            },
        ),
        Err(e) => Err(e),
    }
}

// Basic

impl FromValue for Value {
    open spec fn spec_type_label() -> Seq<char> {
        "serde_json::value::Value"@
    }

    fn type_label() -> (label: String) {
        String::from_str("serde_json::value::Value")
    }

    open spec fn spec_from_value(value: Value) -> Result<Value, ParseFailure> {
        Ok(value)
    }

    fn from_value(value: Value) -> (parsed: ParseResult<Self>) {
        Ok(value)
    }
}

impl FromValue for () {
    open spec fn spec_type_label() -> Seq<char> {
        "()"@
    }

    fn type_label() -> (label: String) {
        String::from_str("()")
    }

    open spec fn spec_from_value(value: Value) -> Result<(), ParseFailure> {
        match value {
            Value::Null => Ok(()),
            _ => Err(labeled_failure(Self::spec_type_label())),
        }
    }

    fn from_value(value: Value) -> (parsed: ParseResult<Self>) {
        match value {
            Value::Null => Ok(()),
            _ => labeled_type_err(Self::type_label()),
        }
    }
}

impl FromValue for bool {
    open spec fn spec_type_label() -> Seq<char> {
        "bool"@
    }

    fn type_label() -> (label: String) {
        String::from_str("bool")
    }

    open spec fn spec_from_value(value: Value) -> Result<bool, ParseFailure> {
        match value {
            Value::Bool(b) => Ok(b),
            _ => Err(labeled_failure(Self::spec_type_label())),
        }
    }

    fn from_value(value: Value) -> (parsed: ParseResult<Self>) {
        match value {
            Value::Bool(b) => Ok(b),
            _ => labeled_type_err(Self::type_label()),
        }
    }
}

impl FromValue for String {
    open spec fn spec_type_label() -> Seq<char> {
        "alloc::string::String"@
    }

    fn type_label() -> (label: String) {
        String::from_str("alloc::string::String")
    }

    open spec fn spec_from_value(value: Value) -> Result<Seq<char>, ParseFailure> {
        match value {
            Value::String(s) => Ok(s@),
            _ => Err(labeled_failure(Self::spec_type_label())),
        }
    }

    fn from_value(value: Value) -> (parsed: ParseResult<Self>) {
        match value {
            Value::String(s) => Ok(s),
            _ => labeled_type_err(Self::type_label()),
        }
    }
}

impl FromValue for Object {
    open spec fn spec_type_label() -> Seq<char> {
        "serde_json::map::Map<alloc::string::String, serde_json::value::Value>"@
    }

    fn type_label() -> (label: String) {
        String::from_str("serde_json::map::Map<alloc::string::String, serde_json::value::Value>")
    }

    open spec fn spec_from_value(value: Value) -> Result<Object, ParseFailure> {
        match value {
            Value::Object(o) => Ok(o),
            _ => Err(labeled_failure(Self::spec_type_label())),
        }
    }

    fn from_value(value: Value) -> (parsed: ParseResult<Self>) {
        match value {
            Value::Object(o) => Ok(o),
            _ => labeled_type_err(Self::type_label()),
        }
    }
}

// Collections

impl<T: FromValue> FromValue for Option<T> {
    open spec fn spec_type_label() -> Seq<char> {
        "core::option::Option<"@ + T::spec_type_label() + ">"@
    }

    fn type_label() -> (label: String) {
        wrap_label("core::option::Option<", T::type_label(), ">")
    }

    /// `null` reads as `None`; anything else as `T`.
    open spec fn spec_from_value(value: Value) -> Result<Option<T::V>, ParseFailure> {
        match value {
            Value::Null => Ok(None),
            _ => match T::spec_from_value(value) {
                Ok(v) => Ok(Some(v)),
                Err(e) => Err(e),
            },
        }
    }

    fn from_value(value: Value) -> (parsed: ParseResult<Self>) {
        match value {
            Value::Null => Ok(None),
            _ => match T::from_value(value) {
                Ok(v) => Ok(Some(v)),
                Err(e) => Err(e),
            },
        }
    }
}

/// Reading each value in turn: the values read, or the first failure.
pub open spec fn values_from<T: FromValue>(values: Seq<Value>) -> Result<
    Seq<T::V>,
    ParseFailure,
>
    decreases values.len(),
{
    if values.len() == 0 {
        Ok(Seq::empty())
    } else {
        match values_from::<T>(values.drop_last()) {
            Ok(read) => match T::spec_from_value(values.last()) {
                Ok(v) => Ok(read.push(v)),
                Err(e) => Err(e),
            },
            Err(e) => Err(e),
        }
    }
}

/// A failure among the first `n` values is the failure of them all.
proof fn lemma_values_from_prefix_failure<T: FromValue>(values: Seq<Value>, n: int)
    requires
        0 <= n <= values.len(),
        values_from::<T>(values.take(n)) is Err,
    ensures
        values_from::<T>(values) == values_from::<T>(values.take(n)),
    decreases values.len() - n,
{
    if n < values.len() {
        assert(values.take(n + 1).drop_last() =~= values.take(n));
        lemma_values_from_prefix_failure::<T>(values, n + 1);
    } else {
        assert(values.take(n) =~= values);
    }
}

impl<T: FromValue> FromValue for Vec<T> {
    open spec fn spec_type_label() -> Seq<char> {
        "alloc::vec::Vec<"@ + T::spec_type_label() + ">"@
    }

    fn type_label() -> (label: String) {
        wrap_label("alloc::vec::Vec<", T::type_label(), ">")
    }

    /// An array reads element by element; the first failure is the result.
    open spec fn spec_from_value(value: Value) -> Result<Seq<T::V>, ParseFailure> {
        match value {
            Value::Array(a) => values_from::<T>(a@),
            _ => Err(labeled_failure(Self::spec_type_label())),
        }
    }

    fn from_value(value: Value) -> (parsed: ParseResult<Self>) {
        match value {
            Value::Array(array) => {
                let ghost values = array@;
                let mut read: Vec<T> = Vec::new();
                proof {
                    assert(values.take(0) =~= Seq::<Value>::empty());
                    assert(read.deep_view() =~= Seq::<T::V>::empty());
                }
                for item in it: array.into_iter()
                    invariant
                        it.seq() == values,
                        Self::spec_from_value(value) == values_from::<T>(values),
                        values_from::<T>(values.take(it.index() as int)) == Ok::<
                            Seq<T::V>,
                            ParseFailure,
                        >(read.deep_view()),
                {
                    let ghost i = it.index() as int;
                    proof {
                        assert(item == values[i]);
                        assert(values.take(i + 1).drop_last() =~= values.take(i));
                        assert(values.take(i + 1).last() == values[i]);
                    }
                    match T::from_value(item) {
                        Ok(v) => {
                            let ghost before = read.deep_view();
                            read.push(v);
                            proof {
                                assert(read.deep_view() =~= before.push(v.deep_view()));
                            }
                        },
                        Err(e) => {
                            proof {
                                assert(values_from::<T>(values.take(i + 1)) == Err::<
                                    Seq<T::V>,
                                    ParseFailure,
                                >(e@));
                                lemma_values_from_prefix_failure::<T>(values, i + 1);
                            }
                            return Err(e);
                        },
                    }
                }
                proof {
                    assert(values.take(values.len() as int) =~= values);
                }
                Ok(read)
            },
            _ => labeled_type_err(Self::type_label()),
        }
    }
}


// Tuples

impl<A: FromValue, B: FromValue> FromValue for (A, B) {
    open spec fn spec_type_label() -> Seq<char> {
        "("@ + A::spec_type_label() + ", "@ + B::spec_type_label() + ")"@
    }

    fn type_label() -> (label: String) {
        let mut label = String::from_str("(");
        label.append(A::type_label().as_str());
        label.append(", ");
        label.append(B::type_label().as_str());
        label.append(")");
        label
    }

    /// An array of exactly 2 elements, read in order; the first failure is
    /// the result.
    open spec fn spec_from_value(value: Value) -> Result<(A::V, B::V), ParseFailure> {
        match value {
            Value::Array(a) => if a@.len() != 2 {
                Err(labeled_failure("Array length is exactly 2."@))
            } else {
                match A::spec_from_value(a@[0]) {
                    Err(e) => Err(e),
                    Ok(v0) => match B::spec_from_value(a@[1]) {
                        Err(e) => Err(e),
                        Ok(v1) => Ok((v0, v1)),
                    },
                }
            },
            _ => Err(labeled_failure(Self::spec_type_label())),
        }
    }

    fn from_value(value: Value) -> (parsed: ParseResult<Self>) {
        match value {
            Value::Array(mut array) => {
                if array.len() != 2 {
                    return labeled_type_err(String::from_str("Array length is exactly 2."));
                }
                let ghost values = array@;
                let item0 = array.remove(0);
                let item1 = array.remove(0);
                proof {
                    assert(item0 == values[0]);
                    assert(item1 == values[1]);
                }
                let v0 = match A::from_value(item0) {
                    Ok(v) => v,
                    Err(e) => return Err(e),
                };
                let v1 = match B::from_value(item1) {
                    Ok(v) => v,
                    Err(e) => return Err(e),
                };
                Ok((v0, v1))
            },
            _ => labeled_type_err(Self::type_label()),
        }
    }
}

impl<A: FromValue, B: FromValue, C: FromValue> FromValue for (A, B, C) {
    open spec fn spec_type_label() -> Seq<char> {
        "("@ + A::spec_type_label() + ", "@ + B::spec_type_label() + ", "@ + C::spec_type_label() + ")"@
    }

    fn type_label() -> (label: String) {
        let mut label = String::from_str("(");
        label.append(A::type_label().as_str());
        label.append(", ");
        label.append(B::type_label().as_str());
        label.append(", ");
        label.append(C::type_label().as_str());
        label.append(")");
        label
    }

    /// An array of exactly 3 elements, read in order; the first failure is
    /// the result.
    open spec fn spec_from_value(value: Value) -> Result<(A::V, B::V, C::V), ParseFailure> {
        match value {
            Value::Array(a) => if a@.len() != 3 {
                Err(labeled_failure("Array length is exactly 3."@))
            } else {
                match A::spec_from_value(a@[0]) {
                    Err(e) => Err(e),
                    Ok(v0) => match B::spec_from_value(a@[1]) {
                        Err(e) => Err(e),
                        Ok(v1) => match C::spec_from_value(a@[2]) {
                            Err(e) => Err(e),
                            Ok(v2) => Ok((v0, v1, v2)),
                        },
                    },
                }
            },
            _ => Err(labeled_failure(Self::spec_type_label())),
        }
    }

    fn from_value(value: Value) -> (parsed: ParseResult<Self>) {
        match value {
            Value::Array(mut array) => {
                if array.len() != 3 {
                    return labeled_type_err(String::from_str("Array length is exactly 3."));
                }
                let ghost values = array@;
                let item0 = array.remove(0);
                let item1 = array.remove(0);
                let item2 = array.remove(0);
                proof {
                    assert(item0 == values[0]);
                    assert(item1 == values[1]);
                    assert(item2 == values[2]);
                }
                let v0 = match A::from_value(item0) {
                    Ok(v) => v,
                    Err(e) => return Err(e),
                };
                let v1 = match B::from_value(item1) {
                    Ok(v) => v,
                    Err(e) => return Err(e),
                };
                let v2 = match C::from_value(item2) {
                    Ok(v) => v,
                    Err(e) => return Err(e),
                };
                Ok((v0, v1, v2))
            },
            _ => labeled_type_err(Self::type_label()),
        }
    }
}

impl<A: FromValue, B: FromValue, C: FromValue, D: FromValue> FromValue for (A, B, C, D) {
    open spec fn spec_type_label() -> Seq<char> {
        "("@ + A::spec_type_label() + ", "@ + B::spec_type_label() + ", "@ + C::spec_type_label() + ", "@ + D::spec_type_label() + ")"@
    }

    fn type_label() -> (label: String) {
        let mut label = String::from_str("(");
        label.append(A::type_label().as_str());
        label.append(", ");
        label.append(B::type_label().as_str());
        label.append(", ");
        label.append(C::type_label().as_str());
        label.append(", ");
        label.append(D::type_label().as_str());
        label.append(")");
        label
    }

    /// An array of exactly 4 elements, read in order; the first failure is
    /// the result.
    open spec fn spec_from_value(value: Value) -> Result<(A::V, B::V, C::V, D::V), ParseFailure> {
        match value {
            Value::Array(a) => if a@.len() != 4 {
                Err(labeled_failure("Array length is exactly 4."@))
            } else {
                match A::spec_from_value(a@[0]) {
                    Err(e) => Err(e),
                    Ok(v0) => match B::spec_from_value(a@[1]) {
                        Err(e) => Err(e),
                        Ok(v1) => match C::spec_from_value(a@[2]) {
                            Err(e) => Err(e),
                            Ok(v2) => match D::spec_from_value(a@[3]) {
                                Err(e) => Err(e),
                                Ok(v3) => Ok((v0, v1, v2, v3)),
                            },
                        },
                    },
                }
            },
            _ => Err(labeled_failure(Self::spec_type_label())),
        }
    }

    fn from_value(value: Value) -> (parsed: ParseResult<Self>) {
        match value {
            Value::Array(mut array) => {
                if array.len() != 4 {
                    return labeled_type_err(String::from_str("Array length is exactly 4."));
                }
                let ghost values = array@;
                let item0 = array.remove(0);
                let item1 = array.remove(0);
                let item2 = array.remove(0);
                let item3 = array.remove(0);
                proof {
                    assert(item0 == values[0]);
                    assert(item1 == values[1]);
                    assert(item2 == values[2]);
                    assert(item3 == values[3]);
                }
                let v0 = match A::from_value(item0) {
                    Ok(v) => v,
                    Err(e) => return Err(e),
                };
                let v1 = match B::from_value(item1) {
                    Ok(v) => v,
                    Err(e) => return Err(e),
                };
                let v2 = match C::from_value(item2) {
                    Ok(v) => v,
                    Err(e) => return Err(e),
                };
                let v3 = match D::from_value(item3) {
                    Ok(v) => v,
                    Err(e) => return Err(e),
                };
                Ok((v0, v1, v2, v3))
            },
            _ => labeled_type_err(Self::type_label()),
        }
    }
}

impl<A: FromValue, B: FromValue, C: FromValue, D: FromValue, E: FromValue> FromValue for (A, B, C, D, E) {
    open spec fn spec_type_label() -> Seq<char> {
        "("@ + A::spec_type_label() + ", "@ + B::spec_type_label() + ", "@ + C::spec_type_label() + ", "@ + D::spec_type_label() + ", "@ + E::spec_type_label() + ")"@
    }

    fn type_label() -> (label: String) {
        let mut label = String::from_str("(");
        label.append(A::type_label().as_str());
        label.append(", ");
        label.append(B::type_label().as_str());
        label.append(", ");
        label.append(C::type_label().as_str());
        label.append(", ");
        label.append(D::type_label().as_str());
        label.append(", ");
        label.append(E::type_label().as_str());
        label.append(")");
        label
    }

    /// An array of exactly 5 elements, read in order; the first failure is
    /// the result.
    open spec fn spec_from_value(value: Value) -> Result<(A::V, B::V, C::V, D::V, E::V), ParseFailure> {
        match value {
            Value::Array(a) => if a@.len() != 5 {
                Err(labeled_failure("Array length is exactly 5."@))
            } else {
                match A::spec_from_value(a@[0]) {
                    Err(e) => Err(e),
                    Ok(v0) => match B::spec_from_value(a@[1]) {
                        Err(e) => Err(e),
                        Ok(v1) => match C::spec_from_value(a@[2]) {
                            Err(e) => Err(e),
                            Ok(v2) => match D::spec_from_value(a@[3]) {
                                Err(e) => Err(e),
                                Ok(v3) => match E::spec_from_value(a@[4]) {
                                    Err(e) => Err(e),
                                    Ok(v4) => Ok((v0, v1, v2, v3, v4)),
                                },
                            },
                        },
                    },
                }
            },
            _ => Err(labeled_failure(Self::spec_type_label())),
        }
    }

    fn from_value(value: Value) -> (parsed: ParseResult<Self>) {
        match value {
            Value::Array(mut array) => {
                if array.len() != 5 {
                    return labeled_type_err(String::from_str("Array length is exactly 5."));
                }
                let ghost values = array@;
                let item0 = array.remove(0);
                let item1 = array.remove(0);
                let item2 = array.remove(0);
                let item3 = array.remove(0);
                let item4 = array.remove(0);
                proof {
                    assert(item0 == values[0]);
                    assert(item1 == values[1]);
                    assert(item2 == values[2]);
                    assert(item3 == values[3]);
                    assert(item4 == values[4]);
                }
                let v0 = match A::from_value(item0) {
                    Ok(v) => v,
                    Err(e) => return Err(e),
                };
                let v1 = match B::from_value(item1) {
                    Ok(v) => v,
                    Err(e) => return Err(e),
                };
                let v2 = match C::from_value(item2) {
                    Ok(v) => v,
                    Err(e) => return Err(e),
                };
                let v3 = match D::from_value(item3) {
                    Ok(v) => v,
                    Err(e) => return Err(e),
                };
                let v4 = match E::from_value(item4) {
                    Ok(v) => v,
                    Err(e) => return Err(e),
                };
                Ok((v0, v1, v2, v3, v4))
            },
            _ => labeled_type_err(Self::type_label()),
        }
    }
}

impl<A: FromValue, B: FromValue, C: FromValue, D: FromValue, E: FromValue, F: FromValue> FromValue for (A, B, C, D, E, F) {
    open spec fn spec_type_label() -> Seq<char> {
        "("@ + A::spec_type_label() + ", "@ + B::spec_type_label() + ", "@ + C::spec_type_label() + ", "@ + D::spec_type_label() + ", "@ + E::spec_type_label() + ", "@ + F::spec_type_label() + ")"@
    }

    fn type_label() -> (label: String) {
        let mut label = String::from_str("(");
        label.append(A::type_label().as_str());
        label.append(", ");
        label.append(B::type_label().as_str());
        label.append(", ");
        label.append(C::type_label().as_str());
        label.append(", ");
        label.append(D::type_label().as_str());
        label.append(", ");
        label.append(E::type_label().as_str());
        label.append(", ");
        label.append(F::type_label().as_str());
        label.append(")");
        label
    }

    /// An array of exactly 6 elements, read in order; the first failure is
    /// the result.
    open spec fn spec_from_value(value: Value) -> Result<(A::V, B::V, C::V, D::V, E::V, F::V), ParseFailure> {
        match value {
            Value::Array(a) => if a@.len() != 6 {
                Err(labeled_failure("Array length is exactly 6."@))
            } else {
                match A::spec_from_value(a@[0]) {
                    Err(e) => Err(e),
                    Ok(v0) => match B::spec_from_value(a@[1]) {
                        Err(e) => Err(e),
                        Ok(v1) => match C::spec_from_value(a@[2]) {
                            Err(e) => Err(e),
                            Ok(v2) => match D::spec_from_value(a@[3]) {
                                Err(e) => Err(e),
                                Ok(v3) => match E::spec_from_value(a@[4]) {
                                    Err(e) => Err(e),
                                    Ok(v4) => match F::spec_from_value(a@[5]) {
                                        Err(e) => Err(e),
                                        Ok(v5) => Ok((v0, v1, v2, v3, v4, v5)),
                                    },
                                },
                            },
                        },
                    },
                }
            },
            _ => Err(labeled_failure(Self::spec_type_label())),
        }
    }

    fn from_value(value: Value) -> (parsed: ParseResult<Self>) {
        match value {
            Value::Array(mut array) => {
                if array.len() != 6 {
                    return labeled_type_err(String::from_str("Array length is exactly 6."));
                }
                let ghost values = array@;
                let item0 = array.remove(0);
                let item1 = array.remove(0);
                let item2 = array.remove(0);
                let item3 = array.remove(0);
                let item4 = array.remove(0);
                let item5 = array.remove(0);
                proof {
                    assert(item0 == values[0]);
                    assert(item1 == values[1]);
                    assert(item2 == values[2]);
                    assert(item3 == values[3]);
                    assert(item4 == values[4]);
                    assert(item5 == values[5]);
                }
                let v0 = match A::from_value(item0) {
                    Ok(v) => v,
                    Err(e) => return Err(e),
                };
                let v1 = match B::from_value(item1) {
                    Ok(v) => v,
                    Err(e) => return Err(e),
                };
                let v2 = match C::from_value(item2) {
                    Ok(v) => v,
                    Err(e) => return Err(e),
                };
                let v3 = match D::from_value(item3) {
                    Ok(v) => v,
                    Err(e) => return Err(e),
                };
                let v4 = match E::from_value(item4) {
                    Ok(v) => v,
                    Err(e) => return Err(e),
                };
                let v5 = match F::from_value(item5) {
                    Ok(v) => v,
                    Err(e) => return Err(e),
                };
                Ok((v0, v1, v2, v3, v4, v5))
            },
            _ => labeled_type_err(Self::type_label()),
        }
    }
}

impl<A: FromValue, B: FromValue, C: FromValue, D: FromValue, E: FromValue, F: FromValue, G: FromValue> FromValue for (A, B, C, D, E, F, G) {
    open spec fn spec_type_label() -> Seq<char> {
        "("@ + A::spec_type_label() + ", "@ + B::spec_type_label() + ", "@ + C::spec_type_label() + ", "@ + D::spec_type_label() + ", "@ + E::spec_type_label() + ", "@ + F::spec_type_label() + ", "@ + G::spec_type_label() + ")"@
    }

    fn type_label() -> (label: String) {
        let mut label = String::from_str("(");
        label.append(A::type_label().as_str());
        label.append(", ");
        label.append(B::type_label().as_str());
        label.append(", ");
        label.append(C::type_label().as_str());
        label.append(", ");
        label.append(D::type_label().as_str());
        label.append(", ");
        label.append(E::type_label().as_str());
        label.append(", ");
        label.append(F::type_label().as_str());
        label.append(", ");
        label.append(G::type_label().as_str());
        label.append(")");
        label
    }

    /// An array of exactly 7 elements, read in order; the first failure is
    /// the result.
    open spec fn spec_from_value(value: Value) -> Result<(A::V, B::V, C::V, D::V, E::V, F::V, G::V), ParseFailure> {
        match value {
            Value::Array(a) => if a@.len() != 7 {
                Err(labeled_failure("Array length is exactly 7."@))
            } else {
                match A::spec_from_value(a@[0]) {
                    Err(e) => Err(e),
                    Ok(v0) => match B::spec_from_value(a@[1]) {
                        Err(e) => Err(e),
                        Ok(v1) => match C::spec_from_value(a@[2]) {
                            Err(e) => Err(e),
                            Ok(v2) => match D::spec_from_value(a@[3]) {
                                Err(e) => Err(e),
                                Ok(v3) => match E::spec_from_value(a@[4]) {
                                    Err(e) => Err(e),
                                    Ok(v4) => match F::spec_from_value(a@[5]) {
                                        Err(e) => Err(e),
                                        Ok(v5) => match G::spec_from_value(a@[6]) {
                                            Err(e) => Err(e),
                                            Ok(v6) => Ok((v0, v1, v2, v3, v4, v5, v6)),
                                        },
                                    },
                                },
                            },
                        },
                    },
                }
            },
            _ => Err(labeled_failure(Self::spec_type_label())),
        }
    }

    fn from_value(value: Value) -> (parsed: ParseResult<Self>) {
        match value {
            Value::Array(mut array) => {
                if array.len() != 7 {
                    return labeled_type_err(String::from_str("Array length is exactly 7."));
                }
                let ghost values = array@;
                let item0 = array.remove(0);
                let item1 = array.remove(0);
                let item2 = array.remove(0);
                let item3 = array.remove(0);
                let item4 = array.remove(0);
                let item5 = array.remove(0);
                let item6 = array.remove(0);
                proof {
                    assert(item0 == values[0]);
                    assert(item1 == values[1]);
                    assert(item2 == values[2]);
                    assert(item3 == values[3]);
                    assert(item4 == values[4]);
                    assert(item5 == values[5]);
                    assert(item6 == values[6]);
                }
                let v0 = match A::from_value(item0) {
                    Ok(v) => v,
                    Err(e) => return Err(e),
                };
                let v1 = match B::from_value(item1) {
                    Ok(v) => v,
                    Err(e) => return Err(e),
                };
                let v2 = match C::from_value(item2) {
                    Ok(v) => v,
                    Err(e) => return Err(e),
                };
                let v3 = match D::from_value(item3) {
                    Ok(v) => v,
                    Err(e) => return Err(e),
                };
                let v4 = match E::from_value(item4) {
                    Ok(v) => v,
                    Err(e) => return Err(e),
                };
                let v5 = match F::from_value(item5) {
                    Ok(v) => v,
                    Err(e) => return Err(e),
                };
                let v6 = match G::from_value(item6) {
                    Ok(v) => v,
                    Err(e) => return Err(e),
                };
                Ok((v0, v1, v2, v3, v4, v5, v6))
            },
            _ => labeled_type_err(Self::type_label()),
        }
    }
}

impl<A: FromValue, B: FromValue, C: FromValue, D: FromValue, E: FromValue, F: FromValue, G: FromValue, H: FromValue> FromValue for (A, B, C, D, E, F, G, H) {
    open spec fn spec_type_label() -> Seq<char> {
        "("@ + A::spec_type_label() + ", "@ + B::spec_type_label() + ", "@ + C::spec_type_label() + ", "@ + D::spec_type_label() + ", "@ + E::spec_type_label() + ", "@ + F::spec_type_label() + ", "@ + G::spec_type_label() + ", "@ + H::spec_type_label() + ")"@
    }

    fn type_label() -> (label: String) {
        let mut label = String::from_str("(");
        label.append(A::type_label().as_str());
        label.append(", ");
        label.append(B::type_label().as_str());
        label.append(", ");
        label.append(C::type_label().as_str());
        label.append(", ");
        label.append(D::type_label().as_str());
        label.append(", ");
        label.append(E::type_label().as_str());
        label.append(", ");
        label.append(F::type_label().as_str());
        label.append(", ");
        label.append(G::type_label().as_str());
        label.append(", ");
        label.append(H::type_label().as_str());
        label.append(")");
        label
    }

    /// An array of exactly 8 elements, read in order; the first failure is
    /// the result.
    open spec fn spec_from_value(value: Value) -> Result<(A::V, B::V, C::V, D::V, E::V, F::V, G::V, H::V), ParseFailure> {
        match value {
            Value::Array(a) => if a@.len() != 8 {
                Err(labeled_failure("Array length is exactly 8."@))
            } else {
                match A::spec_from_value(a@[0]) {
                    Err(e) => Err(e),
                    Ok(v0) => match B::spec_from_value(a@[1]) {
                        Err(e) => Err(e),
                        Ok(v1) => match C::spec_from_value(a@[2]) {
                            Err(e) => Err(e),
                            Ok(v2) => match D::spec_from_value(a@[3]) {
                                Err(e) => Err(e),
                                Ok(v3) => match E::spec_from_value(a@[4]) {
                                    Err(e) => Err(e),
                                    Ok(v4) => match F::spec_from_value(a@[5]) {
                                        Err(e) => Err(e),
                                        Ok(v5) => match G::spec_from_value(a@[6]) {
                                            Err(e) => Err(e),
                                            Ok(v6) => match H::spec_from_value(a@[7]) {
                                                Err(e) => Err(e),
                                                Ok(v7) => Ok((v0, v1, v2, v3, v4, v5, v6, v7)),
                                            },
                                        },
                                    },
                                },
                            },
                        },
                    },
                }
            },
            _ => Err(labeled_failure(Self::spec_type_label())),
        }
    }

    fn from_value(value: Value) -> (parsed: ParseResult<Self>) {
        match value {
            Value::Array(mut array) => {
                if array.len() != 8 {
                    return labeled_type_err(String::from_str("Array length is exactly 8."));
                }
                let ghost values = array@;
                let item0 = array.remove(0);
                let item1 = array.remove(0);
                let item2 = array.remove(0);
                let item3 = array.remove(0);
                let item4 = array.remove(0);
                let item5 = array.remove(0);
                let item6 = array.remove(0);
                let item7 = array.remove(0);
                proof {
                    assert(item0 == values[0]);
                    assert(item1 == values[1]);
                    assert(item2 == values[2]);
                    assert(item3 == values[3]);
                    assert(item4 == values[4]);
                    assert(item5 == values[5]);
                    assert(item6 == values[6]);
                    assert(item7 == values[7]);
                }
                let v0 = match A::from_value(item0) {
                    Ok(v) => v,
                    Err(e) => return Err(e),
                };
                let v1 = match B::from_value(item1) {
                    Ok(v) => v,
                    Err(e) => return Err(e),
                };
                let v2 = match C::from_value(item2) {
                    Ok(v) => v,
                    Err(e) => return Err(e),
                };
                let v3 = match D::from_value(item3) {
                    Ok(v) => v,
                    Err(e) => return Err(e),
                };
                let v4 = match E::from_value(item4) {
                    Ok(v) => v,
                    Err(e) => return Err(e),
                };
                let v5 = match F::from_value(item5) {
                    Ok(v) => v,
                    Err(e) => return Err(e),
                };
                let v6 = match G::from_value(item6) {
                    Ok(v) => v,
                    Err(e) => return Err(e),
                };
                let v7 = match H::from_value(item7) {
                    Ok(v) => v,
                    Err(e) => return Err(e),
                };
                Ok((v0, v1, v2, v3, v4, v5, v6, v7))
            },
            _ => labeled_type_err(Self::type_label()),
        }
    }
}

impl<A: FromValue, B: FromValue, C: FromValue, D: FromValue, E: FromValue, F: FromValue, G: FromValue, H: FromValue, I: FromValue> FromValue for (A, B, C, D, E, F, G, H, I) {
    open spec fn spec_type_label() -> Seq<char> {
        "("@ + A::spec_type_label() + ", "@ + B::spec_type_label() + ", "@ + C::spec_type_label() + ", "@ + D::spec_type_label() + ", "@ + E::spec_type_label() + ", "@ + F::spec_type_label() + ", "@ + G::spec_type_label() + ", "@ + H::spec_type_label() + ", "@ + I::spec_type_label() + ")"@
    }

    fn type_label() -> (label: String) {
        let mut label = String::from_str("(");
        label.append(A::type_label().as_str());
        label.append(", ");
        label.append(B::type_label().as_str());
        label.append(", ");
        label.append(C::type_label().as_str());
        label.append(", ");
        label.append(D::type_label().as_str());
        label.append(", ");
        label.append(E::type_label().as_str());
        label.append(", ");
        label.append(F::type_label().as_str());
        label.append(", ");
        label.append(G::type_label().as_str());
        label.append(", ");
        label.append(H::type_label().as_str());
        label.append(", ");
        label.append(I::type_label().as_str());
        label.append(")");
        label
    }

    /// An array of exactly 9 elements, read in order; the first failure is
    /// the result.
    open spec fn spec_from_value(value: Value) -> Result<(A::V, B::V, C::V, D::V, E::V, F::V, G::V, H::V, I::V), ParseFailure> {
        match value {
            Value::Array(a) => if a@.len() != 9 {
                Err(labeled_failure("Array length is exactly 9."@))
            } else {
                match A::spec_from_value(a@[0]) {
                    Err(e) => Err(e),
                    Ok(v0) => match B::spec_from_value(a@[1]) {
                        Err(e) => Err(e),
                        Ok(v1) => match C::spec_from_value(a@[2]) {
                            Err(e) => Err(e),
                            Ok(v2) => match D::spec_from_value(a@[3]) {
                                Err(e) => Err(e),
                                Ok(v3) => match E::spec_from_value(a@[4]) {
                                    Err(e) => Err(e),
                                    Ok(v4) => match F::spec_from_value(a@[5]) {
                                        Err(e) => Err(e),
                                        Ok(v5) => match G::spec_from_value(a@[6]) {
                                            Err(e) => Err(e),
                                            Ok(v6) => match H::spec_from_value(a@[7]) {
                                                Err(e) => Err(e),
                                                Ok(v7) => match I::spec_from_value(a@[8]) {
                                                    Err(e) => Err(e),
                                                    Ok(v8) => Ok((v0, v1, v2, v3, v4, v5, v6, v7, v8)),
                                                },
                                            },
                                        },
                                    },
                                },
                            },
                        },
                    },
                }
            },
            _ => Err(labeled_failure(Self::spec_type_label())),
        }
    }

    fn from_value(value: Value) -> (parsed: ParseResult<Self>) {
        match value {
            Value::Array(mut array) => {
                if array.len() != 9 {
                    return labeled_type_err(String::from_str("Array length is exactly 9."));
                }
                let ghost values = array@;
                let item0 = array.remove(0);
                let item1 = array.remove(0);
                let item2 = array.remove(0);
                let item3 = array.remove(0);
                let item4 = array.remove(0);
                let item5 = array.remove(0);
                let item6 = array.remove(0);
                let item7 = array.remove(0);
                let item8 = array.remove(0);
                proof {
                    assert(item0 == values[0]);
                    assert(item1 == values[1]);
                    assert(item2 == values[2]);
                    assert(item3 == values[3]);
                    assert(item4 == values[4]);
                    assert(item5 == values[5]);
                    assert(item6 == values[6]);
                    assert(item7 == values[7]);
                    assert(item8 == values[8]);
                }
                let v0 = match A::from_value(item0) {
                    Ok(v) => v,
                    Err(e) => return Err(e),
                };
                let v1 = match B::from_value(item1) {
                    Ok(v) => v,
                    Err(e) => return Err(e),
                };
                let v2 = match C::from_value(item2) {
                    Ok(v) => v,
                    Err(e) => return Err(e),
                };
                let v3 = match D::from_value(item3) {
                    Ok(v) => v,
                    Err(e) => return Err(e),
                };
                let v4 = match E::from_value(item4) {
                    Ok(v) => v,
                    Err(e) => return Err(e),
                };
                let v5 = match F::from_value(item5) {
                    Ok(v) => v,
                    Err(e) => return Err(e),
                };
                let v6 = match G::from_value(item6) {
                    Ok(v) => v,
                    Err(e) => return Err(e),
                };
                let v7 = match H::from_value(item7) {
                    Ok(v) => v,
                    Err(e) => return Err(e),
                };
                let v8 = match I::from_value(item8) {
                    Ok(v) => v,
                    Err(e) => return Err(e),
                };
                Ok((v0, v1, v2, v3, v4, v5, v6, v7, v8))
            },
            _ => labeled_type_err(Self::type_label()),
        }
    }
}

impl<A: FromValue, B: FromValue, C: FromValue, D: FromValue, E: FromValue, F: FromValue, G: FromValue, H: FromValue, I: FromValue, J: FromValue> FromValue for (A, B, C, D, E, F, G, H, I, J) {
    open spec fn spec_type_label() -> Seq<char> {
        "("@ + A::spec_type_label() + ", "@ + B::spec_type_label() + ", "@ + C::spec_type_label() + ", "@ + D::spec_type_label() + ", "@ + E::spec_type_label() + ", "@ + F::spec_type_label() + ", "@ + G::spec_type_label() + ", "@ + H::spec_type_label() + ", "@ + I::spec_type_label() + ", "@ + J::spec_type_label() + ")"@
    }

    fn type_label() -> (label: String) {
        let mut label = String::from_str("(");
        label.append(A::type_label().as_str());
        label.append(", ");
        label.append(B::type_label().as_str());
        label.append(", ");
        label.append(C::type_label().as_str());
        label.append(", ");
        label.append(D::type_label().as_str());
        label.append(", ");
        label.append(E::type_label().as_str());
        label.append(", ");
        label.append(F::type_label().as_str());
        label.append(", ");
        label.append(G::type_label().as_str());
        label.append(", ");
        label.append(H::type_label().as_str());
        label.append(", ");
        label.append(I::type_label().as_str());
        label.append(", ");
        label.append(J::type_label().as_str());
        label.append(")");
        label
    }

    /// An array of exactly 10 elements, read in order; the first failure is
    /// the result.
    open spec fn spec_from_value(value: Value) -> Result<(A::V, B::V, C::V, D::V, E::V, F::V, G::V, H::V, I::V, J::V), ParseFailure> {
        match value {
            Value::Array(a) => if a@.len() != 10 {
                Err(labeled_failure("Array length is exactly 10."@))
            } else {
                match A::spec_from_value(a@[0]) {
                    Err(e) => Err(e),
                    Ok(v0) => match B::spec_from_value(a@[1]) {
                        Err(e) => Err(e),
                        Ok(v1) => match C::spec_from_value(a@[2]) {
                            Err(e) => Err(e),
                            Ok(v2) => match D::spec_from_value(a@[3]) {
                                Err(e) => Err(e),
                                Ok(v3) => match E::spec_from_value(a@[4]) {
                                    Err(e) => Err(e),
                                    Ok(v4) => match F::spec_from_value(a@[5]) {
                                        Err(e) => Err(e),
                                        Ok(v5) => match G::spec_from_value(a@[6]) {
                                            Err(e) => Err(e),
                                            Ok(v6) => match H::spec_from_value(a@[7]) {
                                                Err(e) => Err(e),
                                                Ok(v7) => match I::spec_from_value(a@[8]) {
                                                    Err(e) => Err(e),
                                                    Ok(v8) => match J::spec_from_value(a@[9]) {
                                                        Err(e) => Err(e),
                                                        Ok(v9) => Ok((v0, v1, v2, v3, v4, v5, v6, v7, v8, v9)),
                                                    },
                                                },
                                            },
                                        },
                                    },
                                },
                            },
                        },
                    },
                }
            },
            _ => Err(labeled_failure(Self::spec_type_label())),
        }
    }

    fn from_value(value: Value) -> (parsed: ParseResult<Self>) {
        match value {
            Value::Array(mut array) => {
                if array.len() != 10 {
                    return labeled_type_err(String::from_str("Array length is exactly 10."));
                }
                let ghost values = array@;
                let item0 = array.remove(0);
                let item1 = array.remove(0);
                let item2 = array.remove(0);
                let item3 = array.remove(0);
                let item4 = array.remove(0);
                let item5 = array.remove(0);
                let item6 = array.remove(0);
                let item7 = array.remove(0);
                let item8 = array.remove(0);
                let item9 = array.remove(0);
                proof {
                    assert(item0 == values[0]);
                    assert(item1 == values[1]);
                    assert(item2 == values[2]);
                    assert(item3 == values[3]);
                    assert(item4 == values[4]);
                    assert(item5 == values[5]);
                    assert(item6 == values[6]);
                    assert(item7 == values[7]);
                    assert(item8 == values[8]);
                    assert(item9 == values[9]);
                }
                let v0 = match A::from_value(item0) {
                    Ok(v) => v,
                    Err(e) => return Err(e),
                };
                let v1 = match B::from_value(item1) {
                    Ok(v) => v,
                    Err(e) => return Err(e),
                };
                let v2 = match C::from_value(item2) {
                    Ok(v) => v,
                    Err(e) => return Err(e),
                };
                let v3 = match D::from_value(item3) {
                    Ok(v) => v,
                    Err(e) => return Err(e),
                };
                let v4 = match E::from_value(item4) {
                    Ok(v) => v,
                    Err(e) => return Err(e),
                };
                let v5 = match F::from_value(item5) {
                    Ok(v) => v,
                    Err(e) => return Err(e),
                };
                let v6 = match G::from_value(item6) {
                    Ok(v) => v,
                    Err(e) => return Err(e),
                };
                let v7 = match H::from_value(item7) {
                    Ok(v) => v,
                    Err(e) => return Err(e),
                };
                let v8 = match I::from_value(item8) {
                    Ok(v) => v,
                    Err(e) => return Err(e),
                };
                let v9 = match J::from_value(item9) {
                    Ok(v) => v,
                    Err(e) => return Err(e),
                };
                Ok((v0, v1, v2, v3, v4, v5, v6, v7, v8, v9))
            },
            _ => labeled_type_err(Self::type_label()),
        }
    }
}

// Maps

/// Reading the value of each entry in turn: the keys with the values read,
/// or the first failure.
pub open spec fn entries_from<T: FromValue>(entries: Seq<(String, Value)>) -> Result<
    Seq<(Seq<char>, T::V)>,
    ParseFailure,
>
    decreases entries.len(),
{
    if entries.len() == 0 {
        Ok(Seq::empty())
    } else {
        match entries_from::<T>(entries.drop_last()) {
            Ok(read) => match T::spec_from_value(entries.last().1) {
                Ok(v) => Ok(read.push((entries.last().0@, v))),
                Err(e) => Err(e),
            },
            Err(e) => Err(e),
        }
    }
}

/// A failure among the first `n` entries is the failure of them all.
proof fn lemma_entries_from_prefix_failure<T: FromValue>(entries: Seq<(String, Value)>, n: int)
    requires
        0 <= n <= entries.len(),
        entries_from::<T>(entries.take(n)) is Err,
    ensures
        entries_from::<T>(entries) == entries_from::<T>(entries.take(n)),
    decreases entries.len() - n,
{
    if n < entries.len() {
        assert(entries.take(n + 1).drop_last() =~= entries.take(n));
        lemma_entries_from_prefix_failure::<T>(entries, n + 1);
    } else {
        assert(entries.take(n) =~= entries);
    }
}

/// How error reports name a map to `T` whose key type is named
/// `key_label`.
pub open spec fn map_label<T: FromValue>(key_label: Seq<char>) -> Seq<char> {
    "std::collections::hash::map::HashMap<"@ + key_label + ", "@ + T::spec_type_label() + ">"@
}

/// What reading a map to `T` out of the JSON value gives: an object reads
/// entry by entry, and the first failure is the result; another value is
/// refused, naming the map type with its key type's name.
pub open spec fn spec_map_entries_from_value<T: FromValue>(
    key_label: Seq<char>,
    value: Value,
) -> Result<
    Seq<(Seq<char>, T::V)>,
    ParseFailure,
> {
    match value {
        Value::Object(o) => entries_from::<T>(o.entries()),
        _ => Err(labeled_failure(map_label::<T>(key_label))),
    }
}

/// Reads a map to `T` out of the JSON value, as its entries in the
/// object's order; `key_label` names the map's key type in error reports.
pub fn map_entries_from_value<T: FromValue>(key_label: &str, value: Value) -> (parsed:
    ParseResult<Vec<(String, T)>>)
    ensures
        parse_agrees(parsed, spec_map_entries_from_value::<T>(key_label@, value)),
{
    match value {
        Value::Object(object) => {
            let ghost entries = object.entries();
            let mut read: Vec<(String, T)> = Vec::new();
            proof {
                assert(entries.take(0) =~= Seq::<(String, Value)>::empty());
                assert(read.deep_view() =~= Seq::<(Seq<char>, T::V)>::empty());
            }
            let all = object.into_entries();
            for entry in it: all.into_iter()
                invariant
                    it.seq() == entries,
                    spec_map_entries_from_value::<T>(key_label@, value) == entries_from::<T>(entries),
                    entries_from::<T>(entries.take(it.index() as int)) == Ok::<
                        Seq<(Seq<char>, T::V)>,
                        ParseFailure,
                    >(read.deep_view()),
            {
                let ghost i = it.index() as int;
                proof {
                    assert(entry == entries[i]);
                    assert(entries.take(i + 1).drop_last() =~= entries.take(i));
                    assert(entries.take(i + 1).last() == entries[i]);
                }
                let (key, item) = entry;
                match T::from_value(item) {
                    Ok(v) => {
                        let ghost before = read.deep_view();
                        read.push((key, v));
                        proof {
                            assert(read.deep_view() =~= before.push((key@, v.deep_view())));
                        }
                    },
                    Err(e) => {
                        proof {
                            assert(entries_from::<T>(entries.take(i + 1)) == Err::<
                                Seq<(Seq<char>, T::V)>,
                                ParseFailure,
                            >(e@));
                            lemma_entries_from_prefix_failure::<T>(entries, i + 1);
                        }
                        return Err(e);
                    },
                }
            }
            proof {
                assert(entries.take(entries.len() as int) =~= entries);
            }
            Ok(read)
        },
        _ => {
            let mut prefix = String::from_str("std::collections::hash::map::HashMap<");
            prefix.append(key_label);
            prefix.append(", ");
            let label = wrap_label(prefix.as_str(), T::type_label(), ">");
            labeled_type_err(label)
        },
    }
}

// Numeric

impl FromValue for u64 {
    open spec fn spec_type_label() -> Seq<char> {
        "u64"@
    }

    fn type_label() -> (label: String) {
        String::from_str("u64")
    }

    /// A non-negative integer.
    open spec fn spec_from_value(value: Value) -> Result<u64, ParseFailure> {
        match value {
            Value::Number(n) => match n.spec_as_u64() {
                Some(u) => Ok(u),
                None => Err(labeled_failure(Self::spec_type_label())),
            },
            _ => Err(labeled_failure(Self::spec_type_label())),
        }
    }

    fn from_value(value: Value) -> (parsed: ParseResult<Self>) {
        match value {
            Value::Number(n) => match n.as_u64() {
                Some(u) => Ok(u),
                None => labeled_type_err(Self::type_label()),
            },
            _ => labeled_type_err(Self::type_label()),
        }
    }
}

impl FromValue for i64 {
    open spec fn spec_type_label() -> Seq<char> {
        "i64"@
    }

    fn type_label() -> (label: String) {
        String::from_str("i64")
    }

    /// An integer in the range of `i64`.
    open spec fn spec_from_value(value: Value) -> Result<i64, ParseFailure> {
        match value {
            Value::Number(n) => match n.spec_as_i64() {
                Some(i) => Ok(i),
                None => Err(labeled_failure(Self::spec_type_label())),
            },
            _ => Err(labeled_failure(Self::spec_type_label())),
        }
    }

    fn from_value(value: Value) -> (parsed: ParseResult<Self>) {
        match value {
            Value::Number(n) => match n.as_i64() {
                Some(i) => Ok(i),
                None => labeled_type_err(Self::type_label()),
            },
            _ => labeled_type_err(Self::type_label()),
        }
    }
}

impl FromValue for u128 {
    open spec fn spec_type_label() -> Seq<char> {
        "u128"@
    }

    fn type_label() -> (label: String) {
        String::from_str("u128")
    }

    /// Read as a `u64`, with its failures.
    open spec fn spec_from_value(value: Value) -> Result<u128, ParseFailure> {
        match u64::spec_from_value(value) {
            Ok(u) => Ok(u as u128),
            Err(e) => Err(e),
        }
    }

    fn from_value(value: Value) -> (parsed: ParseResult<Self>) {
        match u64::from_value(value) {
            Ok(u) => Ok(u as u128),
            Err(e) => Err(e),
        }
    }
}

impl FromValue for i128 {
    open spec fn spec_type_label() -> Seq<char> {
        "i128"@
    }

    fn type_label() -> (label: String) {
        String::from_str("i128")
    }

    /// Read as an `i64`, with its failures.
    open spec fn spec_from_value(value: Value) -> Result<i128, ParseFailure> {
        match i64::spec_from_value(value) {
            Ok(i) => Ok(i as i128),
            Err(e) => Err(e),
        }
    }

    fn from_value(value: Value) -> (parsed: ParseResult<Self>) {
        match i64::from_value(value) {
            Ok(i) => Ok(i as i128),
            Err(e) => Err(e),
        }
    }
}

impl FromValue for u8 {
    open spec fn spec_type_label() -> Seq<char> {
        "u8"@
    }

    fn type_label() -> (label: String) {
        String::from_str("u8")
    }

    /// Read as a `u64`, with its failures; out of range is a failure of `u8`.
    open spec fn spec_from_value(value: Value) -> Result<u8, ParseFailure> {
        match u64::spec_from_value(value) {
            Ok(u) => if u <= u8::MAX {
                Ok(u as u8)
            } else {
                Err(labeled_failure(Self::spec_type_label()))
            },
            Err(e) => Err(e),
        }
    }

    fn from_value(value: Value) -> (parsed: ParseResult<Self>) {
        match u64::from_value(value) {
            Ok(u) => if u <= 255 {
                Ok(u as u8)
            } else {
                labeled_type_err(Self::type_label())
            },
            Err(e) => Err(e),
        }
    }
}

impl FromValue for u16 {
    open spec fn spec_type_label() -> Seq<char> {
        "u16"@
    }

    fn type_label() -> (label: String) {
        String::from_str("u16")
    }

    /// Read as a `u64`, with its failures; out of range is a failure of `u16`.
    open spec fn spec_from_value(value: Value) -> Result<u16, ParseFailure> {
        match u64::spec_from_value(value) {
            Ok(u) => if u <= u16::MAX {
                Ok(u as u16)
            } else {
                Err(labeled_failure(Self::spec_type_label()))
            },
            Err(e) => Err(e),
        }
    }

    fn from_value(value: Value) -> (parsed: ParseResult<Self>) {
        match u64::from_value(value) {
            Ok(u) => if u <= 65535 {
                Ok(u as u16)
            } else {
                labeled_type_err(Self::type_label())
            },
            Err(e) => Err(e),
        }
    }
}

impl FromValue for u32 {
    open spec fn spec_type_label() -> Seq<char> {
        "u32"@
    }

    fn type_label() -> (label: String) {
        String::from_str("u32")
    }

    /// Read as a `u64`, with its failures; out of range is a failure of `u32`.
    open spec fn spec_from_value(value: Value) -> Result<u32, ParseFailure> {
        match u64::spec_from_value(value) {
            Ok(u) => if u <= u32::MAX {
                Ok(u as u32)
            } else {
                Err(labeled_failure(Self::spec_type_label()))
            },
            Err(e) => Err(e),
        }
    }

    fn from_value(value: Value) -> (parsed: ParseResult<Self>) {
        match u64::from_value(value) {
            Ok(u) => if u <= 4294967295 {
                Ok(u as u32)
            } else {
                labeled_type_err(Self::type_label())
            },
            Err(e) => Err(e),
        }
    }
}

impl FromValue for i8 {
    open spec fn spec_type_label() -> Seq<char> {
        "i8"@
    }

    fn type_label() -> (label: String) {
        String::from_str("i8")
    }

    /// Read as an `i64`, with its failures; out of range is a failure of `i8`.
    open spec fn spec_from_value(value: Value) -> Result<i8, ParseFailure> {
        match i64::spec_from_value(value) {
            Ok(i) => if i8::MIN <= i <= i8::MAX {
                Ok(i as i8)
            } else {
                Err(labeled_failure(Self::spec_type_label()))
            },
            Err(e) => Err(e),
        }
    }

    fn from_value(value: Value) -> (parsed: ParseResult<Self>) {
        match i64::from_value(value) {
            Ok(i) => if -128 <= i && i <= 127 {
                Ok(i as i8)
            } else {
                labeled_type_err(Self::type_label())
            },
            Err(e) => Err(e),
        }
    }
}

impl FromValue for i16 {
    open spec fn spec_type_label() -> Seq<char> {
        "i16"@
    }

    fn type_label() -> (label: String) {
        String::from_str("i16")
    }

    /// Read as an `i64`, with its failures; out of range is a failure of `i16`.
    open spec fn spec_from_value(value: Value) -> Result<i16, ParseFailure> {
        match i64::spec_from_value(value) {
            Ok(i) => if i16::MIN <= i <= i16::MAX {
                Ok(i as i16)
            } else {
                Err(labeled_failure(Self::spec_type_label()))
            },
            Err(e) => Err(e),
        }
    }

    fn from_value(value: Value) -> (parsed: ParseResult<Self>) {
        match i64::from_value(value) {
            Ok(i) => if -32768 <= i && i <= 32767 {
                Ok(i as i16)
            } else {
                labeled_type_err(Self::type_label())
            },
            Err(e) => Err(e),
        }
    }
}

impl FromValue for i32 {
    open spec fn spec_type_label() -> Seq<char> {
        "i32"@
    }

    fn type_label() -> (label: String) {
        String::from_str("i32")
    }

    /// Read as an `i64`, with its failures; out of range is a failure of `i32`.
    open spec fn spec_from_value(value: Value) -> Result<i32, ParseFailure> {
        match i64::spec_from_value(value) {
            Ok(i) => if i32::MIN <= i <= i32::MAX {
                Ok(i as i32)
            } else {
                Err(labeled_failure(Self::spec_type_label()))
            },
            Err(e) => Err(e),
        }
    }

    fn from_value(value: Value) -> (parsed: ParseResult<Self>) {
        match i64::from_value(value) {
            Ok(i) => if -2147483648 <= i && i <= 2147483647 {
                Ok(i as i32)
            } else {
                labeled_type_err(Self::type_label())
            },
            Err(e) => Err(e),
        }
    }
}

} // verus!
