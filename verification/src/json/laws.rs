//! What reading typed values out of JSON values promises, stated over all
//! inputs: integers within their type's range, options, vectors, tuples
//! and maps of values read in order.

use vstd::prelude::*;

use super::from_value::{
    entries_from, labeled_failure, spec_map_entries_from_value, spec_take, spec_take_optional,
    values_from, FromValue,
};
use super::parse_error::{ParseErrorKind, ParseFailure};
use super::value::{Number, Object, Value};

verus! {

/// The JSON number of an integer: a non-negative one as `PosInt`, a
/// negative one as `NegInt`.
pub open spec fn integer_number(n: int) -> Number {
    if n >= 0 {
        Number::PosInt(n as u64)
    } else {
        Number::NegInt(n as i64)
    }
}

/// The integers a JSON number can hold: those of `i64` and of `u64`.
pub open spec fn json_integer(n: int) -> bool {
    i64::MIN <= n <= u64::MAX
}

/// A JSON integer reads as a `u8` exactly when it lies in `0..=u8::MAX`,
/// and then as itself; a negative one is refused as no `u64`, a larger one
/// as no `u8`; any other value is refused as no `u64`.
pub proof fn law_u8_reads_its_range(n: int, other: Value)
    requires
        json_integer(n),
        !(other matches Value::Number(Number::PosInt(_))),
    ensures
        0 <= n <= u8::MAX ==> u8::spec_from_value(Value::Number(integer_number(n))) == Ok::<
            u8,
            ParseFailure,
        >(n as u8),
        n < 0 ==> u8::spec_from_value(Value::Number(integer_number(n))) == Err::<u8, ParseFailure>(
            labeled_failure("u64"@),
        ),
        n > u8::MAX ==> u8::spec_from_value(Value::Number(integer_number(n))) == Err::<u8, ParseFailure>(
            labeled_failure("u8"@),
        ),
        u8::spec_from_value(other) == Err::<u8, ParseFailure>(labeled_failure("u64"@)),
{
}

/// A JSON integer reads as a `u16` exactly when it lies in `0..=u16::MAX`,
/// and then as itself; a negative one is refused as no `u64`, a larger one
/// as no `u16`; any other value is refused as no `u64`.
pub proof fn law_u16_reads_its_range(n: int, other: Value)
    requires
        json_integer(n),
        !(other matches Value::Number(Number::PosInt(_))),
    ensures
        0 <= n <= u16::MAX ==> u16::spec_from_value(Value::Number(integer_number(n))) == Ok::<
            u16,
            ParseFailure,
        >(n as u16),
        n < 0 ==> u16::spec_from_value(Value::Number(integer_number(n))) == Err::<u16, ParseFailure>(
            labeled_failure("u64"@),
        ),
        n > u16::MAX ==> u16::spec_from_value(Value::Number(integer_number(n))) == Err::<u16, ParseFailure>(
            labeled_failure("u16"@),
        ),
        u16::spec_from_value(other) == Err::<u16, ParseFailure>(labeled_failure("u64"@)),
{
}

/// A JSON integer reads as a `u32` exactly when it lies in `0..=u32::MAX`,
/// and then as itself; a negative one is refused as no `u64`, a larger one
/// as no `u32`; any other value is refused as no `u64`.
pub proof fn law_u32_reads_its_range(n: int, other: Value)
    requires
        json_integer(n),
        !(other matches Value::Number(Number::PosInt(_))),
    ensures
        0 <= n <= u32::MAX ==> u32::spec_from_value(Value::Number(integer_number(n))) == Ok::<
            u32,
            ParseFailure,
        >(n as u32),
        n < 0 ==> u32::spec_from_value(Value::Number(integer_number(n))) == Err::<u32, ParseFailure>(
            labeled_failure("u64"@),
        ),
        n > u32::MAX ==> u32::spec_from_value(Value::Number(integer_number(n))) == Err::<u32, ParseFailure>(
            labeled_failure("u32"@),
        ),
        u32::spec_from_value(other) == Err::<u32, ParseFailure>(labeled_failure("u64"@)),
{
}

/// A JSON integer reads as a `u64` exactly when it lies in `0..=u64::MAX`,
/// and then as itself; a negative one is refused as no `u64`, a larger one
/// as no `u64`; any other value is refused as no `u64`.
pub proof fn law_u64_reads_its_range(n: int, other: Value)
    requires
        json_integer(n),
        !(other matches Value::Number(Number::PosInt(_))),
    ensures
        0 <= n <= u64::MAX ==> u64::spec_from_value(Value::Number(integer_number(n))) == Ok::<
            u64,
            ParseFailure,
        >(n as u64),
        n < 0 ==> u64::spec_from_value(Value::Number(integer_number(n))) == Err::<u64, ParseFailure>(
            labeled_failure("u64"@),
        ),
        n > u64::MAX ==> u64::spec_from_value(Value::Number(integer_number(n))) == Err::<u64, ParseFailure>(
            labeled_failure("u64"@),
        ),
        u64::spec_from_value(other) == Err::<u64, ParseFailure>(labeled_failure("u64"@)),
{
}

/// A JSON integer reads as an `i8` exactly when it lies in
/// `i8::MIN..=i8::MAX`, and then as itself; one beyond `i64` is refused as no
/// `i64`, another out of range as no `i8`; any value that is no integer
/// is refused as no `i64`.
pub proof fn law_i8_reads_its_range(n: int, other: Value)
    requires
        json_integer(n),
        !(other matches Value::Number(Number::PosInt(_))),
        !(other matches Value::Number(Number::NegInt(_))),
    ensures
        i8::MIN <= n <= i8::MAX ==> i8::spec_from_value(Value::Number(integer_number(n))) == Ok::<
            i8,
            ParseFailure,
        >(n as i8),
        n > i64::MAX ==> i8::spec_from_value(Value::Number(integer_number(n))) == Err::<
            i8,
            ParseFailure,
        >(labeled_failure("i64"@)),
        n <= i64::MAX && !(i8::MIN <= n <= i8::MAX) ==> i8::spec_from_value(
            Value::Number(integer_number(n)),
        ) == Err::<i8, ParseFailure>(labeled_failure("i8"@)),
        i8::spec_from_value(other) == Err::<i8, ParseFailure>(labeled_failure("i64"@)),
{
}

/// A JSON integer reads as an `i16` exactly when it lies in
/// `i16::MIN..=i16::MAX`, and then as itself; one beyond `i64` is refused as no
/// `i64`, another out of range as no `i16`; any value that is no integer
/// is refused as no `i64`.
pub proof fn law_i16_reads_its_range(n: int, other: Value)
    requires
        json_integer(n),
        !(other matches Value::Number(Number::PosInt(_))),
        !(other matches Value::Number(Number::NegInt(_))),
    ensures
        i16::MIN <= n <= i16::MAX ==> i16::spec_from_value(Value::Number(integer_number(n))) == Ok::<
            i16,
            ParseFailure,
        >(n as i16),
        n > i64::MAX ==> i16::spec_from_value(Value::Number(integer_number(n))) == Err::<
            i16,
            ParseFailure,
        >(labeled_failure("i64"@)),
        n <= i64::MAX && !(i16::MIN <= n <= i16::MAX) ==> i16::spec_from_value(
            Value::Number(integer_number(n)),
        ) == Err::<i16, ParseFailure>(labeled_failure("i16"@)),
        i16::spec_from_value(other) == Err::<i16, ParseFailure>(labeled_failure("i64"@)),
{
}

/// A JSON integer reads as an `i32` exactly when it lies in
/// `i32::MIN..=i32::MAX`, and then as itself; one beyond `i64` is refused as no
/// `i64`, another out of range as no `i32`; any value that is no integer
/// is refused as no `i64`.
pub proof fn law_i32_reads_its_range(n: int, other: Value)
    requires
        json_integer(n),
        !(other matches Value::Number(Number::PosInt(_))),
        !(other matches Value::Number(Number::NegInt(_))),
    ensures
        i32::MIN <= n <= i32::MAX ==> i32::spec_from_value(Value::Number(integer_number(n))) == Ok::<
            i32,
            ParseFailure,
        >(n as i32),
        n > i64::MAX ==> i32::spec_from_value(Value::Number(integer_number(n))) == Err::<
            i32,
            ParseFailure,
        >(labeled_failure("i64"@)),
        n <= i64::MAX && !(i32::MIN <= n <= i32::MAX) ==> i32::spec_from_value(
            Value::Number(integer_number(n)),
        ) == Err::<i32, ParseFailure>(labeled_failure("i32"@)),
        i32::spec_from_value(other) == Err::<i32, ParseFailure>(labeled_failure("i64"@)),
{
}

/// A JSON integer reads as an `i64` exactly when it lies in
/// `i64::MIN..=i64::MAX`, and then as itself; one beyond `i64` is refused as no
/// `i64`, another out of range as no `i64`; any value that is no integer
/// is refused as no `i64`.
pub proof fn law_i64_reads_its_range(n: int, other: Value)
    requires
        json_integer(n),
        !(other matches Value::Number(Number::PosInt(_))),
        !(other matches Value::Number(Number::NegInt(_))),
    ensures
        i64::MIN <= n <= i64::MAX ==> i64::spec_from_value(Value::Number(integer_number(n))) == Ok::<
            i64,
            ParseFailure,
        >(n as i64),
        n > i64::MAX ==> i64::spec_from_value(Value::Number(integer_number(n))) == Err::<
            i64,
            ParseFailure,
        >(labeled_failure("i64"@)),
        n <= i64::MAX && !(i64::MIN <= n <= i64::MAX) ==> i64::spec_from_value(
            Value::Number(integer_number(n)),
        ) == Err::<i64, ParseFailure>(labeled_failure("i64"@)),
        i64::spec_from_value(other) == Err::<i64, ParseFailure>(labeled_failure("i64"@)),
{
}

/// A JSON integer reads as a `u128` exactly when it is no negative, and then
/// as itself; anything else is refused as no `u64`.
pub proof fn law_u128_reads_non_negative(n: int, other: Value)
    requires
        json_integer(n),
        !(other matches Value::Number(Number::PosInt(_))),
    ensures
        0 <= n ==> u128::spec_from_value(Value::Number(integer_number(n))) == Ok::<u128, ParseFailure>(
            n as u128,
        ),
        n < 0 ==> u128::spec_from_value(Value::Number(integer_number(n))) == Err::<u128, ParseFailure>(
            labeled_failure("u64"@),
        ),
        u128::spec_from_value(other) == Err::<u128, ParseFailure>(labeled_failure("u64"@)),
{
}

/// A JSON integer reads as an `i128` exactly when it lies in the range of
/// `i64`, and then as itself; anything else is refused as no `i64`.
pub proof fn law_i128_reads_i64_range(n: int, other: Value)
    requires
        json_integer(n),
        !(other matches Value::Number(Number::PosInt(_))),
        !(other matches Value::Number(Number::NegInt(_))),
    ensures
        n <= i64::MAX ==> i128::spec_from_value(Value::Number(integer_number(n))) == Ok::<
            i128,
            ParseFailure,
        >(n as i128),
        n > i64::MAX ==> i128::spec_from_value(Value::Number(integer_number(n))) == Err::<
            i128,
            ParseFailure,
        >(labeled_failure("i64"@)),
        i128::spec_from_value(other) == Err::<i128, ParseFailure>(labeled_failure("i64"@)),
{
}

/// Any value reads as itself; `null` reads as the unit, `true` and `false`
/// as themselves, a JSON string as its characters, a JSON object as itself;
/// each of these refuses any other value, naming its type.
pub proof fn law_plain_values(b: bool, s: String, o: Object, other: Value)
    ensures
        Value::spec_from_value(other) == Ok::<Value, ParseFailure>(other),
        Object::spec_from_value(Value::Object(o)) == Ok::<Object, ParseFailure>(o),
        !(other is Object) ==> Object::spec_from_value(other) == Err::<Object, ParseFailure>(
            labeled_failure(
                "serde_json::map::Map<alloc::string::String, serde_json::value::Value>"@,
            ),
        ),
        <()>::spec_from_value(Value::Null) == Ok::<(), ParseFailure>(()),
        !(other is Null) ==> <()>::spec_from_value(other) == Err::<(), ParseFailure>(
            labeled_failure("()"@),
        ),
        bool::spec_from_value(Value::Bool(b)) == Ok::<bool, ParseFailure>(b),
        !(other is Bool) ==> bool::spec_from_value(other) == Err::<bool, ParseFailure>(
            labeled_failure("bool"@),
        ),
        String::spec_from_value(Value::String(s)) == Ok::<Seq<char>, ParseFailure>(s@),
        !(other is String) ==> String::spec_from_value(other) == Err::<Seq<char>, ParseFailure>(
            labeled_failure("alloc::string::String"@),
        ),
{
}

/// Only `null` reads as `None`; any other value reads as `T` does, a value
/// of `T` wrapped in `Some`, a failure of `T` staying that failure.
pub proof fn law_option_reads_inner<T: FromValue>(value: Value)
    ensures
        Option::<T>::spec_from_value(Value::Null) == Ok::<Option<T::V>, ParseFailure>(None),
        !(value is Null) && T::spec_from_value(value) is Ok ==> Option::<T>::spec_from_value(value)
            == Ok::<Option<T::V>, ParseFailure>(Some(T::spec_from_value(value)->Ok_0)),
        !(value is Null) && T::spec_from_value(value) is Err ==> Option::<T>::spec_from_value(value)
            == Err::<Option<T::V>, ParseFailure>(T::spec_from_value(value)->Err_0),
        Option::<T>::spec_from_value(value) matches Ok(None) ==> value is Null,
{
}

/// A JSON array of exactly 2 elements reads as a 2-tuple whose component
/// `i` is element `i` read as the component's type; the first element that
/// fails to read gives the failure. An array of another length, or a value
/// that is no array, is refused.
pub proof fn law_tuple2_reads_in_order<A: FromValue, B: FromValue>(items: Vec<Value>, other: Value)
    ensures
        items@.len() != 2 ==> <(A, B) as FromValue>::spec_from_value(Value::Array(items)) == Err::<
            (A::V, B::V),
            ParseFailure,
        >(labeled_failure("Array length is exactly 2."@)),
        items@.len() == 2 && A::spec_from_value(items@[0]) is Ok && B::spec_from_value(items@[1]) is Ok ==> <(A, B) as FromValue>::spec_from_value(Value::Array(items)) == Ok::<
            (A::V, B::V),
            ParseFailure,
        >((A::spec_from_value(items@[0])->Ok_0, B::spec_from_value(items@[1])->Ok_0)),
        items@.len() == 2 && A::spec_from_value(items@[0]) is Err ==> <(A, B) as FromValue>::spec_from_value(Value::Array(items)) == Err::<
            (A::V, B::V),
            ParseFailure,
        >(A::spec_from_value(items@[0])->Err_0),
        items@.len() == 2 && A::spec_from_value(items@[0]) is Ok && B::spec_from_value(items@[1]) is Err ==> <(A, B) as FromValue>::spec_from_value(Value::Array(items)) == Err::<
            (A::V, B::V),
            ParseFailure,
        >(B::spec_from_value(items@[1])->Err_0),
        !(other is Array) ==> <(A, B) as FromValue>::spec_from_value(other) == Err::<(A::V, B::V), ParseFailure>(
            labeled_failure(<(A, B) as FromValue>::spec_type_label()),
        ),
{
}

/// A JSON array of exactly 3 elements reads as a 3-tuple whose component
/// `i` is element `i` read as the component's type; the first element that
/// fails to read gives the failure. An array of another length, or a value
/// that is no array, is refused.
pub proof fn law_tuple3_reads_in_order<A: FromValue, B: FromValue, C: FromValue>(items: Vec<Value>, other: Value)
    ensures
        items@.len() != 3 ==> <(A, B, C) as FromValue>::spec_from_value(Value::Array(items)) == Err::<
            (A::V, B::V, C::V),
            ParseFailure,
        >(labeled_failure("Array length is exactly 3."@)),
        items@.len() == 3 && A::spec_from_value(items@[0]) is Ok && B::spec_from_value(items@[1]) is Ok && C::spec_from_value(items@[2]) is Ok ==> <(A, B, C) as FromValue>::spec_from_value(Value::Array(items)) == Ok::<
            (A::V, B::V, C::V),
            ParseFailure,
        >((A::spec_from_value(items@[0])->Ok_0, B::spec_from_value(items@[1])->Ok_0, C::spec_from_value(items@[2])->Ok_0)),
        items@.len() == 3 && A::spec_from_value(items@[0]) is Err ==> <(A, B, C) as FromValue>::spec_from_value(Value::Array(items)) == Err::<
            (A::V, B::V, C::V),
            ParseFailure,
        >(A::spec_from_value(items@[0])->Err_0),
        items@.len() == 3 && A::spec_from_value(items@[0]) is Ok && B::spec_from_value(items@[1]) is Err ==> <(A, B, C) as FromValue>::spec_from_value(Value::Array(items)) == Err::<
            (A::V, B::V, C::V),
            ParseFailure,
        >(B::spec_from_value(items@[1])->Err_0),
        items@.len() == 3 && A::spec_from_value(items@[0]) is Ok && B::spec_from_value(items@[1]) is Ok && C::spec_from_value(items@[2]) is Err ==> <(A, B, C) as FromValue>::spec_from_value(Value::Array(items)) == Err::<
            (A::V, B::V, C::V),
            ParseFailure,
        >(C::spec_from_value(items@[2])->Err_0),
        !(other is Array) ==> <(A, B, C) as FromValue>::spec_from_value(other) == Err::<(A::V, B::V, C::V), ParseFailure>(
            labeled_failure(<(A, B, C) as FromValue>::spec_type_label()),
        ),
{
}

/// A JSON array of exactly 4 elements reads as a 4-tuple whose component
/// `i` is element `i` read as the component's type; the first element that
/// fails to read gives the failure. An array of another length, or a value
/// that is no array, is refused.
pub proof fn law_tuple4_reads_in_order<A: FromValue, B: FromValue, C: FromValue, D: FromValue>(items: Vec<Value>, other: Value)
    ensures
        items@.len() != 4 ==> <(A, B, C, D) as FromValue>::spec_from_value(Value::Array(items)) == Err::<
            (A::V, B::V, C::V, D::V),
            ParseFailure,
        >(labeled_failure("Array length is exactly 4."@)),
        items@.len() == 4 && A::spec_from_value(items@[0]) is Ok && B::spec_from_value(items@[1]) is Ok && C::spec_from_value(items@[2]) is Ok && D::spec_from_value(items@[3]) is Ok ==> <(A, B, C, D) as FromValue>::spec_from_value(Value::Array(items)) == Ok::<
            (A::V, B::V, C::V, D::V),
            ParseFailure,
        >((A::spec_from_value(items@[0])->Ok_0, B::spec_from_value(items@[1])->Ok_0, C::spec_from_value(items@[2])->Ok_0, D::spec_from_value(items@[3])->Ok_0)),
        items@.len() == 4 && A::spec_from_value(items@[0]) is Err ==> <(A, B, C, D) as FromValue>::spec_from_value(Value::Array(items)) == Err::<
            (A::V, B::V, C::V, D::V),
            ParseFailure,
        >(A::spec_from_value(items@[0])->Err_0),
        items@.len() == 4 && A::spec_from_value(items@[0]) is Ok && B::spec_from_value(items@[1]) is Err ==> <(A, B, C, D) as FromValue>::spec_from_value(Value::Array(items)) == Err::<
            (A::V, B::V, C::V, D::V),
            ParseFailure,
        >(B::spec_from_value(items@[1])->Err_0),
        items@.len() == 4 && A::spec_from_value(items@[0]) is Ok && B::spec_from_value(items@[1]) is Ok && C::spec_from_value(items@[2]) is Err ==> <(A, B, C, D) as FromValue>::spec_from_value(Value::Array(items)) == Err::<
            (A::V, B::V, C::V, D::V),
            ParseFailure,
        >(C::spec_from_value(items@[2])->Err_0),
        items@.len() == 4 && A::spec_from_value(items@[0]) is Ok && B::spec_from_value(items@[1]) is Ok && C::spec_from_value(items@[2]) is Ok && D::spec_from_value(items@[3]) is Err ==> <(A, B, C, D) as FromValue>::spec_from_value(Value::Array(items)) == Err::<
            (A::V, B::V, C::V, D::V),
            ParseFailure,
        >(D::spec_from_value(items@[3])->Err_0),
        !(other is Array) ==> <(A, B, C, D) as FromValue>::spec_from_value(other) == Err::<(A::V, B::V, C::V, D::V), ParseFailure>(
            labeled_failure(<(A, B, C, D) as FromValue>::spec_type_label()),
        ),
{
}

/// A JSON array of exactly 5 elements reads as a 5-tuple whose component
/// `i` is element `i` read as the component's type; the first element that
/// fails to read gives the failure. An array of another length, or a value
/// that is no array, is refused.
pub proof fn law_tuple5_reads_in_order<A: FromValue, B: FromValue, C: FromValue, D: FromValue, E: FromValue>(items: Vec<Value>, other: Value)
    ensures
        items@.len() != 5 ==> <(A, B, C, D, E) as FromValue>::spec_from_value(Value::Array(items)) == Err::<
            (A::V, B::V, C::V, D::V, E::V),
            ParseFailure,
        >(labeled_failure("Array length is exactly 5."@)),
        items@.len() == 5 && A::spec_from_value(items@[0]) is Ok && B::spec_from_value(items@[1]) is Ok && C::spec_from_value(items@[2]) is Ok && D::spec_from_value(items@[3]) is Ok && E::spec_from_value(items@[4]) is Ok ==> <(A, B, C, D, E) as FromValue>::spec_from_value(Value::Array(items)) == Ok::<
            (A::V, B::V, C::V, D::V, E::V),
            ParseFailure,
        >((A::spec_from_value(items@[0])->Ok_0, B::spec_from_value(items@[1])->Ok_0, C::spec_from_value(items@[2])->Ok_0, D::spec_from_value(items@[3])->Ok_0, E::spec_from_value(items@[4])->Ok_0)),
        items@.len() == 5 && A::spec_from_value(items@[0]) is Err ==> <(A, B, C, D, E) as FromValue>::spec_from_value(Value::Array(items)) == Err::<
            (A::V, B::V, C::V, D::V, E::V),
            ParseFailure,
        >(A::spec_from_value(items@[0])->Err_0),
        items@.len() == 5 && A::spec_from_value(items@[0]) is Ok && B::spec_from_value(items@[1]) is Err ==> <(A, B, C, D, E) as FromValue>::spec_from_value(Value::Array(items)) == Err::<
            (A::V, B::V, C::V, D::V, E::V),
            ParseFailure,
        >(B::spec_from_value(items@[1])->Err_0),
        items@.len() == 5 && A::spec_from_value(items@[0]) is Ok && B::spec_from_value(items@[1]) is Ok && C::spec_from_value(items@[2]) is Err ==> <(A, B, C, D, E) as FromValue>::spec_from_value(Value::Array(items)) == Err::<
            (A::V, B::V, C::V, D::V, E::V),
            ParseFailure,
        >(C::spec_from_value(items@[2])->Err_0),
        items@.len() == 5 && A::spec_from_value(items@[0]) is Ok && B::spec_from_value(items@[1]) is Ok && C::spec_from_value(items@[2]) is Ok && D::spec_from_value(items@[3]) is Err ==> <(A, B, C, D, E) as FromValue>::spec_from_value(Value::Array(items)) == Err::<
            (A::V, B::V, C::V, D::V, E::V),
            ParseFailure,
        >(D::spec_from_value(items@[3])->Err_0),
        items@.len() == 5 && A::spec_from_value(items@[0]) is Ok && B::spec_from_value(items@[1]) is Ok && C::spec_from_value(items@[2]) is Ok && D::spec_from_value(items@[3]) is Ok && E::spec_from_value(items@[4]) is Err ==> <(A, B, C, D, E) as FromValue>::spec_from_value(Value::Array(items)) == Err::<
            (A::V, B::V, C::V, D::V, E::V),
            ParseFailure,
        >(E::spec_from_value(items@[4])->Err_0),
        !(other is Array) ==> <(A, B, C, D, E) as FromValue>::spec_from_value(other) == Err::<(A::V, B::V, C::V, D::V, E::V), ParseFailure>(
            labeled_failure(<(A, B, C, D, E) as FromValue>::spec_type_label()),
        ),
{
}

/// A JSON array of exactly 6 elements reads as a 6-tuple whose component
/// `i` is element `i` read as the component's type; the first element that
/// fails to read gives the failure. An array of another length, or a value
/// that is no array, is refused.
pub proof fn law_tuple6_reads_in_order<A: FromValue, B: FromValue, C: FromValue, D: FromValue, E: FromValue, F: FromValue>(items: Vec<Value>, other: Value)
    ensures
        items@.len() != 6 ==> <(A, B, C, D, E, F) as FromValue>::spec_from_value(Value::Array(items)) == Err::<
            (A::V, B::V, C::V, D::V, E::V, F::V),
            ParseFailure,
        >(labeled_failure("Array length is exactly 6."@)),
        items@.len() == 6 && A::spec_from_value(items@[0]) is Ok && B::spec_from_value(items@[1]) is Ok && C::spec_from_value(items@[2]) is Ok && D::spec_from_value(items@[3]) is Ok && E::spec_from_value(items@[4]) is Ok && F::spec_from_value(items@[5]) is Ok ==> <(A, B, C, D, E, F) as FromValue>::spec_from_value(Value::Array(items)) == Ok::<
            (A::V, B::V, C::V, D::V, E::V, F::V),
            ParseFailure,
        >((A::spec_from_value(items@[0])->Ok_0, B::spec_from_value(items@[1])->Ok_0, C::spec_from_value(items@[2])->Ok_0, D::spec_from_value(items@[3])->Ok_0, E::spec_from_value(items@[4])->Ok_0, F::spec_from_value(items@[5])->Ok_0)),
        items@.len() == 6 && A::spec_from_value(items@[0]) is Err ==> <(A, B, C, D, E, F) as FromValue>::spec_from_value(Value::Array(items)) == Err::<
            (A::V, B::V, C::V, D::V, E::V, F::V),
            ParseFailure,
        >(A::spec_from_value(items@[0])->Err_0),
        items@.len() == 6 && A::spec_from_value(items@[0]) is Ok && B::spec_from_value(items@[1]) is Err ==> <(A, B, C, D, E, F) as FromValue>::spec_from_value(Value::Array(items)) == Err::<
            (A::V, B::V, C::V, D::V, E::V, F::V),
            ParseFailure,
        >(B::spec_from_value(items@[1])->Err_0),
        items@.len() == 6 && A::spec_from_value(items@[0]) is Ok && B::spec_from_value(items@[1]) is Ok && C::spec_from_value(items@[2]) is Err ==> <(A, B, C, D, E, F) as FromValue>::spec_from_value(Value::Array(items)) == Err::<
            (A::V, B::V, C::V, D::V, E::V, F::V),
            ParseFailure,
        >(C::spec_from_value(items@[2])->Err_0),
        items@.len() == 6 && A::spec_from_value(items@[0]) is Ok && B::spec_from_value(items@[1]) is Ok && C::spec_from_value(items@[2]) is Ok && D::spec_from_value(items@[3]) is Err ==> <(A, B, C, D, E, F) as FromValue>::spec_from_value(Value::Array(items)) == Err::<
            (A::V, B::V, C::V, D::V, E::V, F::V),
            ParseFailure,
        >(D::spec_from_value(items@[3])->Err_0),
        items@.len() == 6 && A::spec_from_value(items@[0]) is Ok && B::spec_from_value(items@[1]) is Ok && C::spec_from_value(items@[2]) is Ok && D::spec_from_value(items@[3]) is Ok && E::spec_from_value(items@[4]) is Err ==> <(A, B, C, D, E, F) as FromValue>::spec_from_value(Value::Array(items)) == Err::<
            (A::V, B::V, C::V, D::V, E::V, F::V),
            ParseFailure,
        >(E::spec_from_value(items@[4])->Err_0),
        items@.len() == 6 && A::spec_from_value(items@[0]) is Ok && B::spec_from_value(items@[1]) is Ok && C::spec_from_value(items@[2]) is Ok && D::spec_from_value(items@[3]) is Ok && E::spec_from_value(items@[4]) is Ok && F::spec_from_value(items@[5]) is Err ==> <(A, B, C, D, E, F) as FromValue>::spec_from_value(Value::Array(items)) == Err::<
            (A::V, B::V, C::V, D::V, E::V, F::V),
            ParseFailure,
        >(F::spec_from_value(items@[5])->Err_0),
        !(other is Array) ==> <(A, B, C, D, E, F) as FromValue>::spec_from_value(other) == Err::<(A::V, B::V, C::V, D::V, E::V, F::V), ParseFailure>(
            labeled_failure(<(A, B, C, D, E, F) as FromValue>::spec_type_label()),
        ),
{
}

/// A JSON array of exactly 7 elements reads as a 7-tuple whose component
/// `i` is element `i` read as the component's type; the first element that
/// fails to read gives the failure. An array of another length, or a value
/// that is no array, is refused.
pub proof fn law_tuple7_reads_in_order<A: FromValue, B: FromValue, C: FromValue, D: FromValue, E: FromValue, F: FromValue, G: FromValue>(items: Vec<Value>, other: Value)
    ensures
        items@.len() != 7 ==> <(A, B, C, D, E, F, G) as FromValue>::spec_from_value(Value::Array(items)) == Err::<
            (A::V, B::V, C::V, D::V, E::V, F::V, G::V),
            ParseFailure,
        >(labeled_failure("Array length is exactly 7."@)),
        items@.len() == 7 && A::spec_from_value(items@[0]) is Ok && B::spec_from_value(items@[1]) is Ok && C::spec_from_value(items@[2]) is Ok && D::spec_from_value(items@[3]) is Ok && E::spec_from_value(items@[4]) is Ok && F::spec_from_value(items@[5]) is Ok && G::spec_from_value(items@[6]) is Ok ==> <(A, B, C, D, E, F, G) as FromValue>::spec_from_value(Value::Array(items)) == Ok::<
            (A::V, B::V, C::V, D::V, E::V, F::V, G::V),
            ParseFailure,
        >((A::spec_from_value(items@[0])->Ok_0, B::spec_from_value(items@[1])->Ok_0, C::spec_from_value(items@[2])->Ok_0, D::spec_from_value(items@[3])->Ok_0, E::spec_from_value(items@[4])->Ok_0, F::spec_from_value(items@[5])->Ok_0, G::spec_from_value(items@[6])->Ok_0)),
        items@.len() == 7 && A::spec_from_value(items@[0]) is Err ==> <(A, B, C, D, E, F, G) as FromValue>::spec_from_value(Value::Array(items)) == Err::<
            (A::V, B::V, C::V, D::V, E::V, F::V, G::V),
            ParseFailure,
        >(A::spec_from_value(items@[0])->Err_0),
        items@.len() == 7 && A::spec_from_value(items@[0]) is Ok && B::spec_from_value(items@[1]) is Err ==> <(A, B, C, D, E, F, G) as FromValue>::spec_from_value(Value::Array(items)) == Err::<
            (A::V, B::V, C::V, D::V, E::V, F::V, G::V),
            ParseFailure,
        >(B::spec_from_value(items@[1])->Err_0),
        items@.len() == 7 && A::spec_from_value(items@[0]) is Ok && B::spec_from_value(items@[1]) is Ok && C::spec_from_value(items@[2]) is Err ==> <(A, B, C, D, E, F, G) as FromValue>::spec_from_value(Value::Array(items)) == Err::<
            (A::V, B::V, C::V, D::V, E::V, F::V, G::V),
            ParseFailure,
        >(C::spec_from_value(items@[2])->Err_0),
        items@.len() == 7 && A::spec_from_value(items@[0]) is Ok && B::spec_from_value(items@[1]) is Ok && C::spec_from_value(items@[2]) is Ok && D::spec_from_value(items@[3]) is Err ==> <(A, B, C, D, E, F, G) as FromValue>::spec_from_value(Value::Array(items)) == Err::<
            (A::V, B::V, C::V, D::V, E::V, F::V, G::V),
            ParseFailure,
        >(D::spec_from_value(items@[3])->Err_0),
        items@.len() == 7 && A::spec_from_value(items@[0]) is Ok && B::spec_from_value(items@[1]) is Ok && C::spec_from_value(items@[2]) is Ok && D::spec_from_value(items@[3]) is Ok && E::spec_from_value(items@[4]) is Err ==> <(A, B, C, D, E, F, G) as FromValue>::spec_from_value(Value::Array(items)) == Err::<
            (A::V, B::V, C::V, D::V, E::V, F::V, G::V),
            ParseFailure,
        >(E::spec_from_value(items@[4])->Err_0),
        items@.len() == 7 && A::spec_from_value(items@[0]) is Ok && B::spec_from_value(items@[1]) is Ok && C::spec_from_value(items@[2]) is Ok && D::spec_from_value(items@[3]) is Ok && E::spec_from_value(items@[4]) is Ok && F::spec_from_value(items@[5]) is Err ==> <(A, B, C, D, E, F, G) as FromValue>::spec_from_value(Value::Array(items)) == Err::<
            (A::V, B::V, C::V, D::V, E::V, F::V, G::V),
            ParseFailure,
        >(F::spec_from_value(items@[5])->Err_0),
        items@.len() == 7 && A::spec_from_value(items@[0]) is Ok && B::spec_from_value(items@[1]) is Ok && C::spec_from_value(items@[2]) is Ok && D::spec_from_value(items@[3]) is Ok && E::spec_from_value(items@[4]) is Ok && F::spec_from_value(items@[5]) is Ok && G::spec_from_value(items@[6]) is Err ==> <(A, B, C, D, E, F, G) as FromValue>::spec_from_value(Value::Array(items)) == Err::<
            (A::V, B::V, C::V, D::V, E::V, F::V, G::V),
            ParseFailure,
        >(G::spec_from_value(items@[6])->Err_0),
        !(other is Array) ==> <(A, B, C, D, E, F, G) as FromValue>::spec_from_value(other) == Err::<(A::V, B::V, C::V, D::V, E::V, F::V, G::V), ParseFailure>(
            labeled_failure(<(A, B, C, D, E, F, G) as FromValue>::spec_type_label()),
        ),
{
}

/// A JSON array of exactly 8 elements reads as a 8-tuple whose component
/// `i` is element `i` read as the component's type; the first element that
/// fails to read gives the failure. An array of another length, or a value
/// that is no array, is refused.
pub proof fn law_tuple8_reads_in_order<A: FromValue, B: FromValue, C: FromValue, D: FromValue, E: FromValue, F: FromValue, G: FromValue, H: FromValue>(items: Vec<Value>, other: Value)
    ensures
        items@.len() != 8 ==> <(A, B, C, D, E, F, G, H) as FromValue>::spec_from_value(Value::Array(items)) == Err::<
            (A::V, B::V, C::V, D::V, E::V, F::V, G::V, H::V),
            ParseFailure,
        >(labeled_failure("Array length is exactly 8."@)),
        items@.len() == 8 && A::spec_from_value(items@[0]) is Ok && B::spec_from_value(items@[1]) is Ok && C::spec_from_value(items@[2]) is Ok && D::spec_from_value(items@[3]) is Ok && E::spec_from_value(items@[4]) is Ok && F::spec_from_value(items@[5]) is Ok && G::spec_from_value(items@[6]) is Ok && H::spec_from_value(items@[7]) is Ok ==> <(A, B, C, D, E, F, G, H) as FromValue>::spec_from_value(Value::Array(items)) == Ok::<
            (A::V, B::V, C::V, D::V, E::V, F::V, G::V, H::V),
            ParseFailure,
        >((A::spec_from_value(items@[0])->Ok_0, B::spec_from_value(items@[1])->Ok_0, C::spec_from_value(items@[2])->Ok_0, D::spec_from_value(items@[3])->Ok_0, E::spec_from_value(items@[4])->Ok_0, F::spec_from_value(items@[5])->Ok_0, G::spec_from_value(items@[6])->Ok_0, H::spec_from_value(items@[7])->Ok_0)),
        items@.len() == 8 && A::spec_from_value(items@[0]) is Err ==> <(A, B, C, D, E, F, G, H) as FromValue>::spec_from_value(Value::Array(items)) == Err::<
            (A::V, B::V, C::V, D::V, E::V, F::V, G::V, H::V),
            ParseFailure,
        >(A::spec_from_value(items@[0])->Err_0),
        items@.len() == 8 && A::spec_from_value(items@[0]) is Ok && B::spec_from_value(items@[1]) is Err ==> <(A, B, C, D, E, F, G, H) as FromValue>::spec_from_value(Value::Array(items)) == Err::<
            (A::V, B::V, C::V, D::V, E::V, F::V, G::V, H::V),
            ParseFailure,
        >(B::spec_from_value(items@[1])->Err_0),
        items@.len() == 8 && A::spec_from_value(items@[0]) is Ok && B::spec_from_value(items@[1]) is Ok && C::spec_from_value(items@[2]) is Err ==> <(A, B, C, D, E, F, G, H) as FromValue>::spec_from_value(Value::Array(items)) == Err::<
            (A::V, B::V, C::V, D::V, E::V, F::V, G::V, H::V),
            ParseFailure,
        >(C::spec_from_value(items@[2])->Err_0),
        items@.len() == 8 && A::spec_from_value(items@[0]) is Ok && B::spec_from_value(items@[1]) is Ok && C::spec_from_value(items@[2]) is Ok && D::spec_from_value(items@[3]) is Err ==> <(A, B, C, D, E, F, G, H) as FromValue>::spec_from_value(Value::Array(items)) == Err::<
            (A::V, B::V, C::V, D::V, E::V, F::V, G::V, H::V),
            ParseFailure,
        >(D::spec_from_value(items@[3])->Err_0),
        items@.len() == 8 && A::spec_from_value(items@[0]) is Ok && B::spec_from_value(items@[1]) is Ok && C::spec_from_value(items@[2]) is Ok && D::spec_from_value(items@[3]) is Ok && E::spec_from_value(items@[4]) is Err ==> <(A, B, C, D, E, F, G, H) as FromValue>::spec_from_value(Value::Array(items)) == Err::<
            (A::V, B::V, C::V, D::V, E::V, F::V, G::V, H::V),
            ParseFailure,
        >(E::spec_from_value(items@[4])->Err_0),
        items@.len() == 8 && A::spec_from_value(items@[0]) is Ok && B::spec_from_value(items@[1]) is Ok && C::spec_from_value(items@[2]) is Ok && D::spec_from_value(items@[3]) is Ok && E::spec_from_value(items@[4]) is Ok && F::spec_from_value(items@[5]) is Err ==> <(A, B, C, D, E, F, G, H) as FromValue>::spec_from_value(Value::Array(items)) == Err::<
            (A::V, B::V, C::V, D::V, E::V, F::V, G::V, H::V),
            ParseFailure,
        >(F::spec_from_value(items@[5])->Err_0),
        items@.len() == 8 && A::spec_from_value(items@[0]) is Ok && B::spec_from_value(items@[1]) is Ok && C::spec_from_value(items@[2]) is Ok && D::spec_from_value(items@[3]) is Ok && E::spec_from_value(items@[4]) is Ok && F::spec_from_value(items@[5]) is Ok && G::spec_from_value(items@[6]) is Err ==> <(A, B, C, D, E, F, G, H) as FromValue>::spec_from_value(Value::Array(items)) == Err::<
            (A::V, B::V, C::V, D::V, E::V, F::V, G::V, H::V),
            ParseFailure,
        >(G::spec_from_value(items@[6])->Err_0),
        items@.len() == 8 && A::spec_from_value(items@[0]) is Ok && B::spec_from_value(items@[1]) is Ok && C::spec_from_value(items@[2]) is Ok && D::spec_from_value(items@[3]) is Ok && E::spec_from_value(items@[4]) is Ok && F::spec_from_value(items@[5]) is Ok && G::spec_from_value(items@[6]) is Ok && H::spec_from_value(items@[7]) is Err ==> <(A, B, C, D, E, F, G, H) as FromValue>::spec_from_value(Value::Array(items)) == Err::<
            (A::V, B::V, C::V, D::V, E::V, F::V, G::V, H::V),
            ParseFailure,
        >(H::spec_from_value(items@[7])->Err_0),
        !(other is Array) ==> <(A, B, C, D, E, F, G, H) as FromValue>::spec_from_value(other) == Err::<(A::V, B::V, C::V, D::V, E::V, F::V, G::V, H::V), ParseFailure>(
            labeled_failure(<(A, B, C, D, E, F, G, H) as FromValue>::spec_type_label()),
        ),
{
}

/// A JSON array of exactly 9 elements reads as a 9-tuple whose component
/// `i` is element `i` read as the component's type; the first element that
/// fails to read gives the failure. An array of another length, or a value
/// that is no array, is refused.
pub proof fn law_tuple9_reads_in_order<A: FromValue, B: FromValue, C: FromValue, D: FromValue, E: FromValue, F: FromValue, G: FromValue, H: FromValue, I: FromValue>(items: Vec<Value>, other: Value)
    ensures
        items@.len() != 9 ==> <(A, B, C, D, E, F, G, H, I) as FromValue>::spec_from_value(Value::Array(items)) == Err::<
            (A::V, B::V, C::V, D::V, E::V, F::V, G::V, H::V, I::V),
            ParseFailure,
        >(labeled_failure("Array length is exactly 9."@)),
        items@.len() == 9 && A::spec_from_value(items@[0]) is Ok && B::spec_from_value(items@[1]) is Ok && C::spec_from_value(items@[2]) is Ok && D::spec_from_value(items@[3]) is Ok && E::spec_from_value(items@[4]) is Ok && F::spec_from_value(items@[5]) is Ok && G::spec_from_value(items@[6]) is Ok && H::spec_from_value(items@[7]) is Ok && I::spec_from_value(items@[8]) is Ok ==> <(A, B, C, D, E, F, G, H, I) as FromValue>::spec_from_value(Value::Array(items)) == Ok::<
            (A::V, B::V, C::V, D::V, E::V, F::V, G::V, H::V, I::V),
            ParseFailure,
        >((A::spec_from_value(items@[0])->Ok_0, B::spec_from_value(items@[1])->Ok_0, C::spec_from_value(items@[2])->Ok_0, D::spec_from_value(items@[3])->Ok_0, E::spec_from_value(items@[4])->Ok_0, F::spec_from_value(items@[5])->Ok_0, G::spec_from_value(items@[6])->Ok_0, H::spec_from_value(items@[7])->Ok_0, I::spec_from_value(items@[8])->Ok_0)),
        items@.len() == 9 && A::spec_from_value(items@[0]) is Err ==> <(A, B, C, D, E, F, G, H, I) as FromValue>::spec_from_value(Value::Array(items)) == Err::<
            (A::V, B::V, C::V, D::V, E::V, F::V, G::V, H::V, I::V),
            ParseFailure,
        >(A::spec_from_value(items@[0])->Err_0),
        items@.len() == 9 && A::spec_from_value(items@[0]) is Ok && B::spec_from_value(items@[1]) is Err ==> <(A, B, C, D, E, F, G, H, I) as FromValue>::spec_from_value(Value::Array(items)) == Err::<
            (A::V, B::V, C::V, D::V, E::V, F::V, G::V, H::V, I::V),
            ParseFailure,
        >(B::spec_from_value(items@[1])->Err_0),
        items@.len() == 9 && A::spec_from_value(items@[0]) is Ok && B::spec_from_value(items@[1]) is Ok && C::spec_from_value(items@[2]) is Err ==> <(A, B, C, D, E, F, G, H, I) as FromValue>::spec_from_value(Value::Array(items)) == Err::<
            (A::V, B::V, C::V, D::V, E::V, F::V, G::V, H::V, I::V),
            ParseFailure,
        >(C::spec_from_value(items@[2])->Err_0),
        items@.len() == 9 && A::spec_from_value(items@[0]) is Ok && B::spec_from_value(items@[1]) is Ok && C::spec_from_value(items@[2]) is Ok && D::spec_from_value(items@[3]) is Err ==> <(A, B, C, D, E, F, G, H, I) as FromValue>::spec_from_value(Value::Array(items)) == Err::<
            (A::V, B::V, C::V, D::V, E::V, F::V, G::V, H::V, I::V),
            ParseFailure,
        >(D::spec_from_value(items@[3])->Err_0),
        items@.len() == 9 && A::spec_from_value(items@[0]) is Ok && B::spec_from_value(items@[1]) is Ok && C::spec_from_value(items@[2]) is Ok && D::spec_from_value(items@[3]) is Ok && E::spec_from_value(items@[4]) is Err ==> <(A, B, C, D, E, F, G, H, I) as FromValue>::spec_from_value(Value::Array(items)) == Err::<
            (A::V, B::V, C::V, D::V, E::V, F::V, G::V, H::V, I::V),
            ParseFailure,
        >(E::spec_from_value(items@[4])->Err_0),
        items@.len() == 9 && A::spec_from_value(items@[0]) is Ok && B::spec_from_value(items@[1]) is Ok && C::spec_from_value(items@[2]) is Ok && D::spec_from_value(items@[3]) is Ok && E::spec_from_value(items@[4]) is Ok && F::spec_from_value(items@[5]) is Err ==> <(A, B, C, D, E, F, G, H, I) as FromValue>::spec_from_value(Value::Array(items)) == Err::<
            (A::V, B::V, C::V, D::V, E::V, F::V, G::V, H::V, I::V),
            ParseFailure,
        >(F::spec_from_value(items@[5])->Err_0),
        items@.len() == 9 && A::spec_from_value(items@[0]) is Ok && B::spec_from_value(items@[1]) is Ok && C::spec_from_value(items@[2]) is Ok && D::spec_from_value(items@[3]) is Ok && E::spec_from_value(items@[4]) is Ok && F::spec_from_value(items@[5]) is Ok && G::spec_from_value(items@[6]) is Err ==> <(A, B, C, D, E, F, G, H, I) as FromValue>::spec_from_value(Value::Array(items)) == Err::<
            (A::V, B::V, C::V, D::V, E::V, F::V, G::V, H::V, I::V),
            ParseFailure,
        >(G::spec_from_value(items@[6])->Err_0),
        items@.len() == 9 && A::spec_from_value(items@[0]) is Ok && B::spec_from_value(items@[1]) is Ok && C::spec_from_value(items@[2]) is Ok && D::spec_from_value(items@[3]) is Ok && E::spec_from_value(items@[4]) is Ok && F::spec_from_value(items@[5]) is Ok && G::spec_from_value(items@[6]) is Ok && H::spec_from_value(items@[7]) is Err ==> <(A, B, C, D, E, F, G, H, I) as FromValue>::spec_from_value(Value::Array(items)) == Err::<
            (A::V, B::V, C::V, D::V, E::V, F::V, G::V, H::V, I::V),
            ParseFailure,
        >(H::spec_from_value(items@[7])->Err_0),
        items@.len() == 9 && A::spec_from_value(items@[0]) is Ok && B::spec_from_value(items@[1]) is Ok && C::spec_from_value(items@[2]) is Ok && D::spec_from_value(items@[3]) is Ok && E::spec_from_value(items@[4]) is Ok && F::spec_from_value(items@[5]) is Ok && G::spec_from_value(items@[6]) is Ok && H::spec_from_value(items@[7]) is Ok && I::spec_from_value(items@[8]) is Err ==> <(A, B, C, D, E, F, G, H, I) as FromValue>::spec_from_value(Value::Array(items)) == Err::<
            (A::V, B::V, C::V, D::V, E::V, F::V, G::V, H::V, I::V),
            ParseFailure,
        >(I::spec_from_value(items@[8])->Err_0),
        !(other is Array) ==> <(A, B, C, D, E, F, G, H, I) as FromValue>::spec_from_value(other) == Err::<(A::V, B::V, C::V, D::V, E::V, F::V, G::V, H::V, I::V), ParseFailure>(
            labeled_failure(<(A, B, C, D, E, F, G, H, I) as FromValue>::spec_type_label()),
        ),
{
}

/// A JSON array of exactly 10 elements reads as a 10-tuple whose component
/// `i` is element `i` read as the component's type; the first element that
/// fails to read gives the failure. An array of another length, or a value
/// that is no array, is refused.
pub proof fn law_tuple10_reads_in_order<A: FromValue, B: FromValue, C: FromValue, D: FromValue, E: FromValue, F: FromValue, G: FromValue, H: FromValue, I: FromValue, J: FromValue>(items: Vec<Value>, other: Value)
    ensures
        items@.len() != 10 ==> <(A, B, C, D, E, F, G, H, I, J) as FromValue>::spec_from_value(Value::Array(items)) == Err::<
            (A::V, B::V, C::V, D::V, E::V, F::V, G::V, H::V, I::V, J::V),
            ParseFailure,
        >(labeled_failure("Array length is exactly 10."@)),
        items@.len() == 10 && A::spec_from_value(items@[0]) is Ok && B::spec_from_value(items@[1]) is Ok && C::spec_from_value(items@[2]) is Ok && D::spec_from_value(items@[3]) is Ok && E::spec_from_value(items@[4]) is Ok && F::spec_from_value(items@[5]) is Ok && G::spec_from_value(items@[6]) is Ok && H::spec_from_value(items@[7]) is Ok && I::spec_from_value(items@[8]) is Ok && J::spec_from_value(items@[9]) is Ok ==> <(A, B, C, D, E, F, G, H, I, J) as FromValue>::spec_from_value(Value::Array(items)) == Ok::<
            (A::V, B::V, C::V, D::V, E::V, F::V, G::V, H::V, I::V, J::V),
            ParseFailure,
        >((A::spec_from_value(items@[0])->Ok_0, B::spec_from_value(items@[1])->Ok_0, C::spec_from_value(items@[2])->Ok_0, D::spec_from_value(items@[3])->Ok_0, E::spec_from_value(items@[4])->Ok_0, F::spec_from_value(items@[5])->Ok_0, G::spec_from_value(items@[6])->Ok_0, H::spec_from_value(items@[7])->Ok_0, I::spec_from_value(items@[8])->Ok_0, J::spec_from_value(items@[9])->Ok_0)),
        items@.len() == 10 && A::spec_from_value(items@[0]) is Err ==> <(A, B, C, D, E, F, G, H, I, J) as FromValue>::spec_from_value(Value::Array(items)) == Err::<
            (A::V, B::V, C::V, D::V, E::V, F::V, G::V, H::V, I::V, J::V),
            ParseFailure,
        >(A::spec_from_value(items@[0])->Err_0),
        items@.len() == 10 && A::spec_from_value(items@[0]) is Ok && B::spec_from_value(items@[1]) is Err ==> <(A, B, C, D, E, F, G, H, I, J) as FromValue>::spec_from_value(Value::Array(items)) == Err::<
            (A::V, B::V, C::V, D::V, E::V, F::V, G::V, H::V, I::V, J::V),
            ParseFailure,
        >(B::spec_from_value(items@[1])->Err_0),
        items@.len() == 10 && A::spec_from_value(items@[0]) is Ok && B::spec_from_value(items@[1]) is Ok && C::spec_from_value(items@[2]) is Err ==> <(A, B, C, D, E, F, G, H, I, J) as FromValue>::spec_from_value(Value::Array(items)) == Err::<
            (A::V, B::V, C::V, D::V, E::V, F::V, G::V, H::V, I::V, J::V),
            ParseFailure,
        >(C::spec_from_value(items@[2])->Err_0),
        items@.len() == 10 && A::spec_from_value(items@[0]) is Ok && B::spec_from_value(items@[1]) is Ok && C::spec_from_value(items@[2]) is Ok && D::spec_from_value(items@[3]) is Err ==> <(A, B, C, D, E, F, G, H, I, J) as FromValue>::spec_from_value(Value::Array(items)) == Err::<
            (A::V, B::V, C::V, D::V, E::V, F::V, G::V, H::V, I::V, J::V),
            ParseFailure,
        >(D::spec_from_value(items@[3])->Err_0),
        items@.len() == 10 && A::spec_from_value(items@[0]) is Ok && B::spec_from_value(items@[1]) is Ok && C::spec_from_value(items@[2]) is Ok && D::spec_from_value(items@[3]) is Ok && E::spec_from_value(items@[4]) is Err ==> <(A, B, C, D, E, F, G, H, I, J) as FromValue>::spec_from_value(Value::Array(items)) == Err::<
            (A::V, B::V, C::V, D::V, E::V, F::V, G::V, H::V, I::V, J::V),
            ParseFailure,
        >(E::spec_from_value(items@[4])->Err_0),
        items@.len() == 10 && A::spec_from_value(items@[0]) is Ok && B::spec_from_value(items@[1]) is Ok && C::spec_from_value(items@[2]) is Ok && D::spec_from_value(items@[3]) is Ok && E::spec_from_value(items@[4]) is Ok && F::spec_from_value(items@[5]) is Err ==> <(A, B, C, D, E, F, G, H, I, J) as FromValue>::spec_from_value(Value::Array(items)) == Err::<
            (A::V, B::V, C::V, D::V, E::V, F::V, G::V, H::V, I::V, J::V),
            ParseFailure,
        >(F::spec_from_value(items@[5])->Err_0),
        items@.len() == 10 && A::spec_from_value(items@[0]) is Ok && B::spec_from_value(items@[1]) is Ok && C::spec_from_value(items@[2]) is Ok && D::spec_from_value(items@[3]) is Ok && E::spec_from_value(items@[4]) is Ok && F::spec_from_value(items@[5]) is Ok && G::spec_from_value(items@[6]) is Err ==> <(A, B, C, D, E, F, G, H, I, J) as FromValue>::spec_from_value(Value::Array(items)) == Err::<
            (A::V, B::V, C::V, D::V, E::V, F::V, G::V, H::V, I::V, J::V),
            ParseFailure,
        >(G::spec_from_value(items@[6])->Err_0),
        items@.len() == 10 && A::spec_from_value(items@[0]) is Ok && B::spec_from_value(items@[1]) is Ok && C::spec_from_value(items@[2]) is Ok && D::spec_from_value(items@[3]) is Ok && E::spec_from_value(items@[4]) is Ok && F::spec_from_value(items@[5]) is Ok && G::spec_from_value(items@[6]) is Ok && H::spec_from_value(items@[7]) is Err ==> <(A, B, C, D, E, F, G, H, I, J) as FromValue>::spec_from_value(Value::Array(items)) == Err::<
            (A::V, B::V, C::V, D::V, E::V, F::V, G::V, H::V, I::V, J::V),
            ParseFailure,
        >(H::spec_from_value(items@[7])->Err_0),
        items@.len() == 10 && A::spec_from_value(items@[0]) is Ok && B::spec_from_value(items@[1]) is Ok && C::spec_from_value(items@[2]) is Ok && D::spec_from_value(items@[3]) is Ok && E::spec_from_value(items@[4]) is Ok && F::spec_from_value(items@[5]) is Ok && G::spec_from_value(items@[6]) is Ok && H::spec_from_value(items@[7]) is Ok && I::spec_from_value(items@[8]) is Err ==> <(A, B, C, D, E, F, G, H, I, J) as FromValue>::spec_from_value(Value::Array(items)) == Err::<
            (A::V, B::V, C::V, D::V, E::V, F::V, G::V, H::V, I::V, J::V),
            ParseFailure,
        >(I::spec_from_value(items@[8])->Err_0),
        items@.len() == 10 && A::spec_from_value(items@[0]) is Ok && B::spec_from_value(items@[1]) is Ok && C::spec_from_value(items@[2]) is Ok && D::spec_from_value(items@[3]) is Ok && E::spec_from_value(items@[4]) is Ok && F::spec_from_value(items@[5]) is Ok && G::spec_from_value(items@[6]) is Ok && H::spec_from_value(items@[7]) is Ok && I::spec_from_value(items@[8]) is Ok && J::spec_from_value(items@[9]) is Err ==> <(A, B, C, D, E, F, G, H, I, J) as FromValue>::spec_from_value(Value::Array(items)) == Err::<
            (A::V, B::V, C::V, D::V, E::V, F::V, G::V, H::V, I::V, J::V),
            ParseFailure,
        >(J::spec_from_value(items@[9])->Err_0),
        !(other is Array) ==> <(A, B, C, D, E, F, G, H, I, J) as FromValue>::spec_from_value(other) == Err::<(A::V, B::V, C::V, D::V, E::V, F::V, G::V, H::V, I::V, J::V), ParseFailure>(
            labeled_failure(<(A, B, C, D, E, F, G, H, I, J) as FromValue>::spec_type_label()),
        ),
{
}

/// The values read from a sequence whose every value reads: each read in
/// turn, in order.
proof fn lemma_values_all_read<T: FromValue>(values: Seq<Value>)
    requires
        forall|i: int| 0 <= i < values.len() ==> #[trigger] T::spec_from_value(values[i]) is Ok,
    ensures
        values_from::<T>(values) == Ok::<Seq<T::V>, ParseFailure>(
            Seq::new(values.len(), |i: int| T::spec_from_value(values[i])->Ok_0),
        ),
    decreases values.len(),
{
    if values.len() > 0 {
        let front = values.drop_last();
        assert forall|i: int| 0 <= i < front.len() implies #[trigger] T::spec_from_value(front[i]) is Ok by {
            assert(front[i] == values[i]);
        }
        lemma_values_all_read::<T>(front);
        assert(T::spec_from_value(values[values.len() - 1]) is Ok);
        assert(Seq::new(front.len(), |i: int| T::spec_from_value(front[i])->Ok_0).push(
            T::spec_from_value(values.last())->Ok_0,
        ) =~= Seq::new(values.len(), |i: int| T::spec_from_value(values[i])->Ok_0));
    } else {
        assert(Seq::new(values.len(), |i: int| T::spec_from_value(values[i])->Ok_0) =~= Seq::<
            T::V,
        >::empty());
    }
}

/// The values read from a sequence whose value `k` is the first that fails
/// to read: that failure.
proof fn lemma_values_first_failure<T: FromValue>(values: Seq<Value>, k: int)
    requires
        0 <= k < values.len(),
        T::spec_from_value(values[k]) is Err,
        forall|i: int| 0 <= i < k ==> #[trigger] T::spec_from_value(values[i]) is Ok,
    ensures
        values_from::<T>(values) == Err::<Seq<T::V>, ParseFailure>(
            T::spec_from_value(values[k])->Err_0,
        ),
    decreases values.len(),
{
    if k == values.len() - 1 {
        let front = values.drop_last();
        assert forall|i: int| 0 <= i < front.len() implies #[trigger] T::spec_from_value(front[i]) is Ok by {
            assert(front[i] == values[i]);
        }
        lemma_values_all_read::<T>(front);
    } else {
        let front = values.drop_last();
        assert(front[k] == values[k]);
        assert forall|i: int| 0 <= i < k implies #[trigger] T::spec_from_value(front[i]) is Ok by {
            assert(front[i] == values[i]);
        }
        lemma_values_first_failure::<T>(front, k);
    }
}

/// A JSON array reads as a vector of `T` holding, in order, each element
/// read as `T`, when every element reads; otherwise the first element that
/// fails to read gives the failure. A value that is no array is refused.
pub proof fn law_vec_reads_each_element<T: FromValue>(items: Vec<Value>, other: Value)
    ensures
        (forall|i: int| 0 <= i < items@.len() ==> #[trigger] T::spec_from_value(items@[i]) is Ok)
            ==> Vec::<T>::spec_from_value(Value::Array(items)) == Ok::<Seq<T::V>, ParseFailure>(
            Seq::new(items@.len(), |i: int| T::spec_from_value(items@[i])->Ok_0),
        ),
        forall|k: int|
            0 <= k < items@.len() && #[trigger] T::spec_from_value(items@[k]) is Err && (forall|
                i: int,
            |
                0 <= i < k ==> T::spec_from_value(items@[i]) is Ok) ==> Vec::<T>::spec_from_value(
                Value::Array(items),
            ) == Err::<Seq<T::V>, ParseFailure>(T::spec_from_value(items@[k])->Err_0),
        !(other is Array) ==> Vec::<T>::spec_from_value(other) == Err::<Seq<T::V>, ParseFailure>(
            labeled_failure(Vec::<T>::spec_type_label()),
        ),
{
    if forall|i: int| 0 <= i < items@.len() ==> #[trigger] T::spec_from_value(items@[i]) is Ok {
        lemma_values_all_read::<T>(items@);
    }
    assert forall|k: int|
        0 <= k < items@.len() && #[trigger] T::spec_from_value(items@[k]) is Err && (forall|i: int|
            0 <= i < k ==> T::spec_from_value(items@[i]) is Ok) implies Vec::<T>::spec_from_value(
        Value::Array(items),
    ) == Err::<Seq<T::V>, ParseFailure>(T::spec_from_value(items@[k])->Err_0) by {
        lemma_values_first_failure::<T>(items@, k);
    }
}

/// The entries read from a sequence whose every value reads: each key with
/// its value read, in order.
proof fn lemma_entries_all_read<T: FromValue>(entries: Seq<(String, Value)>)
    requires
        forall|i: int| 0 <= i < entries.len() ==> #[trigger] T::spec_from_value(entries[i].1) is Ok,
    ensures
        entries_from::<T>(entries) == Ok::<Seq<(Seq<char>, T::V)>, ParseFailure>(
            Seq::new(entries.len(), |i: int| (entries[i].0@, T::spec_from_value(entries[i].1)->Ok_0)),
        ),
    decreases entries.len(),
{
    if entries.len() > 0 {
        let front = entries.drop_last();
        assert forall|i: int| 0 <= i < front.len() implies #[trigger] T::spec_from_value(front[i].1) is Ok by {
            assert(front[i] == entries[i]);
        }
        lemma_entries_all_read::<T>(front);
        assert(T::spec_from_value(entries[entries.len() - 1].1) is Ok);
        assert(Seq::new(front.len(), |i: int| (front[i].0@, T::spec_from_value(front[i].1)->Ok_0)).push(
            (entries.last().0@, T::spec_from_value(entries.last().1)->Ok_0),
        ) =~= Seq::new(entries.len(), |i: int| (entries[i].0@, T::spec_from_value(entries[i].1)->Ok_0)));
    } else {
        assert(Seq::new(entries.len(), |i: int| (entries[i].0@, T::spec_from_value(entries[i].1)->Ok_0))
            =~= Seq::<(Seq<char>, T::V)>::empty());
    }
}

/// The entries read from a sequence whose entry `k` is the first whose
/// value fails to read: that failure.
proof fn lemma_entries_first_failure<T: FromValue>(entries: Seq<(String, Value)>, k: int)
    requires
        0 <= k < entries.len(),
        T::spec_from_value(entries[k].1) is Err,
        forall|i: int| 0 <= i < k ==> #[trigger] T::spec_from_value(entries[i].1) is Ok,
    ensures
        entries_from::<T>(entries) == Err::<Seq<(Seq<char>, T::V)>, ParseFailure>(
            T::spec_from_value(entries[k].1)->Err_0,
        ),
    decreases entries.len(),
{
    let front = entries.drop_last();
    if k == entries.len() - 1 {
        assert forall|i: int| 0 <= i < front.len() implies #[trigger] T::spec_from_value(front[i].1) is Ok by {
            assert(front[i] == entries[i]);
        }
        lemma_entries_all_read::<T>(front);
    } else {
        assert(front[k] == entries[k]);
        assert forall|i: int| 0 <= i < k implies #[trigger] T::spec_from_value(front[i].1) is Ok by {
            assert(front[i] == entries[i]);
        }
        lemma_entries_first_failure::<T>(front, k);
    }
}

/// Reading a map: the entries of an object, in order, each key with its
/// value read as `T`, when every value reads; otherwise the first value
/// that fails to read gives the failure.
pub proof fn law_map_reads_each_entry<T: FromValue>(entries: Seq<(String, Value)>)
    ensures
        (forall|i: int| 0 <= i < entries.len() ==> #[trigger] T::spec_from_value(entries[i].1) is Ok)
            ==> entries_from::<T>(entries) == Ok::<Seq<(Seq<char>, T::V)>, ParseFailure>(
            Seq::new(entries.len(), |i: int| (entries[i].0@, T::spec_from_value(entries[i].1)->Ok_0)),
        ),
        forall|k: int|
            0 <= k < entries.len() && #[trigger] T::spec_from_value(entries[k].1) is Err && (forall|
                i: int,
            |
                0 <= i < k ==> T::spec_from_value(entries[i].1) is Ok) ==> entries_from::<T>(entries)
                == Err::<Seq<(Seq<char>, T::V)>, ParseFailure>(T::spec_from_value(entries[k].1)->Err_0),
{
    if forall|i: int| 0 <= i < entries.len() ==> #[trigger] T::spec_from_value(entries[i].1) is Ok {
        lemma_entries_all_read::<T>(entries);
    }
    assert forall|k: int|
        0 <= k < entries.len() && #[trigger] T::spec_from_value(entries[k].1) is Err && (forall|i: int|
            0 <= i < k ==> T::spec_from_value(entries[i].1) is Ok) implies entries_from::<T>(entries)
        == Err::<Seq<(Seq<char>, T::V)>, ParseFailure>(T::spec_from_value(entries[k].1)->Err_0) by {
        lemma_entries_first_failure::<T>(entries, k);
    }
}

/// Reading a map from a value that is no object is refused, naming the map
/// type with the key type's name.
pub proof fn law_map_refuses_non_objects<T: FromValue>(key_label: Seq<char>, other: Value)
    requires
        !(other is Object),
    ensures
        spec_map_entries_from_value::<T>(key_label, other) == Err::<
            Seq<(Seq<char>, T::V)>,
            ParseFailure,
        >(labeled_failure("std::collections::hash::map::HashMap<"@ + key_label + ", "@
            + T::spec_type_label() + ">"@)),
{
}

/// Taking a key out of an object: an absent key gives nothing, and where
/// the key is required, a failure of kind `FieldAbsent` naming the key; a
/// present key gives its value read as `T`, and a failure to read it is
/// placed under the key: `/`, the key, then the failure's own path.
pub proof fn law_take_reads_the_keys_value<T: FromValue>(
    object: Map<Seq<char>, Value>,
    key: Seq<char>,
)
    ensures
        !object.contains_key(key) ==> spec_take_optional::<T>(object, key) == Ok::<
            Option<T::V>,
            ParseFailure,
        >(None),
        !object.contains_key(key) ==> spec_take::<T>(object, key) == Err::<T::V, ParseFailure>(
            ParseFailure {
                kind: ParseErrorKind::FieldAbsent,
                path: Seq::<char>::empty(),
                expected: key,
            },
        ),
        object.contains_key(key) && T::spec_from_value(object[key]) is Ok ==> spec_take_optional::<
            T,
        >(object, key) == Ok::<Option<T::V>, ParseFailure>(
            Some(T::spec_from_value(object[key])->Ok_0),
        ) && spec_take::<T>(object, key) == Ok::<T::V, ParseFailure>(
            T::spec_from_value(object[key])->Ok_0,
        ),
        object.contains_key(key) && T::spec_from_value(object[key]) is Err ==> {
            let e = T::spec_from_value(object[key])->Err_0;
            let placed = ParseFailure {
                kind: e.kind,
                path: seq!['/'] + key + e.path,
                expected: e.expected,
            };
            &&& spec_take_optional::<T>(object, key) == Err::<Option<T::V>, ParseFailure>(placed)
            &&& spec_take::<T>(object, key) == Err::<T::V, ParseFailure>(placed)
        },
{
}

} // verus!
