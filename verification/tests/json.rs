use plemeshko::json::from_value::{
    map_entries_from_value, try_take_key, try_take_optional_key,
};
use plemeshko::json::{
    parse_type_err, parse_type_err_res, FromValue, Number, Object, ParseError, ParseErrorKind,
    Path, Value,
};

fn num(n: u64) -> Value {
    Value::Number(Number::PosInt(n))
}

fn neg(n: i64) -> Value {
    Value::Number(Number::NegInt(n))
}

fn text(s: &str) -> Value {
    Value::String(s.to_string())
}

fn object(pairs: Vec<(&str, Value)>) -> Object {
    let mut object = Object::new();
    for (key, value) in pairs {
        object.insert(key.to_string(), value);
    }
    object
}

fn error_text(e: &ParseError) -> String {
    e.to_string()
}

#[test]
fn path_lift_prepends_key() {
    let path = Path::from_key("inner".to_string()).lift("outer");
    assert_eq!(path.to_string(), "/outer/inner");
    assert_eq!(Path::from_key("k".to_string()).to_string(), "/k");
    assert_eq!(
        Path::from_key("a".to_string()).to_string(),
        Path::new().lift("a").to_string()
    );
    assert_eq!(Path::new().lift("a").lift("b").to_string(), "/b/a");
    assert_eq!(Path::new().to_string(), "");
}

#[test]
fn path_check_key_rejects_delimiter() {
    assert!(Path::check_key("name"));
    assert!(Path::check_key(""));
    assert!(!Path::check_key("a/b"));
    assert!(!Path::check_key("/"));
}

#[test]
fn parse_error_text_and_lift() {
    let e = ParseError {
        kind: ParseErrorKind::FieldAbsent,
        path: Path::new(),
        expected: "cost".to_string(),
    };
    let e = e.lift("recipe").lift("factory");
    assert_eq!(e.path.to_string(), "/factory/recipe");
    assert_eq!(error_text(&e), "Field absent, expected \"cost\", path \"/factory/recipe\"");
    let v = ParseError {
        kind: ParseErrorKind::ValidationFailed,
        path: Path::new(),
        expected: "x".to_string(),
    };
    assert_eq!(error_text(&v), "Validation failed, expected \"x\", path \"\"");
}

#[test]
fn parse_type_err_names_the_type() {
    let e = parse_type_err::<u8>();
    assert_eq!(e.kind, ParseErrorKind::UnexpectedType);
    assert_eq!(e.expected, "u8");
    assert_eq!(e.path.to_string(), "");
    let r = parse_type_err_res::<bool>();
    assert_eq!(r.unwrap_err().expected, "bool");
}

#[test]
fn basic_types_parse() {
    assert_eq!(bool::from_value(Value::Bool(true)).unwrap(), true);
    assert_eq!(String::from_value(text("hi")).unwrap(), "hi");
    assert!(<()>::from_value(Value::Null).is_ok());
    let e = bool::from_value(Value::Null).unwrap_err();
    assert_eq!(e.kind, ParseErrorKind::UnexpectedType);
    assert_eq!(e.expected, "bool");
    let e = String::from_value(num(1)).unwrap_err();
    assert_eq!(e.expected, "alloc::string::String");
    let o = Object::from_value(Value::Object(object(vec![("a", num(1))]))).unwrap();
    assert_eq!(o.len(), 1);
    assert!(Object::from_value(Value::Null).is_err());
    assert!(matches!(Value::from_value(num(3)).unwrap(), Value::Number(Number::PosInt(3))));
}

#[test]
fn unsigned_integers_check_their_range() {
    assert_eq!(u64::from_value(num(u64::MAX)).unwrap(), u64::MAX);
    assert_eq!(u8::from_value(num(255)).unwrap(), 255u8);
    let e = u8::from_value(num(256)).unwrap_err();
    assert_eq!(e.expected, "u8");
    assert_eq!(e.kind, ParseErrorKind::UnexpectedType);
    assert_eq!(u16::from_value(num(65535)).unwrap(), 65535u16);
    assert_eq!(u16::from_value(num(65536)).unwrap_err().expected, "u16");
    assert_eq!(u32::from_value(num(4294967295)).unwrap(), u32::MAX);
    assert_eq!(u32::from_value(num(4294967296)).unwrap_err().expected, "u32");
    assert_eq!(u128::from_value(num(7)).unwrap(), 7u128);
    assert_eq!(u64::from_value(neg(-1)).unwrap_err().expected, "u64");
    assert_eq!(u8::from_value(neg(-1)).unwrap_err().expected, "u64");
    assert_eq!(u128::from_value(text("1")).unwrap_err().expected, "u64");
    let float = Value::Number(Number::Float(1.5f64.to_bits()));
    assert_eq!(u64::from_value(float).unwrap_err().expected, "u64");
}

#[test]
fn signed_integers_check_their_range() {
    assert_eq!(i64::from_value(neg(i64::MIN)).unwrap(), i64::MIN);
    assert_eq!(i64::from_value(num(i64::MAX as u64)).unwrap(), i64::MAX);
    assert_eq!(i64::from_value(num(i64::MAX as u64 + 1)).unwrap_err().expected, "i64");
    assert_eq!(i8::from_value(neg(-128)).unwrap(), -128i8);
    assert_eq!(i8::from_value(neg(-129)).unwrap_err().expected, "i8");
    assert_eq!(i8::from_value(num(127)).unwrap(), 127i8);
    assert_eq!(i8::from_value(num(128)).unwrap_err().expected, "i8");
    assert_eq!(i16::from_value(neg(-32769)).unwrap_err().expected, "i16");
    assert_eq!(i32::from_value(num(2147483648)).unwrap_err().expected, "i32");
    assert_eq!(i32::from_value(neg(-2147483648)).unwrap(), i32::MIN);
    assert_eq!(i128::from_value(neg(-5)).unwrap(), -5i128);
    assert_eq!(i128::from_value(Value::Null).unwrap_err().expected, "i64");
}

#[test]
fn option_reads_null_as_none() {
    assert_eq!(Option::<u8>::from_value(Value::Null).unwrap(), None);
    assert_eq!(Option::<u8>::from_value(num(4)).unwrap(), Some(4));
    assert_eq!(Option::<u8>::from_value(num(400)).unwrap_err().expected, "u8");
}

#[test]
fn vec_reads_each_element() {
    let v = Vec::<u8>::from_value(Value::Array(vec![num(1), num(2), num(3)])).unwrap();
    assert_eq!(v, vec![1, 2, 3]);
    let e = Vec::<u8>::from_value(Value::Array(vec![num(1), num(300)])).unwrap_err();
    assert_eq!(e.expected, "u8");
    assert_eq!(Vec::<u8>::from_value(Value::Array(vec![])).unwrap(), Vec::<u8>::new());
    assert!(Vec::<u8>::from_value(num(1)).is_err());
}

#[test]
fn tuples_need_their_exact_length() {
    let pair = <(u8, bool)>::from_value(Value::Array(vec![num(1), Value::Bool(false)])).unwrap();
    assert_eq!(pair, (1, false));
    let e = <(u8, bool)>::from_value(Value::Array(vec![num(1)])).unwrap_err();
    assert_eq!(e.expected, "Array length is exactly 2.");
    assert_eq!(e.kind, ParseErrorKind::UnexpectedType);
    let e = <(u8, u8, u8)>::from_value(Value::Array(vec![num(1), num(2)])).unwrap_err();
    assert_eq!(e.expected, "Array length is exactly 3.");
    let e = <(u8, bool)>::from_value(Value::Null).unwrap_err();
    assert_eq!(e.expected, "(u8, bool)");
    let e = <(u8, bool)>::from_value(Value::Array(vec![num(1), num(2)])).unwrap_err();
    assert_eq!(e.expected, "bool");
    let ten = <(u8, u8, u8, u8, u8, u8, u8, u8, u8, u8)>::from_value(Value::Array(
        (0..10).map(num).collect(),
    ))
    .unwrap();
    assert_eq!(ten, (0, 1, 2, 3, 4, 5, 6, 7, 8, 9));
}

#[test]
fn map_entries_read_each_value() {
    let value = Value::Object(object(vec![("a", num(1)), ("b", num(2))]));
    let entries = map_entries_from_value::<u8>("alloc::string::String", value).unwrap();
    assert_eq!(entries.len(), 2);
    assert!(entries.contains(&("a".to_string(), 1)));
    assert!(entries.contains(&("b".to_string(), 2)));
    let bad = Value::Object(object(vec![("a", text("x"))]));
    assert_eq!(map_entries_from_value::<u8>("alloc::string::String", bad).unwrap_err().expected, "u64");
    assert!(map_entries_from_value::<u8>("alloc::string::String", Value::Null).is_err());
}

#[test]
fn take_key_removes_and_reads() {
    let mut o = object(vec![("count", num(3)), ("name", text("mine"))]);
    let count: u8 = try_take_key(&mut o, "count").unwrap();
    assert_eq!(count, 3);
    assert!(o.get("count").is_none());
    assert_eq!(o.len(), 1);
    let e = try_take_key::<u8>(&mut o, "count").unwrap_err();
    assert_eq!(e.kind, ParseErrorKind::FieldAbsent);
    assert_eq!(e.expected, "count");
    assert_eq!(e.path.to_string(), "");
    let e = try_take_key::<u8>(&mut o, "name").unwrap_err();
    assert_eq!(e.kind, ParseErrorKind::UnexpectedType);
    assert_eq!(e.path.to_string(), "/name");
    assert_eq!(o.len(), 0);
}

#[test]
fn take_optional_key_gives_none_when_absent() {
    let mut o = object(vec![("x", num(9))]);
    assert_eq!(try_take_optional_key::<u8>(&mut o, "y").unwrap(), None);
    assert_eq!(try_take_optional_key::<u8>(&mut o, "x").unwrap(), Some(9));
    assert_eq!(try_take_optional_key::<u8>(&mut o, "x").unwrap(), None);
}

#[test]
fn object_insert_get_remove() {
    let mut o = Object::new();
    assert!(o.insert("k".to_string(), num(1)).is_none());
    assert!(matches!(o.insert("k".to_string(), num(2)), Some(Value::Number(Number::PosInt(1)))));
    assert_eq!(o.len(), 1);
    assert!(matches!(o.get("k"), Some(Value::Number(Number::PosInt(2)))));
    assert!(matches!(o.remove("k"), Some(Value::Number(Number::PosInt(2)))));
    assert!(o.remove("k").is_none());
    assert_eq!(o.len(), 0);
}

#[test]
fn number_conversions() {
    assert_eq!(Number::PosInt(5).as_u64(), Some(5));
    assert_eq!(Number::PosInt(5).as_i64(), Some(5));
    assert_eq!(Number::PosInt(u64::MAX).as_i64(), None);
    assert_eq!(Number::NegInt(-5).as_u64(), None);
    assert_eq!(Number::NegInt(-5).as_i64(), Some(-5));
    assert_eq!(Number::Float(0).as_u64(), None);
    assert_eq!(Number::Float(0).as_i64(), None);
}

#[test]
fn type_labels_name_the_types() {
    assert_eq!(Vec::<u8>::type_label(), "alloc::vec::Vec<u8>");
    assert_eq!(Option::<bool>::type_label(), "core::option::Option<bool>");
    assert_eq!(<(u8, String)>::type_label(), "(u8, alloc::string::String)");
    assert_eq!(Value::type_label(), "serde_json::value::Value");
    assert_eq!(<()>::type_label(), "()");
    assert_eq!(
        Object::from_value(Value::Null).unwrap_err().expected,
        "serde_json::map::Map<alloc::string::String, serde_json::value::Value>"
    );
    assert_eq!(
        map_entries_from_value::<u8>("alloc::string::String", Value::Null).unwrap_err().expected,
        "std::collections::hash::map::HashMap<alloc::string::String, u8>"
    );
    assert_eq!(
        map_entries_from_value::<u8>("plemeshko::config::id::ConfigId<u8>", Value::Null)
            .unwrap_err()
            .expected,
        "std::collections::hash::map::HashMap<plemeshko::config::id::ConfigId<u8>, u8>"
    );
}
