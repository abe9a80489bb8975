use std::any::TypeId;
use std::path::PathBuf;

use plemeshko::config::{
    ConfigId, ConfigLoadError, ConfigLoadErrorPayload, ConfigRegistrationError, ConfigRepositoryBuilder,
    ConfigRetrievalError, ConfigType,
};

fn number_type() -> ConfigType {
    ConfigType { type_id: TypeId::of::<u32>(), type_label: "u32", tag: "number" }
}

fn word_type() -> ConfigType {
    ConfigType { type_id: TypeId::of::<String>(), type_label: "String", tag: "word" }
}

fn parse_error() -> serde_json::Error {
    serde_json::from_str::<u32>("not a number").unwrap_err()
}

#[test]
fn config_id_keeps_its_name() {
    let id: ConfigId<u32> = ConfigId::new("iron".to_string());
    assert_eq!(id.as_str(), "iron");
    assert_eq!(id.to_string(), "iron");
    assert!(id.clone() == ConfigId::new("iron".to_string()));
    assert!(id != ConfigId::new("gold".to_string()));
    let from: ConfigId<u32> = ConfigId::from("iron".to_string());
    assert!(from == id);
    assert_eq!(id.into_string(), "iron");
}

#[test]
fn load_then_get_finds_the_config() {
    let mut builder = ConfigRepositoryBuilder::<u32>::new();
    builder.register(number_type()).unwrap();
    builder.load_raw(PathBuf::from("numbers.json"), "number", "one".to_string(), |_| Ok(1)).unwrap();
    builder.load_raw(PathBuf::from("numbers.json"), "number", "two".to_string(), |_| Ok(2)).unwrap();
    let repository = builder.build();
    let one: ConfigId<u32> = ConfigId::new("one".to_string());
    let two: ConfigId<u32> = ConfigId::new("two".to_string());
    assert_eq!(*repository.get(&number_type(), &one).unwrap(), 1);
    assert_eq!(*repository.get(&number_type(), &two).unwrap(), 2);
}

#[test]
fn get_reports_missing_store_and_name() {
    let mut builder = ConfigRepositoryBuilder::<u32>::new();
    builder.register(number_type()).unwrap();
    builder.load_raw(PathBuf::from("numbers.json"), "number", "one".to_string(), |_| Ok(1)).unwrap();
    let repository = builder.build();
    let missing: ConfigId<u32> = ConfigId::new("three".to_string());
    match repository.get(&number_type(), &missing) {
        Err(ConfigRetrievalError::NotInStore { type_label, id }) => {
            assert_eq!(type_label, "u32");
            assert_eq!(id, "three");
        }
        _ => panic!("expected NotInStore"),
    }
    let word: ConfigId<u32> = ConfigId::new("one".to_string());
    match repository.get(&word_type(), &word) {
        Err(ConfigRetrievalError::StoreNotRegistered { type_label }) => {
            assert_eq!(type_label, "String")
        }
        _ => panic!("expected StoreNotRegistered"),
    }
}

#[test]
fn register_twice_is_refused() {
    let mut builder = ConfigRepositoryBuilder::<u32>::new();
    assert!(builder.register(number_type()).is_ok());
    match builder.register(number_type()) {
        Err(ConfigRegistrationError::TypeAlreadyRegistered { type_label }) => {
            assert_eq!(type_label, "u32")
        }
        _ => panic!("expected TypeAlreadyRegistered"),
    }
}

#[test]
fn register_another_type_under_a_taken_tag_is_refused() {
    let mut builder = ConfigRepositoryBuilder::<u32>::new();
    builder.register(number_type()).unwrap();
    let clash = ConfigType { type_id: TypeId::of::<u8>(), type_label: "u8", tag: "number" };
    match builder.register(clash) {
        Err(ConfigRegistrationError::TagAlreadyRegistered { tag }) => assert_eq!(tag, "number"),
        _ => panic!("expected TagAlreadyRegistered"),
    }
    // The type got its store before the tag was refused.
    let repository = builder.build();
    let any: ConfigId<u8> = ConfigId::new("x".to_string());
    let clash = ConfigType { type_id: TypeId::of::<u8>(), type_label: "u8", tag: "number" };
    assert!(matches!(
        repository.get(&clash, &any),
        Err(ConfigRetrievalError::NotInStore { .. })
    ));
}

#[test]
fn load_errors_come_in_order() {
    let mut builder = ConfigRepositoryBuilder::<u32>::new();
    match builder.load_raw(PathBuf::from("numbers.json"), "number", "one".to_string(), |_| Ok(1)) {
        Err(ConfigLoadError { payload: ConfigLoadErrorPayload::TagNotRegistered { tag }, .. }) => assert_eq!(tag, "number"),
        _ => panic!("expected TagNotRegistered"),
    }
    builder.register(number_type()).unwrap();
    match builder.load_raw(PathBuf::from("numbers.json"), "number", "one".to_string(), |_| Err(parse_error())) {
        Err(ConfigLoadError { payload: ConfigLoadErrorPayload::ParsingFailed(_), .. }) => {}
        _ => panic!("expected ParsingFailed"),
    }
    builder.load_raw(PathBuf::from("numbers.json"), "number", "one".to_string(), |_| Ok(1)).unwrap();
    match builder.load_raw(PathBuf::from("numbers.json"), "number", "one".to_string(), |_| Ok(5)) {
        Err(ConfigLoadError { payload: ConfigLoadErrorPayload::IdAlreadyOccupied { id }, .. }) => assert_eq!(id, "one"),
        _ => panic!("expected IdAlreadyOccupied"),
    }
    let repository = builder.build();
    let one: ConfigId<u32> = ConfigId::new("one".to_string());
    assert_eq!(*repository.get(&number_type(), &one).unwrap(), 1);
}

#[test]
fn parse_is_handed_the_tag_type() {
    let mut builder = ConfigRepositoryBuilder::<u32>::new();
    builder.register(number_type()).unwrap();
    builder
        .load_raw(PathBuf::from("numbers.json"), "number", "seen".to_string(), |config_type| {
            assert_eq!(config_type.tag, "number");
            assert_eq!(config_type.type_label, "u32");
            Ok(7)
        })
        .unwrap();
}

#[test]
fn failed_load_changes_nothing() {
    let mut builder = ConfigRepositoryBuilder::<u32>::new();
    builder.register(number_type()).unwrap();
    assert!(builder.load_raw(PathBuf::from("numbers.json"), "number", "one".to_string(), |_| Err(parse_error())).is_err());
    builder.load_raw(PathBuf::from("numbers.json"), "number", "one".to_string(), |_| Ok(3)).unwrap();
    let repository = builder.build();
    let one: ConfigId<u32> = ConfigId::new("one".to_string());
    assert_eq!(*repository.get(&number_type(), &one).unwrap(), 3);
}

#[test]
fn stores_are_kept_per_type() {
    let mut builder = ConfigRepositoryBuilder::<u32>::new();
    builder.register(number_type()).unwrap();
    builder.register(word_type()).unwrap();
    builder.load_raw(PathBuf::from("numbers.json"), "number", "same".to_string(), |_| Ok(1)).unwrap();
    builder.load_raw(PathBuf::from("numbers.json"), "word", "same".to_string(), |_| Ok(2)).unwrap();
    let repository = builder.build();
    let same: ConfigId<u32> = ConfigId::new("same".to_string());
    assert_eq!(*repository.get(&number_type(), &same).unwrap(), 1);
    assert_eq!(*repository.get(&word_type(), &same).unwrap(), 2);
}

#[test]
fn load_failure_carries_the_path() {
    let mut builder = ConfigRepositoryBuilder::<u32>::new();
    match builder.load_raw(PathBuf::from("data/numbers.json"), "number", "one".to_string(), |_| Ok(1)) {
        Err(ConfigLoadError { path, payload: ConfigLoadErrorPayload::TagNotRegistered { tag } }) => {
            assert_eq!(path, PathBuf::from("data/numbers.json"));
            assert_eq!(tag, "number");
        }
        _ => panic!("expected TagNotRegistered"),
    }
}
