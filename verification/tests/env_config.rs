use plemeshko::env::{text_or_identifier, TextRetrievalError};
use std::any::TypeId;

use plemeshko::config::{ConfigLoadErrorPayload, ConfigRegistrationError, ConfigType};
use plemeshko::env::config::id::{ConfigId, ConfigLabel};
use plemeshko::env::config::indexer::{ConfigIndexer, IndexerError, IndexerView};
use plemeshko::env::config::repository::ConfigRetrievalError;
use plemeshko::env::config::repository_builder::{ConfigPrepare, ConfigRepositoryBuilder};
use plemeshko::env::{AppEnv, EnvError, SharedEnv, RESOURCE_LABEL_HUMAN};

fn resource_type() -> ConfigType {
    ConfigType { type_id: TypeId::of::<u64>(), type_label: "Resource", tag: "resource" }
}

fn recipe_type() -> ConfigType {
    ConfigType { type_id: TypeId::of::<u8>(), type_label: "Recipe", tag: "recipe" }
}

fn parse_error() -> serde_json::Error {
    serde_json::from_str::<u32>("{").unwrap_err()
}

/// Doubles the raw amount, and asks for the id of the resource it refers to.
struct Prepare;

impl ConfigPrepare<(u32, Option<String>), u64> for Prepare {
    fn spec_prepared(
        &self,
        _config_type: ConfigType,
        raw: (u32, Option<String>),
        _label: String,
        _indexer: IndexerView,
    ) -> u64 {
        raw.0 as u64 * 2
    }

    fn prepare(
        &self,
        _config_type: &ConfigType,
        raw: (u32, Option<String>),
        _label: ConfigLabel<u64>,
        indexer: &mut ConfigIndexer,
    ) -> u64 {
        if let Some(refers_to) = raw.1 {
            indexer.get_or_create_id::<u64>(&resource_type(), ConfigLabel::new(refers_to));
        }
        raw.0 as u64 * 2
    }
}

#[test]
fn indexer_hands_out_ids_in_order() {
    let mut indexer = ConfigIndexer::new();
    assert_eq!(indexer.id_count(), 0);
    let iron: ConfigId<u64> = indexer.get_or_create_id(&resource_type(), ConfigLabel::new("iron".to_string()));
    let gold: ConfigId<u64> = indexer.get_or_create_id(&resource_type(), ConfigLabel::new("gold".to_string()));
    assert_eq!(iron.index(), 0);
    assert_eq!(gold.index(), 1);
    assert_eq!(indexer.id_count(), 2);
    let again: ConfigId<u64> = indexer.get_or_create_id(&recipe_type(), ConfigLabel::new("iron".to_string()));
    assert!(again == iron);
    assert_eq!(indexer.id_count(), 2);
}

#[test]
fn indexer_round_trips_labels() {
    let mut indexer = ConfigIndexer::new();
    let id: ConfigId<u64> = indexer.get_or_create_id(&resource_type(), ConfigLabel::new("human".to_string()));
    let label = indexer.get_label(id).unwrap();
    assert_eq!(label.as_str(), "human");
    let found: ConfigId<u64> = indexer.get_id(&resource_type(), "human".to_string()).unwrap();
    assert!(found == id);
}

#[test]
fn indexer_errors() {
    let mut indexer = ConfigIndexer::new();
    match indexer.get_id::<u64>(&resource_type(), "nobody".to_string()) {
        Err(IndexerError::LabelNotRegistered { label }) => assert_eq!(label, "nobody"),
        _ => panic!("expected LabelNotRegistered"),
    }
    let _: ConfigId<u8> = indexer.get_or_create_id(&recipe_type(), ConfigLabel::new("bread".to_string()));
    match indexer.get_id::<u64>(&resource_type(), "bread".to_string()) {
        Err(IndexerError::LabelNotRegisteredForType { label, tag }) => {
            assert_eq!(label, "bread");
            assert_eq!(tag, "resource");
        }
        _ => panic!("expected LabelNotRegisteredForType"),
    }
    match indexer.get_label(ConfigId::<u64>::new(7)) {
        Err(IndexerError::LabelNotFound { id }) => assert_eq!(id, 7),
        _ => panic!("expected LabelNotFound"),
    }
}

#[test]
fn config_label_and_id_basics() {
    let label: ConfigLabel<u64> = ConfigLabel::from("coal".to_string());
    assert!(label.clone() == ConfigLabel::new("coal".to_string()));
    assert_eq!(label.into_string(), "coal");
    let id: ConfigId<u64> = ConfigId::new(3);
    let copy = id;
    assert!(copy == id.clone());
    assert!(id != ConfigId::new(4));
}

#[test]
fn build_gives_every_loaded_label_an_id_and_config() {
    let mut builder = ConfigRepositoryBuilder::<(u32, Option<String>)>::new();
    builder.register(resource_type()).unwrap();
    builder.register(recipe_type()).unwrap();
    builder.load_raw("resource", "human".to_string(), |_| Ok((1, None))).unwrap();
    builder.load_raw("resource", "iron".to_string(), |_| Ok((5, None))).unwrap();
    builder.load_raw("recipe", "smelt".to_string(), |_| Ok((3, Some("coal".to_string())))).unwrap();
    let repository = match builder.build(&Prepare) {
        Ok(repository) => repository,
        Err(_) => panic!("build failed"),
    };
    let iron: ConfigId<u64> = repository.indexer().get_id(&resource_type(), "iron".to_string()).unwrap();
    assert_eq!(*repository.get(&resource_type(), iron).unwrap(), 10);
    let smelt: ConfigId<u8> = repository.indexer().get_id(&recipe_type(), "smelt".to_string()).unwrap();
    assert_eq!(*repository.get(&recipe_type(), smelt).unwrap(), 6);
    // The recipe's preparation asked for coal, which has an id but no config.
    let coal: ConfigId<u64> = repository.indexer().get_id(&resource_type(), "coal".to_string()).unwrap();
    match repository.get(&resource_type(), coal) {
        Err(ConfigRetrievalError::NotInStore { key, tag }) => {
            assert_eq!(key, "coal");
            assert_eq!(tag, "resource");
        }
        _ => panic!("expected NotInStore"),
    }
    assert_eq!(repository.indexer().id_count(), 4);
    assert_eq!(repository.get_store(&resource_type()).unwrap().len(), 2);
}

#[test]
fn get_reports_unknown_ids_by_number() {
    let mut builder = ConfigRepositoryBuilder::<(u32, Option<String>)>::new();
    builder.register(resource_type()).unwrap();
    let repository = match builder.build(&Prepare) {
        Ok(repository) => repository,
        Err(_) => panic!("build failed"),
    };
    match repository.get(&resource_type(), ConfigId::<u64>::new(42)) {
        Err(ConfigRetrievalError::NotInStore { key, .. }) => assert_eq!(key, "42?!"),
        _ => panic!("expected NotInStore"),
    }
    match repository.get(&recipe_type(), ConfigId::<u8>::new(0)) {
        Err(ConfigRetrievalError::StoreNotRegistered { tag }) => assert_eq!(tag, "recipe"),
        _ => panic!("expected StoreNotRegistered"),
    }
    assert!(repository.get_store(&recipe_type()).is_err());
}

#[test]
fn builder_refuses_repeats() {
    let mut builder = ConfigRepositoryBuilder::<(u32, Option<String>)>::new();
    builder.register(resource_type()).unwrap();
    match builder.register(resource_type()) {
        Err(ConfigRegistrationError::TypeAlreadyRegistered { type_label }) => {
            assert_eq!(type_label, "Resource")
        }
        _ => panic!("expected TypeAlreadyRegistered"),
    }
    let same_type_other_tag =
        ConfigType { type_id: TypeId::of::<u64>(), type_label: "Resource", tag: "material" };
    assert!(matches!(
        builder.register(same_type_other_tag),
        Err(ConfigRegistrationError::TypeAlreadyRegistered { .. })
    ));
    match builder.load_raw("unknown", "x".to_string(), |_| Ok((0, None))) {
        Err(ConfigLoadErrorPayload::TagNotRegistered { tag }) => assert_eq!(tag, "unknown"),
        _ => panic!("expected TagNotRegistered"),
    }
    assert!(matches!(
        builder.load_raw("resource", "x".to_string(), |_| Err(parse_error())),
        Err(ConfigLoadErrorPayload::ParsingFailed(_))
    ));
    builder.load_raw("resource", "x".to_string(), |_| Ok((1, None))).unwrap();
    match builder.load_raw("resource", "x".to_string(), |_| Ok((2, None))) {
        Err(ConfigLoadErrorPayload::IdAlreadyOccupied { id }) => assert_eq!(id, "x"),
        _ => panic!("expected IdAlreadyOccupied"),
    }
}

#[test]
fn shared_env_finds_the_population() {
    assert_eq!(RESOURCE_LABEL_HUMAN, "human");
    let mut builder = ConfigRepositoryBuilder::<(u32, Option<String>)>::new();
    builder.register(resource_type()).unwrap();
    builder.load_raw("resource", "iron".to_string(), |_| Ok((5, None))).unwrap();
    builder.load_raw("resource", "human".to_string(), |_| Ok((1, None))).unwrap();
    let env = match SharedEnv::new(builder, &Prepare, &resource_type()) {
        Ok(env) => env,
        Err(_) => panic!("expected the environment"),
    };
    assert_eq!(*env.configs.get(&resource_type(), env.human_id).unwrap(), 2);
}

#[test]
fn shared_env_without_population_fails() {
    let mut builder = ConfigRepositoryBuilder::<(u32, Option<String>)>::new();
    builder.register(resource_type()).unwrap();
    builder.load_raw("resource", "iron".to_string(), |_| Ok((5, None))).unwrap();
    match SharedEnv::new(builder, &Prepare, &resource_type()) {
        Err(EnvError::Indexer { error: IndexerError::LabelNotRegistered { label }, configs }) => {
            assert_eq!(label, "human");
            assert_eq!(configs.indexer().id_count(), 1);
        }
        _ => panic!("expected LabelNotRegistered"),
    }
}

#[test]
fn app_env_shares_the_configs() {
    let mut builder = ConfigRepositoryBuilder::<(u32, Option<String>)>::new();
    builder.register(resource_type()).unwrap();
    builder.load_raw("resource", "human".to_string(), |_| Ok((4, None))).unwrap();
    let shared = match SharedEnv::new(builder, &Prepare, &resource_type()) {
        Ok(env) => Box::leak(Box::new(env)),
        Err(_) => panic!("expected the environment"),
    };
    let app = AppEnv::new(shared, "texts");
    assert_eq!(app.texts, "texts");
    assert_eq!(*app.configs().get(&resource_type(), shared.human_id).unwrap(), 8);
}

#[test]
fn shared_env_with_population_of_another_type_fails() {
    let mut builder = ConfigRepositoryBuilder::<(u32, Option<String>)>::new();
    builder.register(resource_type()).unwrap();
    builder.register(recipe_type()).unwrap();
    builder.load_raw("recipe", "human".to_string(), |_| Ok((1, None))).unwrap();
    match SharedEnv::new(builder, &Prepare, &resource_type()) {
        Err(EnvError::Indexer {
            error: IndexerError::LabelNotRegisteredForType { label, tag },
            configs,
        }) => {
            assert_eq!(label, "human");
            assert_eq!(tag, "resource");
            let recipe: ConfigId<u8> =
                configs.indexer().get_id(&recipe_type(), "human".to_string()).unwrap();
            assert_eq!(*configs.get(&recipe_type(), recipe).unwrap(), 2);
        }
        _ => panic!("expected LabelNotRegisteredForType"),
    }
}

#[test]
fn missing_text_shows_its_identifier() {
    let found: Result<String, TextRetrievalError<u8>> = Ok("Start".to_string());
    assert_eq!(text_or_identifier(found), Ok("Start".to_string()));
    let missing: Result<String, TextRetrievalError<u8>> =
        Err(TextRetrievalError::NotFound("ui_new-game_start".to_string()));
    assert_eq!(text_or_identifier(missing), Ok("ui_new-game_start".to_string()));
    let failed: Result<String, TextRetrievalError<u8>> = Err(TextRetrievalError::Other(3));
    assert_eq!(text_or_identifier(failed), Err(3));
}
