//! Building a repository: registering config types, then loading configs
//! of the registered tags.

use std::any::TypeId;
use std::path::PathBuf;

use vstd::prelude::*;

use super::repository::ConfigRepository;
use super::store::{
    by_name, by_tag, by_type, find_name, find_tag, find_type, lemma_stores_at, lemma_stores_push,
    lemma_stores_remove, store_map, stores_map, stores_wf, ConfigStore, ConfigType,
};
use crate::assoc::{
    assoc_map, has_key, keys_unique, lemma_assoc_at, lemma_assoc_empty, lemma_assoc_push,
};

verus! {

/// `serde_json::Error`, the failure of parsing a config's payload.
#[verifier::external_type_specification]
#[verifier::external_body]
pub struct ExSerdeJsonError(serde_json::Error);

/// `std::path::PathBuf`, the file a config was read from.
#[verifier::external_type_specification]
#[verifier::external_body]
pub struct ExPathBuf(std::path::PathBuf);

/// Why a config type could not be registered.
#[derive(Debug)]
pub enum ConfigRegistrationError {
    TypeAlreadyRegistered { type_label: &'static str },
    TagAlreadyRegistered { tag: &'static str },
}

/// Why a config could not be loaded.
#[derive(Debug)]
pub enum ConfigLoadErrorPayload {
    /// A config of that type and name was loaded before.
    IdAlreadyOccupied { id: String },
    /// The tag's type has no store.
    StoreNotFound { tag: String },
    /// The payload did not parse as the tag's type.
    ParsingFailed(serde_json::Error),
    /// No type was registered under the tag.
    TagNotRegistered { tag: String },
}

/// A load failure, with the file it happened in.
#[derive(Debug)]
pub struct ConfigLoadError {
    pub path: PathBuf,
    pub payload: ConfigLoadErrorPayload,
}

/// The content of a load failure.
pub enum LoadFailure {
    IdAlreadyOccupied(Seq<char>),
    StoreNotFound(Seq<char>),
    ParsingFailed(serde_json::Error),
    TagNotRegistered(Seq<char>),
}

impl View for ConfigLoadErrorPayload {
    type V = LoadFailure;

    open spec fn view(&self) -> LoadFailure {
        match self {
            ConfigLoadErrorPayload::IdAlreadyOccupied { id } => LoadFailure::IdAlreadyOccupied(id@),
            ConfigLoadErrorPayload::StoreNotFound { tag } => LoadFailure::StoreNotFound(tag@),
            ConfigLoadErrorPayload::ParsingFailed(e) => LoadFailure::ParsingFailed(*e),
            ConfigLoadErrorPayload::TagNotRegistered { tag } => LoadFailure::TagNotRegistered(tag@),
        }
    }
}

/// The outcome of a load, with the failure seen through its view.
pub open spec fn load_outcome(loaded: Result<(), ConfigLoadErrorPayload>) -> Result<(), LoadFailure> {
    match loaded {
        Ok(()) => Ok(()),
        Err(e) => Err(e@),
    }
}

/// The outcome of a load from a file, with the failure seen through the
/// view of its content.
pub open spec fn located_outcome(loaded: Result<(), ConfigLoadError>) -> Result<(), LoadFailure> {
    match loaded {
        Ok(()) => Ok(()),
        Err(e) => Err(e.payload@),
    }
}

/// What a builder holds: the configs of each registered type by name, and
/// the type registered under each tag.
pub struct BuilderModel<P> {
    pub stores: Map<TypeId, Map<Seq<char>, P>>,
    pub loaders: Map<Seq<char>, ConfigType>,
}

/// Registering a type: a type registered before is refused and nothing
/// changes; otherwise the type gets an empty store, and then a tag
/// registered before is refused, the store staying; otherwise the tag
/// names the type.
pub open spec fn spec_register<P>(model: BuilderModel<P>, config_type: ConfigType) -> (
    BuilderModel<P>,
    Result<(), ConfigRegistrationError>,
) {
    if model.stores.contains_key(config_type.type_id) {
        (
            model,
            Err(
                ConfigRegistrationError::TypeAlreadyRegistered {
                    type_label: config_type.type_label,
                },
            ),
        )
    } else {
        let stored = BuilderModel {
            stores: model.stores.insert(config_type.type_id, Map::empty()),
            ..model
        };
        if model.loaders.contains_key(config_type.tag@) {
            (stored, Err(ConfigRegistrationError::TagAlreadyRegistered { tag: config_type.tag }))
        } else {
            (
                BuilderModel {
                    loaders: stored.loaders.insert(config_type.tag@, config_type),
                    ..stored
                },
                Ok(()),
            )
        }
    }
}

/// A load of the tag gets as far as parsing the payload: the tag is
/// registered and its type has a store.
pub open spec fn load_parses<P>(model: BuilderModel<P>, tag: Seq<char>) -> bool {
    model.loaders.contains_key(tag) && model.stores.contains_key(model.loaders[tag].type_id)
}

/// Loading a config of the tag under the name, where `parsed` is what
/// parsing the payload as the tag's type gives: an unknown tag, a type
/// without store, a parse failure and a name loaded before are refused in
/// that order, and nothing changes; otherwise the config joins its type's
/// store under the name.
pub open spec fn spec_load<P>(
    model: BuilderModel<P>,
    tag: Seq<char>,
    name: Seq<char>,
    parsed: Result<P, serde_json::Error>,
) -> (BuilderModel<P>, Result<(), LoadFailure>) {
    if !model.loaders.contains_key(tag) {
        (model, Err(LoadFailure::TagNotRegistered(tag)))
    } else if !model.stores.contains_key(model.loaders[tag].type_id) {
        (model, Err(LoadFailure::StoreNotFound(tag)))
    } else {
        let type_id = model.loaders[tag].type_id;
        match parsed {
            Err(e) => (model, Err(LoadFailure::ParsingFailed(e))),
            Ok(config) => if model.stores[type_id].contains_key(name) {
                (model, Err(LoadFailure::IdAlreadyOccupied(name)))
            } else {
                (
                    BuilderModel {
                        stores: model.stores.insert(
                            type_id,
                            model.stores[type_id].insert(name, config),
                        ),
                        ..model
                    },
                    Ok(()),
                )
            },
        }
    }
}

/// Each type has one store, each store one config per name, and each tag
/// one loader.
spec fn parts_wf<P>(
    repository: Seq<(TypeId, ConfigStore<P>)>,
    tagged_loaders: Seq<(&'static str, ConfigType)>,
) -> bool {
    &&& stores_wf(repository)
    &&& keys_unique(tagged_loaders, by_tag())
}

/// What the stores and the loaders hold.
spec fn parts_model<P>(
    repository: Seq<(TypeId, ConfigStore<P>)>,
    tagged_loaders: Seq<(&'static str, ConfigType)>,
) -> BuilderModel<P> {
    BuilderModel { stores: stores_map(repository), loaders: assoc_map(tagged_loaders, by_tag()) }
}

/// Registers config types and loads their configs, then gives the
/// repository.
pub struct ConfigRepositoryBuilder<P> {
    repository: Vec<(TypeId, ConfigStore<P>)>,
    tagged_loaders: Vec<(&'static str, ConfigType)>,
}

impl<P> ConfigRepositoryBuilder<P> {
    /// Each type has one store, each store one config per name, and each
    /// tag one loader.
    #[verifier::type_invariant]
    closed spec fn wf(self) -> bool {
        parts_wf(self.repository@, self.tagged_loaders@)
    }

    /// What the builder holds.
    pub closed spec fn model(&self) -> BuilderModel<P> {
        parts_model(self.repository@, self.tagged_loaders@)
    }

    /// A builder with no types registered.
    pub fn new() -> (builder: Self)
        ensures
            builder.model().stores == Map::<TypeId, Map<Seq<char>, P>>::empty(),
            builder.model().loaders == Map::<Seq<char>, ConfigType>::empty(),
    {
        let repository: Vec<(TypeId, ConfigStore<P>)> = Vec::new();
        let tagged_loaders: Vec<(&'static str, ConfigType)> = Vec::new();
        proof {
            lemma_assoc_empty(repository@, by_type());
            lemma_assoc_empty(tagged_loaders@, by_tag());
            assert(stores_map(repository@) =~= Map::<TypeId, Map<Seq<char>, P>>::empty());
        }
        ConfigRepositoryBuilder { repository, tagged_loaders }
    }

    /// Registers the config type under its tag.
    pub fn register(&mut self, config_type: ConfigType) -> (registered: Result<
        (),
        ConfigRegistrationError,
    >)
        ensures
            (final(self).model(), registered) == spec_register(old(self).model(), config_type),
    {
        let mut taken = Self::new();
        std::mem::swap(self, &mut taken);
        proof {
            use_type_invariant(&taken);
        }
        let ConfigRepositoryBuilder { mut repository, mut tagged_loaders } = taken;
        let registered = Self::register_parts(&mut repository, &mut tagged_loaders, config_type);
        *self = ConfigRepositoryBuilder { repository, tagged_loaders };
        registered
    }

    /// Loads a config of the tag under the name, read from the file at
    /// `path`; `parse` reads its payload as the tag's type, and is called
    /// only once the tag and its store have been found. A failure carries
    /// the path.
    pub fn load_raw<F: FnOnce(ConfigType) -> Result<P, serde_json::Error>>(
        &mut self,
        path: PathBuf,
        tag: &str,
        name: String,
        parse: F,
    ) -> (loaded: Result<(), ConfigLoadError>)
        requires
            load_parses(old(self).model(), tag@) ==> parse.requires(
                (old(self).model().loaders[tag@],),
            ),
        ensures
            exists|parsed: Result<P, serde_json::Error>|
                {
                    &&& load_parses(old(self).model(), tag@) ==> parse.ensures(
                        (old(self).model().loaders[tag@],),
                        parsed,
                    )
                    &&& #[trigger] spec_load(old(self).model(), tag@, name@, parsed) == (
                        final(self).model(),
                        located_outcome(loaded),
                    )
                },
            match loaded {
                Ok(()) => true,
                Err(e) => e.path == path,
            },
    {
        let mut taken = Self::new();
        std::mem::swap(self, &mut taken);
        proof {
            use_type_invariant(&taken);
        }
        let ConfigRepositoryBuilder { mut repository, mut tagged_loaders } = taken;
        let loaded = Self::load_parts(&mut repository, &mut tagged_loaders, tag, name, parse);
        *self = ConfigRepositoryBuilder { repository, tagged_loaders };
        match loaded {
            Ok(()) => Ok(()),
            Err(payload) => Err(ConfigLoadError { path, payload }),
        }
    }

    /// The repository of the loaded configs.
    pub fn build(self) -> (repository: ConfigRepository<P>)
        ensures
            repository.wf(),
            repository.configs() == self.model().stores,
    {
        proof {
            use_type_invariant(&self);
        }
        let repository = ConfigRepository::from_stores(self.repository);
        proof {
            use_type_invariant(&repository);
        }
        repository
    }

    /// Registering on the builder's parts.
    fn register_parts(
        repository: &mut Vec<(TypeId, ConfigStore<P>)>,
        tagged_loaders: &mut Vec<(&'static str, ConfigType)>,
        config_type: ConfigType,
    ) -> (registered: Result<
        (),
        ConfigRegistrationError,
    >)
        requires
            parts_wf(old(repository)@, old(tagged_loaders)@),
        ensures
            parts_wf(final(repository)@, final(tagged_loaders)@),
            (parts_model(final(repository)@, final(tagged_loaders)@), registered) == spec_register(
                parts_model(old(repository)@, old(tagged_loaders)@),
                config_type,
            ),
    {
        if find_type(&*repository, &config_type.type_id).is_some() {
            proof {
                let i = choose|i: int|
                    0 <= i < repository@.len() && repository@[i].0
                        == config_type.type_id;
                lemma_stores_at(repository@, i);
            }
            return Err(
                ConfigRegistrationError::TypeAlreadyRegistered {
                    type_label: config_type.type_label,
                },
            );
        }
        let store: ConfigStore<P> = Vec::new();
        proof {
            lemma_assoc_empty(store@, by_name::<P>());
            lemma_stores_push(repository@, config_type.type_id, store);
            assert(store_map(store@) =~= Map::<Seq<char>, P>::empty());
        }
        repository.push((config_type.type_id, store));
        match find_tag(&*tagged_loaders, config_type.tag) {
            Some(i) => {
                proof {
                    lemma_assoc_at(tagged_loaders@, by_tag(), i as int);
                }
                Err(ConfigRegistrationError::TagAlreadyRegistered { tag: config_type.tag })
            },
            None => {
                proof {
                    lemma_assoc_push(
                        tagged_loaders@,
                        by_tag(),
                        config_type.tag,
                        config_type,
                    );
                }
                tagged_loaders.push((config_type.tag, config_type));
                Ok(())
            },
        }
    }

    /// Loading on the builder's parts.
    fn load_parts<F: FnOnce(ConfigType) -> Result<P, serde_json::Error>>(
        repository: &mut Vec<(TypeId, ConfigStore<P>)>,
        tagged_loaders: &mut Vec<(&'static str, ConfigType)>,
        tag: &str,
        name: String,
        parse: F,
    ) -> (loaded: Result<(), ConfigLoadErrorPayload>)
        requires
            parts_wf(old(repository)@, old(tagged_loaders)@),
            load_parses(parts_model(old(repository)@, old(tagged_loaders)@), tag@)
                ==> parse.requires((parts_model(old(repository)@, old(tagged_loaders)@).loaders[tag@],)),
        ensures
            parts_wf(final(repository)@, final(tagged_loaders)@),
            exists|parsed: Result<P, serde_json::Error>|
                {
                    &&& load_parses(parts_model(old(repository)@, old(tagged_loaders)@), tag@)
                        ==> parse.ensures(
                        (parts_model(old(repository)@, old(tagged_loaders)@).loaders[tag@],),
                        parsed,
                    )
                    &&& #[trigger] spec_load(
                        parts_model(old(repository)@, old(tagged_loaders)@),
                        tag@,
                        name@,
                        parsed,
                    ) == (
                        parts_model(final(repository)@, final(tagged_loaders)@),
                        load_outcome(loaded),
                    )
                },
    {
        let ghost before = parts_model(repository@, tagged_loaders@);
        let ti = match find_tag(&*tagged_loaders, tag) {
            Some(i) => i,
            None => {
                let failure = ConfigLoadErrorPayload::TagNotRegistered { tag: String::from_str(tag) };
                proof {
                    let any: Result<P, serde_json::Error> = arbitrary();
                    assert(spec_load(before, tag@, name@, any) == (
                        parts_model(repository@, tagged_loaders@),
                        load_outcome(Err::<(), ConfigLoadErrorPayload>(failure)),
                    ));
                }
                return Err(failure);
            },
        };
        proof {
            lemma_assoc_at(tagged_loaders@, by_tag(), ti as int);
        }
        let config_type = tagged_loaders[ti].1;
        let si = match find_type(&*repository, &config_type.type_id) {
            Some(i) => i,
            None => {
                let failure = ConfigLoadErrorPayload::StoreNotFound { tag: String::from_str(tag) };
                proof {
                    let any: Result<P, serde_json::Error> = arbitrary();
                    assert(spec_load(before, tag@, name@, any) == (
                        parts_model(repository@, tagged_loaders@),
                        load_outcome(Err::<(), ConfigLoadErrorPayload>(failure)),
                    ));
                }
                return Err(failure);
            },
        };
        proof {
            lemma_stores_at(repository@, si as int);
        }
        let parsed = parse(config_type);
        let ghost parse_result = parsed;
        let config = match parsed {
            Ok(config) => config,
            Err(e) => {
                let failure = ConfigLoadErrorPayload::ParsingFailed(e);
                proof {
                    assert(spec_load(before, tag@, name@, parse_result) == (
                        parts_model(repository@, tagged_loaders@),
                        load_outcome(Err::<(), ConfigLoadErrorPayload>(failure)),
                    ));
                }
                return Err(failure);
            },
        };
        match find_name(&repository[si].1, name.as_str()) {
            Some(j) => {
                proof {
                    lemma_assoc_at(repository@[si as int].1@, by_name::<P>(), j as int);
                }
                let ghost id = name@;
                let failure = ConfigLoadErrorPayload::IdAlreadyOccupied { id: name };
                proof {
                    assert(spec_load(before, tag@, id, parse_result) == (
                        parts_model(repository@, tagged_loaders@),
                        load_outcome(Err::<(), ConfigLoadErrorPayload>(failure)),
                    ));
                }
                Err(failure)
            },
            None => {
                proof {
                    lemma_stores_remove(repository@, si as int);
                }
                let ghost name_view = name@;
                let (type_id, mut store) = repository.remove(si);
                proof {
                    lemma_assoc_push(store@, by_name::<P>(), name, config);
                    assert(!has_key(repository@, by_type(), type_id)) by {
                        if has_key(repository@, by_type(), type_id) {
                            let k = choose|k: int|
                                0 <= k < repository@.len() && #[trigger] by_type()(
                                    repository@[k].0,
                                ) == type_id;
                            lemma_stores_at(repository@, k);
                        }
                    }
                }
                store.push((name, config));
                proof {
                    lemma_stores_push(repository@, type_id, store);
                }
                repository.push((type_id, store));
                proof {
                    assert(stores_map(repository@) =~= before.stores.insert(
                        type_id,
                        before.stores[type_id].insert(name_view, config),
                    ));
                    assert(spec_load(before, tag@, name_view, parse_result) == (
                        parts_model(repository@, tagged_loaders@),
                        load_outcome(Ok::<(), ConfigLoadErrorPayload>(())),
                    ));
                }
                Ok(())
            },
        }
    }

}

} // verus!
