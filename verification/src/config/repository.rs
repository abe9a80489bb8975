//! The finished repository: configs found by type and name.

use std::any::TypeId;

use vstd::prelude::*;

use super::id::ConfigId;
use super::store::{
    by_name, find_name, find_type, lemma_stores_at, stores_map, stores_wf, ConfigStore,
    ConfigType,
};
use crate::assoc::lemma_assoc_at;

verus! {

/// Why a config could not be found.
#[derive(Debug)]
pub enum ConfigRetrievalError {
    /// No store was registered for the type.
    StoreNotRegistered { type_label: &'static str },
    /// The store held configs of another type than its key.
    StoreTypeMismatch { type_label: &'static str },
    /// The type's store has no config of that name.
    NotInStore { type_label: &'static str, id: String },
}

/// The configs of the registered types, by type and name.
pub struct ConfigRepository<P> {
    pub(super) stores: Vec<(TypeId, ConfigStore<P>)>,
}

/// What looking up the name among the configs of the type gives.
pub open spec fn spec_get<P>(
    configs: Map<TypeId, Map<Seq<char>, P>>,
    type_id: TypeId,
    name: Seq<char>,
) -> Option<P> {
    if configs.contains_key(type_id) && configs[type_id].contains_key(name) {
        Some(configs[type_id][name])
    } else {
        None
    }
}

impl<P> ConfigRepository<P> {
    /// Each type has one store, and each store one config per name.
    #[verifier::type_invariant]
    pub closed spec fn wf(self) -> bool {
        stores_wf(self.stores@)
    }

    /// The configs of each registered type, by name.
    pub closed spec fn configs(&self) -> Map<TypeId, Map<Seq<char>, P>> {
        stores_map(self.stores@)
    }

    /// The repository of the given stores.
    pub(super) fn from_stores(stores: Vec<(TypeId, ConfigStore<P>)>) -> (repository: Self)
        requires
            stores_wf(stores@),
        ensures
            repository.configs() == stores_map(stores@),
    {
        ConfigRepository { stores }
    }

    /// The config of the type with the name.
    pub fn get<C>(&self, config_type: &ConfigType, id: &ConfigId<C>) -> (found: Result<
        &P,
        ConfigRetrievalError,
    >)
        ensures
            match found {
                Ok(config) => spec_get(self.configs(), config_type.type_id, id@) == Some(*config),
                Err(ConfigRetrievalError::StoreNotRegistered { type_label }) => {
                    &&& !self.configs().contains_key(config_type.type_id)
                    &&& type_label == config_type.type_label
                },
                Err(ConfigRetrievalError::NotInStore { type_label, id: missing }) => {
                    &&& self.configs().contains_key(config_type.type_id)
                    &&& !self.configs()[config_type.type_id].contains_key(id@)
                    &&& type_label == config_type.type_label
                    &&& missing@ == id@
                },
                Err(ConfigRetrievalError::StoreTypeMismatch { .. }) => false,
            },
    {
        proof {
            use_type_invariant(self);
        }
        match find_type(&self.stores, &config_type.type_id) {
            None => Err(ConfigRetrievalError::StoreNotRegistered { type_label: config_type.type_label }),
            Some(i) => {
                proof {
                    lemma_stores_at(self.stores@, i as int);
                }
                let store = &self.stores[i].1;
                match find_name(store, id.as_str()) {
                    None => Err(
                        ConfigRetrievalError::NotInStore {
                            type_label: config_type.type_label,
                            id: id.to_string(),
                        },
                    ),
                    Some(j) => {
                        proof {
                            lemma_assoc_at(store@, by_name::<P>(), j as int);
                        }
                        Ok(&store[j].1)
                    },
                }
            },
        }
    }
}

} // verus!
