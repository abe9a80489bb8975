//! The finished repository: the configs of each type by numeric id, and the
//! indexer that names the ids.

use std::any::TypeId;

use vstd::prelude::*;

use super::id::ConfigId;
use super::indexer::{ConfigIndexer, IndexerView};
use crate::assoc::{assoc_map, has_key, keys_unique, lemma_assoc_at, lemma_nested_at, nested_map, nested_wf};
use crate::config::store::{by_type, find_type, ConfigType};
use crate::strings::{decimal, decimal_string, push_char};

verus! {

/// The configs of one type, by id.
pub type IdStore<P> = Vec<(u64, P)>;

/// Keys configs by their id.
pub open spec fn by_id() -> spec_fn(u64) -> u64 {
    |id: u64| id
}

/// The configs of a store, by id.
pub open spec fn id_store_map<P>(store: Seq<(u64, P)>) -> Map<u64, P> {
    assoc_map(store, by_id())
}

/// The text a missing config is reported under: its label, or its id
/// followed by `?!` where the id has no label.
pub open spec fn missing_key(labels: Seq<Seq<char>>, id: u64) -> Seq<char> {
    if id < labels.len() {
        labels[id as int]
    } else {
        decimal(id as nat) + seq!['?', '!']
    }
}

/// Why a config could not be found.
#[derive(Debug)]
pub enum ConfigRetrievalError {
    /// No store was built for the type of the tag.
    StoreNotRegistered { tag: &'static str },
    /// The type's store holds no config under the id; `key` names it.
    NotInStore { key: String, tag: &'static str },
}

/// The configs of each type by id, with the indexer that names the ids.
#[derive(Debug)]
pub struct ConfigRepository<P> {
    pub(super) configs: Vec<(TypeId, IdStore<P>)>,
    indexer: ConfigIndexer,
}

/// The index of the id in the store, if it is there.
fn find_id<P>(store: &IdStore<P>, id: u64) -> (found: Option<usize>)
    ensures
        match found {
            Some(i) => i < store@.len() && store@[i as int].0 == id,
            None => !has_key(store@, by_id(), id),
        },
{
    let mut i: usize = 0;
    while i < store.len()
        invariant
            i <= store@.len(),
            forall|j: int| 0 <= j < i ==> #[trigger] store@[j].0 != id,
        decreases store@.len() - i,
    {
        if store[i].0 == id {
            return Some(i);
        }
        i = i + 1;
    }
    proof {
        assert forall|j: int| 0 <= j < store@.len() implies #[trigger] by_id()(store@[j].0)
            != id by {
            assert(store@[j].0 != id);
        }
    }
    None
}

impl<P> ConfigRepository<P> {
    /// Each type has one store, and each store one config per id.
    #[verifier::type_invariant]
    pub closed spec fn wf(self) -> bool {
        nested_wf(self.configs@, by_type(), by_id())
    }

    /// The configs of each type, by id.
    pub closed spec fn configs(&self) -> Map<TypeId, Map<u64, P>> {
        nested_map(self.configs@, by_type(), by_id())
    }

    /// What the repository's indexer knows.
    pub closed spec fn indexer_view(&self) -> IndexerView {
        self.indexer@
    }

    /// The indexer that names the ids.
    pub fn indexer(&self) -> (indexer: &ConfigIndexer)
        ensures
            indexer@ == self.indexer_view(),
    {
        &self.indexer
    }

    /// The repository of the stores and the indexer.
    pub(super) fn from_parts(configs: Vec<(TypeId, IdStore<P>)>, indexer: ConfigIndexer) -> (
        repository: Self)
        requires
            nested_wf(configs@, by_type(), by_id()),
        ensures
            repository.configs() == nested_map(configs@, by_type(), by_id()),
            repository.indexer_view() == indexer@,
    {
        ConfigRepository { configs, indexer }
    }

    /// The store of the config type.
    pub fn get_store(&self, config_type: &ConfigType) -> (found: Result<
        &IdStore<P>,
        ConfigRetrievalError,
    >)
        ensures
            match found {
                Ok(store) => {
                    &&& self.configs().contains_key(config_type.type_id)
                    &&& id_store_map(store@) == self.configs()[config_type.type_id]
                    &&& keys_unique(store@, by_id())
                },
                Err(ConfigRetrievalError::StoreNotRegistered { tag }) => {
                    &&& !self.configs().contains_key(config_type.type_id)
                    &&& tag == config_type.tag
                },
                Err(ConfigRetrievalError::NotInStore { .. }) => false,
            },
    {
        proof {
            use_type_invariant(self);
        }
        match find_type(&self.configs, &config_type.type_id) {
            None => {
                proof {
                    if self.configs().contains_key(config_type.type_id) {
                        let k = crate::assoc::index_of(
                            self.configs@,
                            by_type(),
                            config_type.type_id,
                        );
                        assert(by_type()(self.configs@[k].0) == config_type.type_id);
                    }
                }
                Err(ConfigRetrievalError::StoreNotRegistered { tag: config_type.tag })
            },
            Some(i) => {
                proof {
                    lemma_nested_at(self.configs@, by_type(), by_id(), i as int);
                }
                Ok(&self.configs[i].1)
            },
        }
    }

    /// The config of the type with the id.
    pub fn get<C>(&self, config_type: &ConfigType, id: ConfigId<C>) -> (found: Result<
        &P,
        ConfigRetrievalError,
    >)
        ensures
            match found {
                Ok(config) => {
                    &&& self.configs().contains_key(config_type.type_id)
                    &&& self.configs()[config_type.type_id].contains_key(id@)
                    &&& *config == self.configs()[config_type.type_id][id@]
                },
                Err(ConfigRetrievalError::StoreNotRegistered { tag }) => {
                    &&& !self.configs().contains_key(config_type.type_id)
                    &&& tag == config_type.tag
                },
                Err(ConfigRetrievalError::NotInStore { key, tag }) => {
                    &&& self.configs().contains_key(config_type.type_id)
                    &&& !self.configs()[config_type.type_id].contains_key(id@)
                    &&& key@ == missing_key(self.indexer_view().labels, id@)
                    &&& tag == config_type.tag
                },
            },
    {
        let store = match self.get_store(config_type) {
            Ok(store) => store,
            Err(e) => {
                return Err(e);
            },
        };
        match find_id(store, id.index()) {
            Some(j) => {
                proof {
                    lemma_assoc_at(store@, by_id(), j as int);
                }
                Ok(&store[j].1)
            },
            None => {
                let key = match self.indexer.get_label(id) {
                    Ok(label) => label.into_string(),
                    Err(_) => {
                        let mut key = decimal_string(id.index());
                        push_char(&mut key, '?');
                        push_char(&mut key, '!');
                        key
                    },
                };
                proof {
                    if id_store_map(store@).contains_key(id@) {
                        let k = crate::assoc::index_of(store@, by_id(), id@);
                        assert(by_id()(store@[k].0) == id@);
                    }
                    assert(key@ =~= missing_key(self.indexer_view().labels, id@));
                }
                Err(ConfigRetrievalError::NotInStore { key, tag: config_type.tag })
            },
        }
    }
}

} // verus!
