//! Building the repository: registering config types by tag, loading raw
//! configs by label, then giving every label an id and preparing its
//! config.

use std::any::TypeId;

use vstd::prelude::*;

use super::id::ConfigLabel;
use super::indexer::{ConfigIndexer, IndexerView};
use super::repository::{by_id, ConfigRepository, IdStore};
use crate::config::store::by_type;
use crate::assoc::{
    assoc_map, has_key, keys_unique, lemma_assoc_at, lemma_assoc_empty, lemma_assoc_push,
    lemma_nested_at, lemma_nested_push, lemma_nested_remove, nested_map, nested_wf,
};
use crate::config::repository_builder::{
    load_outcome, ConfigLoadErrorPayload, ConfigRegistrationError, LoadFailure,
};
use crate::config::store::{by_name, by_tag, find_name, find_tag, ConfigType};
use crate::type_id::same_type;

verus! {

/// What a builder holds: the raw configs of each registered tag by label,
/// and the config type registered under each tag.
pub struct BuilderView<R> {
    pub raws: Map<Seq<char>, Map<Seq<char>, R>>,
    pub loaders: Map<Seq<char>, ConfigType>,
}

/// Some tag was registered with the config type.
pub open spec fn type_registered(loaders: Map<Seq<char>, ConfigType>, type_id: TypeId) -> bool {
    exists|tag: Seq<char>| #[trigger] loaders.contains_key(tag) && loaders[tag].type_id == type_id
}

/// Registering a config type: one whose tag has a store, or whose type has
/// a tag, is refused and nothing changes; otherwise the tag gets an empty
/// store and names the type.
pub open spec fn spec_register<R>(view: BuilderView<R>, config_type: ConfigType) -> (
    BuilderView<R>,
    Result<(), ConfigRegistrationError>,
) {
    if view.raws.contains_key(config_type.tag@) || type_registered(
        view.loaders,
        config_type.type_id,
    ) {
        (
            view,
            Err(
                ConfigRegistrationError::TypeAlreadyRegistered {
                    type_label: config_type.type_label,
                },
            ),
        )
    } else {
        (
            BuilderView {
                raws: view.raws.insert(config_type.tag@, Map::empty()),
                loaders: view.loaders.insert(config_type.tag@, config_type),
            },
            Ok(()),
        )
    }
}

/// A load of the tag gets as far as parsing the payload: the tag has a
/// loader and a store.
pub open spec fn load_parses<R>(view: BuilderView<R>, tag: Seq<char>) -> bool {
    view.loaders.contains_key(tag) && view.raws.contains_key(tag)
}

/// Loading a raw config of the tag under the label, where `parsed` is what
/// parsing the payload as the tag's type gives: an unknown tag, a tag
/// without store, a parse failure and a label loaded before are refused in
/// that order, and nothing changes; otherwise the raw config joins the
/// tag's store under the label.
pub open spec fn spec_load<R>(
    view: BuilderView<R>,
    tag: Seq<char>,
    label: Seq<char>,
    parsed: Result<R, serde_json::Error>,
) -> (BuilderView<R>, Result<(), LoadFailure>) {
    if !view.loaders.contains_key(tag) {
        (view, Err(LoadFailure::TagNotRegistered(tag)))
    } else if !view.raws.contains_key(tag) {
        (view, Err(LoadFailure::StoreNotFound(tag)))
    } else {
        match parsed {
            Err(e) => (view, Err(LoadFailure::ParsingFailed(e))),
            Ok(raw) => if view.raws[tag].contains_key(label) {
                (view, Err(LoadFailure::IdAlreadyOccupied(label)))
            } else {
                (
                    BuilderView {
                        raws: view.raws.insert(tag, view.raws[tag].insert(label, raw)),
                        ..view
                    },
                    Ok(()),
                )
            },
        }
    }
}

/// Makes the config that the repository holds from a loaded raw config, as
/// each config type's own preparation does. It may ask the indexer for the
/// ids of labels that the config refers to, and keeps every id handed out
/// before. What it returns is a function of the config type, the raw
/// config, the label and what the indexer holds when it starts: that
/// function is `spec_prepared`, which implementations in unverified code
/// do not run.
pub trait ConfigPrepare<R, P> {
    /// The config prepared from the raw config of the type under the label,
    /// with the indexer as it is when preparing starts.
    spec fn spec_prepared(&self, config_type: ConfigType, raw: R, label: String, indexer: IndexerView) -> P;

    fn prepare(
        &self,
        config_type: &ConfigType,
        raw: R,
        label: ConfigLabel<P>,
        indexer: &mut ConfigIndexer,
    ) -> (config: P)
        ensures
            final(indexer)@.extends(old(indexer)@),
            config == self.spec_prepared(*config_type, raw, label.spec_text(), old(indexer)@),
    ;
}

/// Why the repository could not be built.
#[derive(Debug)]
pub enum ConfigBuildError {
    /// Every id that a `u64` can hold was handed out; the indexer as it was
    /// then.
    IdsExhausted { indexer: ConfigIndexer },
}

/// The config type registered under the tag.
pub open spec fn loader_type(loaders: Seq<(&'static str, ConfigType)>, tag: Seq<char>) -> TypeId {
    assoc_map(loaders, by_tag())[tag].type_id
}

/// The store holds, from its start, one config per label of the loaded list
/// taken from its end, under the label's id; each label is known to the
/// indexer for the config type.
pub open spec fn entries_named<P, R>(
    store: Seq<(u64, P)>,
    list: Seq<(String, R)>,
    type_id: TypeId,
    view: IndexerView,
) -> bool {
    &&& store.len() <= list.len()
    &&& forall|q: int|
        0 <= q < store.len() ==> {
            let label = (#[trigger] list[list.len() - 1 - q]).0@;
            &&& view.ids.contains_key(label)
            &&& view.types[label].contains(type_id)
            &&& store[q].0 == view.ids[label]
        }
}

/// What the stores are named by stays true as the indexer grows.
proof fn lemma_entries_named_extends<P, R>(
    store: Seq<(u64, P)>,
    list: Seq<(String, R)>,
    type_id: TypeId,
    earlier: IndexerView,
    later: IndexerView,
)
    requires
        entries_named(store, list, type_id, earlier),
        later.extends(earlier),
    ensures
        entries_named(store, list, type_id, later),
{
    assert forall|q: int| 0 <= q < store.len() implies {
        let label = (#[trigger] list[list.len() - 1 - q]).0@;
        &&& later.ids.contains_key(label)
        &&& later.types[label].contains(type_id)
        &&& store[q].0 == later.ids[label]
    } by {
        let label = list[list.len() - 1 - q].0@;
        assert(earlier.ids.contains_key(label));
        let k = choose|k: int| 0 <= k < earlier.types[label].len() && earlier.types[label][k] == type_id;
        assert(later.types[label][k] == type_id);
    }
}

/// A store named by labels with distinct keys holds distinct ids.
proof fn lemma_entries_named_unique<P, R>(
    store: Seq<(u64, P)>,
    list: Seq<(String, R)>,
    type_id: TypeId,
    view: IndexerView,
)
    requires
        entries_named(store, list, type_id, view),
        keys_unique(list, by_name::<R>()),
        view.wf(),
    ensures
        keys_unique(store, by_id()),
{
    assert forall|a: int, b: int|
        0 <= a < store.len() && 0 <= b < store.len() && a != b implies by_id()(store[a].0)
        != by_id()(store[b].0) by {
        let la = list[list.len() - 1 - a].0@;
        let lb = list[list.len() - 1 - b].0@;
        assert(by_name::<R>()(list[list.len() - 1 - a].0) != by_name::<R>()(
            list[list.len() - 1 - b].0,
        ));
        crate::env::config::indexer::law_ids_distinct(view, la, lb);
    }
}

/// Two registered tags have different config types.
proof fn lemma_loader_types_distinct(
    loaders: Seq<(&'static str, ConfigType)>,
    first: Seq<char>,
    second: Seq<char>,
)
    requires
        keys_unique(loaders, by_tag()),
        forall|i: int, j: int|
            0 <= i < loaders.len() && 0 <= j < loaders.len() && i != j
                ==> #[trigger] loaders[i].1.type_id != #[trigger] loaders[j].1.type_id,
        assoc_map(loaders, by_tag()).contains_key(first),
        assoc_map(loaders, by_tag()).contains_key(second),
        first != second,
    ensures
        loader_type(loaders, first) != loader_type(loaders, second),
{
    let i = crate::assoc::index_of(loaders, by_tag(), first);
    let j = crate::assoc::index_of(loaders, by_tag(), second);
    lemma_assoc_at(loaders, by_tag(), i);
    lemma_assoc_at(loaders, by_tag(), j);
}

/// The repository holds what the builder loaded: every registered type has
/// a store; every loaded label has an id, known for its tag's type, under
/// which its type's store holds a config; and every config stored is that
/// of a loaded label of a tag of its type.
pub open spec fn built_from<P, R>(
    configs: Map<TypeId, Map<u64, P>>,
    indexer: IndexerView,
    view: BuilderView<R>,
) -> bool {
    &&& forall|tag: Seq<char>| #[trigger]
        view.raws.contains_key(tag) ==> configs.contains_key(view.loaders[tag].type_id)
    &&& forall|tag: Seq<char>, label: Seq<char>|
        view.raws.contains_key(tag) && #[trigger] view.raws[tag].contains_key(label) ==> {
            let type_id = view.loaders[tag].type_id;
            &&& indexer.ids.contains_key(label)
            &&& indexer.types[label].contains(type_id)
            &&& configs[type_id].contains_key(indexer.ids[label])
        }
    &&& forall|type_id: TypeId, id: u64|
        configs.contains_key(type_id) && #[trigger] configs[type_id].contains_key(id) ==> exists|
            tag: Seq<char>,
            label: Seq<char>,
        |
            view.raws.contains_key(tag) && #[trigger] view.raws[tag].contains_key(label)
                && view.loaders[tag].type_id == type_id && indexer.ids[label] == id
    &&& forall|type_id: TypeId| #[trigger]
        configs.contains_key(type_id) ==> exists|tag: Seq<char>| #[trigger]
            view.raws.contains_key(tag) && view.loaders[tag].type_id == type_id
}

/// The stores built from the loaded lists, one per tag taken from the end,
/// hold what the builder loaded.
proof fn lemma_built<P, R>(
    all: Seq<(&'static str, Vec<(String, R)>)>,
    loaders: Seq<(&'static str, ConfigType)>,
    configs: Seq<(TypeId, IdStore<P>)>,
    indexer: IndexerView,
)
    requires
        nested_wf(all, by_tag(), by_name::<R>()),
        assoc_map(all, by_tag()).dom() == assoc_map(loaders, by_tag()).dom(),
        configs.len() == all.len(),
        nested_wf(configs, by_type(), by_id()),
        forall|m: int|
            0 <= m < configs.len() ==> {
                let p = all.len() - 1 - m;
                &&& (#[trigger] configs[m]).0 == loader_type(loaders, all[p].0@)
                &&& configs[m].1@.len() == all[p].1@.len()
                &&& entries_named(configs[m].1@, all[p].1@, configs[m].0, indexer)
            },
    ensures
        built_from(
            nested_map(configs, by_type(), by_id()),
            indexer,
            BuilderView {
                raws: nested_map(all, by_tag(), by_name::<R>()),
                loaders: assoc_map(loaders, by_tag()),
            },
        ),
{
    let stores = nested_map(configs, by_type(), by_id());
    let view = BuilderView {
        raws: nested_map(all, by_tag(), by_name::<R>()),
        loaders: assoc_map(loaders, by_tag()),
    };
    assert forall|tag: Seq<char>| #[trigger] view.raws.contains_key(tag) implies stores.contains_key(
        view.loaders[tag].type_id,
    ) by {
        let p = crate::assoc::index_of(all, by_tag(), tag);
        lemma_nested_at(all, by_tag(), by_name::<R>(), p);
        let m = all.len() - 1 - p;
        assert(configs[m].0 == loader_type(loaders, all[p].0@));
        lemma_nested_at(configs, by_type(), by_id(), m);
    }
    assert forall|tag: Seq<char>, label: Seq<char>|
        view.raws.contains_key(tag) && #[trigger] view.raws[tag].contains_key(label) implies {
        let type_id = view.loaders[tag].type_id;
        &&& indexer.ids.contains_key(label)
        &&& indexer.types[label].contains(type_id)
        &&& stores[type_id].contains_key(indexer.ids[label])
    } by {
        let p = crate::assoc::index_of(all, by_tag(), tag);
        lemma_nested_at(all, by_tag(), by_name::<R>(), p);
        let list = all[p].1@;
        let k = crate::assoc::index_of(list, by_name::<R>(), label);
        assert(by_name::<R>()(list[k].0) == label);
        let m = all.len() - 1 - p;
        let store = configs[m].1@;
        assert(configs[m].0 == loader_type(loaders, all[p].0@));
        let q = list.len() - 1 - k;
        assert(list[list.len() - 1 - q] == list[k]);
        assert(entries_named(store, list, configs[m].0, indexer));
        lemma_nested_at(configs, by_type(), by_id(), m);
        assert(by_id()(store[q].0) == indexer.ids[label]);
    }
    assert forall|type_id: TypeId, id: u64|
        stores.contains_key(type_id) && #[trigger] stores[type_id].contains_key(id) implies exists|
        tag: Seq<char>,
        label: Seq<char>,
    |
        view.raws.contains_key(tag) && #[trigger] view.raws[tag].contains_key(label)
            && view.loaders[tag].type_id == type_id && indexer.ids[label] == id by {
        let m = crate::assoc::index_of(configs, by_type(), type_id);
        lemma_nested_at(configs, by_type(), by_id(), m);
        let store = configs[m].1@;
        let q = crate::assoc::index_of(store, by_id(), id);
        assert(by_id()(store[q].0) == id);
        let p = all.len() - 1 - m;
        let list = all[p].1@;
        let k = list.len() - 1 - q;
        assert(entries_named(store, list, configs[m].0, indexer));
        assert(list[list.len() - 1 - q] == list[k]);
        let tag = all[p].0@;
        let label = list[k].0@;
        lemma_nested_at(all, by_tag(), by_name::<R>(), p);
        assert(by_name::<R>()(list[k].0) == label);
        assert(view.raws[tag].contains_key(label));
        assert(by_type()(configs[m].0) == type_id);
    }
    assert forall|type_id: TypeId| #[trigger] stores.contains_key(type_id) implies exists|
        tag: Seq<char>,
    | #[trigger] view.raws.contains_key(tag) && view.loaders[tag].type_id == type_id by {
        let m = crate::assoc::index_of(configs, by_type(), type_id);
        assert(by_type()(configs[m].0) == type_id);
        let p = all.len() - 1 - m;
        lemma_nested_at(all, by_tag(), by_name::<R>(), p);
        assert(view.raws.contains_key(all[p].0@));
    }
}

/// The config type registered under the tag.
pub open spec fn loader_of(loaders: Seq<(&'static str, ConfigType)>, tag: Seq<char>) -> ConfigType {
    assoc_map(loaders, by_tag())[tag]
}

/// The store holds, from its start, the config prepared from each raw
/// config of the loaded list taken from its end, with the indexer as it was
/// then (`views`), under the id the label had then; the indexer holds at
/// least what it held at each of those times.
pub open spec fn entries_prepared<P, R, Prep: ConfigPrepare<R, P>>(
    store: Seq<(u64, P)>,
    list: Seq<(String, R)>,
    config_type: ConfigType,
    views: Seq<IndexerView>,
    preparer: Prep,
    indexer: IndexerView,
) -> bool {
    &&& views.len() == store.len()
    &&& store.len() <= list.len()
    &&& forall|q: int|
        0 <= q < store.len() ==> #[trigger] entry_prepared(
            store,
            list,
            config_type,
            views,
            preparer,
            indexer,
            q,
        )
}

/// The store's entry at `q` holds the config prepared from the raw config
/// `q` places from the end of the list, as `entries_prepared` describes.
pub open spec fn entry_prepared<P, R, Prep: ConfigPrepare<R, P>>(
    store: Seq<(u64, P)>,
    list: Seq<(String, R)>,
    config_type: ConfigType,
    views: Seq<IndexerView>,
    preparer: Prep,
    indexer: IndexerView,
    q: int,
) -> bool {
    let entry = list[list.len() - 1 - q];
    &&& views[q].ids.contains_key(entry.0@)
    &&& views[q].ids[entry.0@] == store[q].0
    &&& indexer.extends(views[q])
    &&& store[q].1 == preparer.spec_prepared(config_type, entry.1, entry.0, views[q])
}

/// What the stores are prepared from stays true as the indexer grows.
proof fn lemma_entries_prepared_extends<P, R, Prep: ConfigPrepare<R, P>>(
    store: Seq<(u64, P)>,
    list: Seq<(String, R)>,
    config_type: ConfigType,
    views: Seq<IndexerView>,
    preparer: Prep,
    earlier: IndexerView,
    later: IndexerView,
)
    requires
        entries_prepared(store, list, config_type, views, preparer, earlier),
        later.extends(earlier),
    ensures
        entries_prepared(store, list, config_type, views, preparer, later),
{
    assert forall|q: int| 0 <= q < store.len() implies #[trigger] entry_prepared(
        store,
        list,
        config_type,
        views,
        preparer,
        later,
        q,
    ) by {
        assert(entry_prepared(store, list, config_type, views, preparer, earlier, q));
        crate::env::config::indexer::lemma_extends_trans(views[q], earlier, later);
    }
}

/// Each config stored under a loaded label's id is the one prepared from
/// that label's raw config, with the indexer as it was when it was prepared:
/// the label had that id then, and the indexer still holds all it held
/// then.
pub open spec fn prepared_from<P, R, Prep: ConfigPrepare<R, P>>(
    configs: Map<TypeId, Map<u64, P>>,
    indexer: IndexerView,
    view: BuilderView<R>,
    preparer: Prep,
) -> bool {
    forall|tag: Seq<char>, label: Seq<char>|
        view.raws.contains_key(tag) && #[trigger] view.raws[tag].contains_key(label) ==> exists|
            at: IndexerView,
            name: String,
        |
            #![trigger preparer.spec_prepared(view.loaders[tag], view.raws[tag][label], name, at)]
            {
                &&& name@ == label
                &&& at.ids.contains_key(label)
                &&& at.ids[label] == indexer.ids[label]
                &&& indexer.extends(at)
                &&& configs[view.loaders[tag].type_id][indexer.ids[label]]
                    == preparer.spec_prepared(view.loaders[tag], view.raws[tag][label], name, at)
            }
}

/// The stores built from the loaded lists hold the configs prepared from
/// them.
proof fn lemma_built_prepared<P, R, Prep: ConfigPrepare<R, P>>(
    all: Seq<(&'static str, Vec<(String, R)>)>,
    loaders: Seq<(&'static str, ConfigType)>,
    configs: Seq<(TypeId, IdStore<P>)>,
    all_views: Seq<Seq<IndexerView>>,
    preparer: Prep,
    indexer: IndexerView,
)
    requires
        nested_wf(all, by_tag(), by_name::<R>()),
        configs.len() == all.len(),
        all_views.len() == all.len(),
        nested_wf(configs, by_type(), by_id()),
        forall|m: int|
            0 <= m < configs.len() ==> {
                let p = all.len() - 1 - m;
                &&& (#[trigger] configs[m]).0 == loader_type(loaders, all[p].0@)
                &&& configs[m].1@.len() == all[p].1@.len()
            },
        forall|m: int|
            #![trigger all_views[m]]
            0 <= m < configs.len() ==> entries_prepared(
                configs[m].1@,
                all[all.len() - 1 - m].1@,
                loader_of(loaders, all[all.len() - 1 - m].0@),
                all_views[m],
                preparer,
                indexer,
            ),
    ensures
        prepared_from(
            nested_map(configs, by_type(), by_id()),
            indexer,
            BuilderView {
                raws: nested_map(all, by_tag(), by_name::<R>()),
                loaders: assoc_map(loaders, by_tag()),
            },
            preparer,
        ),
{
    let stores = nested_map(configs, by_type(), by_id());
    let view = BuilderView {
        raws: nested_map(all, by_tag(), by_name::<R>()),
        loaders: assoc_map(loaders, by_tag()),
    };
    assert forall|tag: Seq<char>, label: Seq<char>|
        view.raws.contains_key(tag) && #[trigger] view.raws[tag].contains_key(label) implies exists|
        at: IndexerView,
        name: String,
    |
        #![trigger preparer.spec_prepared(view.loaders[tag], view.raws[tag][label], name, at)]
        {
            &&& name@ == label
            &&& at.ids.contains_key(label)
            &&& at.ids[label] == indexer.ids[label]
            &&& indexer.extends(at)
            &&& stores[view.loaders[tag].type_id][indexer.ids[label]]
                == preparer.spec_prepared(view.loaders[tag], view.raws[tag][label], name, at)
        } by {
        let p = crate::assoc::index_of(all, by_tag(), tag);
        lemma_nested_at(all, by_tag(), by_name::<R>(), p);
        let list = all[p].1@;
        let k = crate::assoc::index_of(list, by_name::<R>(), label);
        assert(by_name::<R>()(list[k].0) == label);
        lemma_assoc_at(list, by_name::<R>(), k);
        let m = all.len() - 1 - p;
        let store = configs[m].1@;
        assert(all_views[m] == all_views[m]);
        assert(entries_prepared(store, list, loader_of(loaders, all[p].0@), all_views[m], preparer, indexer));
        let q = list.len() - 1 - k;
        assert(list[list.len() - 1 - q] == list[k]);
        assert(entry_prepared(
            store,
            list,
            loader_of(loaders, all[p].0@),
            all_views[m],
            preparer,
            indexer,
            q,
        ));
        let at = all_views[m][q];
        lemma_nested_at(configs, by_type(), by_id(), m);
        lemma_assoc_at(store, by_id(), q);
        assert(configs[m].0 == loader_type(loaders, all[p].0@));
        assert(at.ids[label] == store[q].0);
        assert(indexer.ids[label] == at.ids[label]);
        assert(stores[view.loaders[tag].type_id][indexer.ids[label]] == store[q].1);
        let name = list[k].0;
        assert(preparer.spec_prepared(view.loaders[tag], view.raws[tag][label], name, at) == store[q].1);
    }
}

/// Registers config types by tag and loads their raw configs, then builds
/// the repository.
pub struct ConfigRepositoryBuilder<R> {
    configs: Vec<(&'static str, Vec<(String, R)>)>,
    tagged_loaders: Vec<(&'static str, ConfigType)>,
}

/// The index of a loader of the config type, if there is one.
fn find_loader_type(loaders: &Vec<(&'static str, ConfigType)>, type_id: &TypeId) -> (found:
    Option<usize>)
    ensures
        match found {
            Some(i) => i < loaders@.len() && loaders@[i as int].1.type_id == *type_id,
            None => forall|j: int| 0 <= j < loaders@.len() ==> #[trigger] loaders@[j].1.type_id
                != *type_id,
        },
{
    let mut i: usize = 0;
    while i < loaders.len()
        invariant
            i <= loaders@.len(),
            forall|j: int| 0 <= j < i ==> #[trigger] loaders@[j].1.type_id != *type_id,
        decreases loaders@.len() - i,
    {
        if same_type(&loaders[i].1.type_id, type_id) {
            return Some(i);
        }
        i = i + 1;
    }
    None
}

/// Each tag has one store and one loader, each store one raw config per
/// label, and no two tags share a config type.
spec fn parts_wf<R>(
    configs: Seq<(&'static str, Vec<(String, R)>)>,
    tagged_loaders: Seq<(&'static str, ConfigType)>,
) -> bool {
    &&& nested_wf(configs, by_tag(), by_name::<R>())
    &&& keys_unique(tagged_loaders, by_tag())
    &&& assoc_map(configs, by_tag()).dom() == assoc_map(tagged_loaders, by_tag()).dom()
    &&& forall|i: int, j: int|
        0 <= i < tagged_loaders.len() && 0 <= j < tagged_loaders.len() && i != j
            ==> #[trigger] tagged_loaders[i].1.type_id != #[trigger] tagged_loaders[j].1.type_id
}

/// What the stores and the loaders hold.
spec fn parts_view<R>(
    configs: Seq<(&'static str, Vec<(String, R)>)>,
    tagged_loaders: Seq<(&'static str, ConfigType)>,
) -> BuilderView<R> {
    BuilderView {
        raws: nested_map(configs, by_tag(), by_name::<R>()),
        loaders: assoc_map(tagged_loaders, by_tag()),
    }
}

impl<R> ConfigRepositoryBuilder<R> {
    /// Each tag has one store and one loader, each store one raw config per
    /// label, and no two tags share a config type.
    #[verifier::type_invariant]
    closed spec fn wf(self) -> bool {
        parts_wf(self.configs@, self.tagged_loaders@)
    }

    /// What the builder holds.
    pub closed spec fn view(&self) -> BuilderView<R> {
        parts_view(self.configs@, self.tagged_loaders@)
    }

    /// A builder with no types registered.
    pub fn new() -> (builder: Self)
        ensures
            builder.view().raws == Map::<Seq<char>, Map<Seq<char>, R>>::empty(),
            builder.view().loaders == Map::<Seq<char>, ConfigType>::empty(),
    {
        let configs: Vec<(&'static str, Vec<(String, R)>)> = Vec::new();
        let tagged_loaders: Vec<(&'static str, ConfigType)> = Vec::new();
        proof {
            lemma_assoc_empty(configs@, by_tag());
            lemma_assoc_empty(tagged_loaders@, by_tag());
            assert(nested_map(configs@, by_tag(), by_name::<R>()) =~= Map::<
                Seq<char>,
                Map<Seq<char>, R>,
            >::empty());
            assert(assoc_map(configs@, by_tag()).dom() =~= assoc_map(
                tagged_loaders@,
                by_tag(),
            ).dom());
        }
        ConfigRepositoryBuilder { configs, tagged_loaders }
    }

    /// Registers the config type under its tag.
    pub fn register(&mut self, config_type: ConfigType) -> (registered: Result<
        (),
        ConfigRegistrationError,
    >)
        ensures
            (final(self).view(), registered) == spec_register(old(self).view(), config_type),
    {
        let mut taken = Self::new();
        std::mem::swap(self, &mut taken);
        proof {
            use_type_invariant(&taken);
        }
        let ConfigRepositoryBuilder { mut configs, mut tagged_loaders } = taken;
        let registered = Self::register_parts(&mut configs, &mut tagged_loaders, config_type);
        *self = ConfigRepositoryBuilder { configs, tagged_loaders };
        registered
    }

    /// Loads a raw config of the tag under the label; `parse` reads its
    /// payload as the tag's type, and is called only once the tag and its
    /// store have been found.
    pub fn load_raw<F: FnOnce(ConfigType) -> Result<R, serde_json::Error>>(
        &mut self,
        tag: &str,
        label: String,
        parse: F,
    ) -> (loaded: Result<(), ConfigLoadErrorPayload>)
        requires
            load_parses(old(self).view(), tag@) ==> parse.requires(
                (old(self).view().loaders[tag@],),
            ),
        ensures
            exists|parsed: Result<R, serde_json::Error>|
                {
                    &&& load_parses(old(self).view(), tag@) ==> parse.ensures(
                        (old(self).view().loaders[tag@],),
                        parsed,
                    )
                    &&& #[trigger] spec_load(old(self).view(), tag@, label@, parsed) == (
                        final(self).view(),
                        load_outcome(loaded),
                    )
                },
    {
        let mut taken = Self::new();
        std::mem::swap(self, &mut taken);
        proof {
            use_type_invariant(&taken);
        }
        let ConfigRepositoryBuilder { mut configs, mut tagged_loaders } = taken;
        let loaded = Self::load_parts(&mut configs, &mut tagged_loaders, tag, label, parse);
        *self = ConfigRepositoryBuilder { configs, tagged_loaders };
        loaded
    }

    /// Registering on the builder's parts.
    fn register_parts(
        configs: &mut Vec<(&'static str, Vec<(String, R)>)>,
        tagged_loaders: &mut Vec<(&'static str, ConfigType)>,
        config_type: ConfigType,
    ) -> (registered: Result<
        (),
        ConfigRegistrationError,
    >)
        requires
            parts_wf(old(configs)@, old(tagged_loaders)@),
        ensures
            parts_wf(final(configs)@, final(tagged_loaders)@),
            (parts_view(final(configs)@, final(tagged_loaders)@), registered) == spec_register(
                parts_view(old(configs)@, old(tagged_loaders)@),
                config_type,
            ),
    {
        let ghost before = parts_view(configs@, tagged_loaders@);
        let store_found = find_tag(&*configs, config_type.tag);
        let type_found = find_loader_type(&*tagged_loaders, &config_type.type_id);
        if store_found.is_some() || type_found.is_some() {
            proof {
                match store_found {
                    Some(i) => {
                        lemma_nested_at(configs@, by_tag(), by_name::<R>(), i as int);
                    },
                    None => {
                        let j = type_found.unwrap() as int;
                        lemma_assoc_at(tagged_loaders@, by_tag(), j);
                        assert(before.loaders.contains_key(tagged_loaders@[j].0@));
                    },
                }
            }
            return Err(
                ConfigRegistrationError::TypeAlreadyRegistered {
                    type_label: config_type.type_label,
                },
            );
        }
        proof {
            assert(!type_registered(before.loaders, config_type.type_id)) by {
                if type_registered(before.loaders, config_type.type_id) {
                    let tag = choose|tag: Seq<char>| #[trigger]
                        before.loaders.contains_key(tag) && before.loaders[tag].type_id
                            == config_type.type_id;
                    let j = crate::assoc::index_of(tagged_loaders@, by_tag(), tag);
                    lemma_assoc_at(tagged_loaders@, by_tag(), j);
                }
            }
            assert(!before.raws.contains_key(config_type.tag@));
            assert(!before.loaders.contains_key(config_type.tag@));
        }
        let store: Vec<(String, R)> = Vec::new();
        proof {
            lemma_assoc_empty(store@, by_name::<R>());
            lemma_nested_push(configs@, by_tag(), by_name::<R>(), config_type.tag, store);
            lemma_assoc_push(configs@, by_tag(), config_type.tag, store);
            assert(assoc_map(store@, by_name::<R>()) =~= Map::<Seq<char>, R>::empty());
        }
        configs.push((config_type.tag, store));
        let ghost loaders_before = tagged_loaders@;
        proof {
            if has_key(loaders_before, by_tag(), config_type.tag@) {
                let j = crate::assoc::index_of(loaders_before, by_tag(), config_type.tag@);
                lemma_assoc_at(loaders_before, by_tag(), j);
            }
            lemma_assoc_push(loaders_before, by_tag(), config_type.tag, config_type);
        }
        tagged_loaders.push((config_type.tag, config_type));
        proof {
            assert(assoc_map(configs@, by_tag()).dom() =~= assoc_map(
                tagged_loaders@,
                by_tag(),
            ).dom());
            let n = loaders_before.len() as int;
            assert forall|i: int, j: int|
                0 <= i < tagged_loaders@.len() && 0 <= j < tagged_loaders@.len() && i
                    != j implies #[trigger] tagged_loaders@[i].1.type_id
                != #[trigger] tagged_loaders@[j].1.type_id by {
                if i < n && j < n {
                    assert(tagged_loaders@[i] == loaders_before[i]);
                    assert(tagged_loaders@[j] == loaders_before[j]);
                } else if i < n {
                    assert(tagged_loaders@[i] == loaders_before[i]);
                    assert(type_found.is_none());
                    assert(loaders_before[i].1.type_id != config_type.type_id);
                } else {
                    assert(tagged_loaders@[j] == loaders_before[j]);
                    assert(loaders_before[j].1.type_id != config_type.type_id);
                }
            }
        }
        Ok(())
    }

    /// Loading on the builder's parts.
    fn load_parts<F: FnOnce(ConfigType) -> Result<R, serde_json::Error>>(
        configs: &mut Vec<(&'static str, Vec<(String, R)>)>,
        tagged_loaders: &mut Vec<(&'static str, ConfigType)>,
        tag: &str,
        label: String,
        parse: F,
    ) -> (loaded: Result<(), ConfigLoadErrorPayload>)
        requires
            parts_wf(old(configs)@, old(tagged_loaders)@),
            load_parses(parts_view(old(configs)@, old(tagged_loaders)@), tag@)
                ==> parse.requires((parts_view(old(configs)@, old(tagged_loaders)@).loaders[tag@],)),
        ensures
            parts_wf(final(configs)@, final(tagged_loaders)@),
            exists|parsed: Result<R, serde_json::Error>|
                {
                    &&& load_parses(parts_view(old(configs)@, old(tagged_loaders)@), tag@)
                        ==> parse.ensures(
                        (parts_view(old(configs)@, old(tagged_loaders)@).loaders[tag@],),
                        parsed,
                    )
                    &&& #[trigger] spec_load(
                        parts_view(old(configs)@, old(tagged_loaders)@),
                        tag@,
                        label@,
                        parsed,
                    ) == (
                        parts_view(final(configs)@, final(tagged_loaders)@),
                        load_outcome(loaded),
                    )
                },
    {
        let ghost before = parts_view(configs@, tagged_loaders@);
        let ghost label_view = label@;
        let ti = match find_tag(&*tagged_loaders, tag) {
            Some(i) => i,
            None => {
                let failure = ConfigLoadErrorPayload::TagNotRegistered {
                    tag: String::from_str(tag),
                };
                proof {
                    let any: Result<R, serde_json::Error> = arbitrary();
                    assert(spec_load(before, tag@, label_view, any) == (
                        parts_view(configs@, tagged_loaders@),
                        load_outcome(Err::<(), ConfigLoadErrorPayload>(failure)),
                    ));
                }
                return Err(failure);
            },
        };
        proof {
            lemma_assoc_at(tagged_loaders@, by_tag(), ti as int);
        }
        let config_type = tagged_loaders[ti].1;
        let si = match find_tag(&*configs, tag) {
            Some(i) => i,
            None => {
                let failure = ConfigLoadErrorPayload::StoreNotFound { tag: String::from_str(tag) };
                proof {
                    let any: Result<R, serde_json::Error> = arbitrary();
                    assert(spec_load(before, tag@, label_view, any) == (
                        parts_view(configs@, tagged_loaders@),
                        load_outcome(Err::<(), ConfigLoadErrorPayload>(failure)),
                    ));
                }
                return Err(failure);
            },
        };
        proof {
            lemma_nested_at(configs@, by_tag(), by_name::<R>(), si as int);
        }
        let parsed = parse(config_type);
        let ghost parse_result = parsed;
        let raw = match parsed {
            Ok(raw) => raw,
            Err(e) => {
                let failure = ConfigLoadErrorPayload::ParsingFailed(e);
                proof {
                    assert(spec_load(before, tag@, label_view, parse_result) == (
                        parts_view(configs@, tagged_loaders@),
                        load_outcome(Err::<(), ConfigLoadErrorPayload>(failure)),
                    ));
                }
                return Err(failure);
            },
        };
        match find_name(&configs[si].1, label.as_str()) {
            Some(j) => {
                proof {
                    lemma_assoc_at(configs@[si as int].1@, by_name::<R>(), j as int);
                }
                let failure = ConfigLoadErrorPayload::IdAlreadyOccupied { id: label };
                proof {
                    assert(spec_load(before, tag@, label_view, parse_result) == (
                        parts_view(configs@, tagged_loaders@),
                        load_outcome(Err::<(), ConfigLoadErrorPayload>(failure)),
                    ));
                }
                Err(failure)
            },
            None => {
                let ghost configs_before = configs@;
                proof {
                    lemma_nested_remove(configs_before, by_tag(), by_name::<R>(), si as int);
                    crate::assoc::lemma_assoc_remove(configs_before, by_tag(), si as int);
                }
                let (store_tag, mut store) = configs.remove(si);
                proof {
                    lemma_assoc_push(store@, by_name::<R>(), label, raw);
                }
                store.push((label, raw));
                proof {
                    lemma_nested_push(configs@, by_tag(), by_name::<R>(), store_tag, store);
                    lemma_assoc_push(configs@, by_tag(), store_tag, store);
                }
                configs.push((store_tag, store));
                proof {
                    assert(parts_view(configs@, tagged_loaders@).raws =~= before.raws.insert(
                        tag@,
                        before.raws[tag@].insert(label_view, raw),
                    ));
                    assert(assoc_map(configs@, by_tag()).dom() =~= assoc_map(
                        tagged_loaders@,
                        by_tag(),
                    ).dom());
                    assert(spec_load(before, tag@, label_view, parse_result) == (
                        parts_view(configs@, tagged_loaders@),
                        load_outcome(Ok::<(), ConfigLoadErrorPayload>(())),
                    ));
                }
                Ok(())
            },
        }
    }

    /// The repository: every loaded label gets an id, and the prepared
    /// config of each label is stored under its id with the configs of its
    /// tag's type.
    pub fn build<P, Prep: ConfigPrepare<R, P>>(self, preparer: &Prep) -> (built: Result<
        ConfigRepository<P>,
        ConfigBuildError,
    >)
        ensures
            match built {
                Ok(repository) => {
                    &&& repository.wf()
                    &&& repository.indexer_view().wf()
                    &&& built_from(repository.configs(), repository.indexer_view(), self.view())
                    &&& prepared_from(
                        repository.configs(),
                        repository.indexer_view(),
                        self.view(),
                        *preparer,
                    )
                },
                Err(ConfigBuildError::IdsExhausted { indexer }) => indexer@.labels.len()
                    == u64::MAX,
            },
    {
        proof {
            use_type_invariant(&self);
        }
        let ghost all = self.configs@;
        let ConfigRepositoryBuilder { configs: mut raws, tagged_loaders } = self;
        let mut indexer = ConfigIndexer::new();
        let mut configs: Vec<(TypeId, IdStore<P>)> = Vec::new();
        let ghost mut all_views: Seq<Seq<IndexerView>> = Seq::empty();
        proof {
            lemma_assoc_empty(configs@, by_type());
        }
        while raws.len() > 0
            invariant
                nested_wf(all, by_tag(), by_name::<R>()),
                keys_unique(tagged_loaders@, by_tag()),
                assoc_map(all, by_tag()).dom() == assoc_map(tagged_loaders@, by_tag()).dom(),
                forall|i: int, j: int|
                    0 <= i < tagged_loaders@.len() && 0 <= j < tagged_loaders@.len() && i != j
                        ==> #[trigger] tagged_loaders@[i].1.type_id
                        != #[trigger] tagged_loaders@[j].1.type_id,
                raws@ == all.subrange(0, raws@.len() as int),
                configs@.len() + raws@.len() == all.len(),
                indexer@.wf(),
                nested_wf(configs@, by_type(), by_id()),
                forall|m: int|
                    0 <= m < configs@.len() ==> {
                        let p = all.len() - 1 - m;
                        &&& (#[trigger] configs@[m]).0 == loader_type(tagged_loaders@, all[p].0@)
                        &&& configs@[m].1@.len() == all[p].1@.len()
                        &&& entries_named(configs@[m].1@, all[p].1@, configs@[m].0, indexer@)
                    },
                all_views.len() == configs@.len(),
                forall|m: int|
                    #![trigger all_views[m]]
                    0 <= m < configs@.len() ==> entries_prepared(
                        configs@[m].1@,
                        all[all.len() - 1 - m].1@,
                        loader_of(tagged_loaders@, all[all.len() - 1 - m].0@),
                        all_views[m],
                        *preparer,
                        indexer@,
                    ),
            decreases raws@.len(),
        {
            let ghost p = raws@.len() - 1;
            let (tag, list) = raws.pop().unwrap();
            proof {
                assert(all[p] == (tag, list));
                crate::assoc::lemma_assoc_at(all, by_tag(), p);
                assert(keys_unique(list@, by_name::<R>()));
            }
            let found = find_tag(&tagged_loaders, tag);
            proof {
                assert(assoc_map(tagged_loaders@, by_tag()).contains_key(tag@));
            }
            let ti = found.unwrap();
            proof {
                lemma_assoc_at(tagged_loaders@, by_tag(), ti as int);
            }
            let config_type = tagged_loaders[ti].1;
            let ghost type_id = config_type.type_id;
            let ghost start = indexer@;
            let mut list = list;
            let ghost whole = list@;
            let mut store: IdStore<P> = Vec::new();
            let ghost mut views: Seq<IndexerView> = Seq::empty();
            proof {
                assert(config_type == loader_of(tagged_loaders@, tag@));
            }
            while list.len() > 0
                invariant
                    list@ == whole.subrange(0, list@.len() as int),
                    store@.len() + list@.len() == whole.len(),
                    indexer@.wf(),
                    indexer@.extends(start),
                    entries_named(store@, whole, type_id, indexer@),
                    type_id == config_type.type_id,
                    entries_prepared(store@, whole, config_type, views, *preparer, indexer@),
                decreases list@.len(),
            {
                let ghost k = list@.len() - 1;
                let (label, raw) = list.pop().unwrap();
                proof {
                    assert(whole[k] == (label, raw));
                }
                if indexer.id_count() == u64::MAX {
                    return Err(ConfigBuildError::IdsExhausted { indexer });
                }
                let ghost before_id = indexer@;
                let id = indexer.get_or_create_id_raw(config_type.type_id, label.as_str());
                proof {
                    crate::env::config::indexer::law_get_or_create_round_trip(
                        before_id,
                        type_id,
                        label@,
                    );
                    lemma_entries_named_extends(store@, whole, type_id, before_id, indexer@);
                    lemma_entries_prepared_extends(
                        store@,
                        whole,
                        config_type,
                        views,
                        *preparer,
                        before_id,
                        indexer@,
                    );
                }
                let ghost after_id = indexer@;
                let config = preparer.prepare(&config_type, raw, ConfigLabel::new(label), &mut indexer);
                proof {
                    use_type_invariant(&indexer);
                    ConfigIndexer::lemma_view_wf(&indexer);
                    lemma_entries_named_extends(store@, whole, type_id, after_id, indexer@);
                    lemma_entries_prepared_extends(
                        store@,
                        whole,
                        config_type,
                        views,
                        *preparer,
                        after_id,
                        indexer@,
                    );
                    crate::env::config::indexer::lemma_extends_trans(start, before_id, after_id);
                    crate::env::config::indexer::lemma_extends_trans(start, after_id, indexer@);
                }
                let ghost store_before = store@;
                let ghost views_before = views;
                store.push((id, config));
                proof {
                    views = views.push(after_id);
                    assert forall|q: int| 0 <= q < store@.len() implies #[trigger] entry_prepared(
                        store@,
                        whole,
                        config_type,
                        views,
                        *preparer,
                        indexer@,
                        q,
                    ) by {
                        if q < store_before.len() {
                            assert(store@[q] == store_before[q]);
                            assert(views[q] == views_before[q]);
                            assert(entry_prepared(
                                store_before,
                                whole,
                                config_type,
                                views_before,
                                *preparer,
                                indexer@,
                                q,
                            ));
                        } else {
                            assert(whole.len() - 1 - q == k);
                        }
                    }
                    assert forall|q: int| 0 <= q < store@.len() implies {
                        let l = (#[trigger] whole[whole.len() - 1 - q]).0@;
                        &&& indexer@.ids.contains_key(l)
                        &&& indexer@.types[l].contains(type_id)
                        &&& store@[q].0 == indexer@.ids[l]
                    } by {
                        if q < store_before.len() {
                            assert(store@[q] == store_before[q]);
                        } else {
                            assert(whole.len() - 1 - q == k);
                            let l = whole[k].0@;
                            assert(after_id.ids.contains_key(l));
                            let w = choose|w: int| 0 <= w < after_id.types[l].len() && after_id.types[l][w] == type_id;
                            assert(indexer@.types[l][w] == type_id);
                        }
                    }
                }
            }
            proof {
                assert forall|m: int| 0 <= m < configs@.len() implies {
                    let p = all.len() - 1 - m;
                    &&& (#[trigger] configs@[m]).0 == loader_type(tagged_loaders@, all[p].0@)
                    &&& configs@[m].1@.len() == all[p].1@.len()
                    &&& entries_named(configs@[m].1@, all[p].1@, configs@[m].0, indexer@)
                } by {
                    let p = all.len() - 1 - m;
                    lemma_entries_named_extends(configs@[m].1@, all[p].1@, configs@[m].0, start, indexer@);
                }
                lemma_entries_named_unique(store@, whole, type_id, indexer@);
                assert(!has_key(configs@, by_type(), type_id)) by {
                    if has_key(configs@, by_type(), type_id) {
                        let m = choose|m: int| 0 <= m < configs@.len() && #[trigger] by_type()(configs@[m].0) == type_id;
                        let pm = all.len() - 1 - m;
                        assert(pm != p);
                        crate::assoc::lemma_assoc_at(all, by_tag(), pm);
                        assert(by_tag()(all[pm].0) != by_tag()(all[p].0));
                        lemma_loader_types_distinct(tagged_loaders@, all[pm].0@, all[p].0@);
                    }
                }
                lemma_nested_push(configs@, by_type(), by_id(), type_id, store);
                assert forall|m: int|
                    #![trigger all_views[m]]
                    0 <= m < configs@.len() implies entries_prepared(
                    configs@[m].1@,
                    all[all.len() - 1 - m].1@,
                    loader_of(tagged_loaders@, all[all.len() - 1 - m].0@),
                    all_views[m],
                    *preparer,
                    indexer@,
                ) by {
                    lemma_entries_prepared_extends(
                        configs@[m].1@,
                        all[all.len() - 1 - m].1@,
                        loader_of(tagged_loaders@, all[all.len() - 1 - m].0@),
                        all_views[m],
                        *preparer,
                        start,
                        indexer@,
                    );
                }
            }
            let ghost configs_before = configs@;
            let ghost views_before = all_views;
            configs.push((config_type.type_id, store));
            proof {
                all_views = all_views.push(views);
                assert forall|m: int|
                    #![trigger all_views[m]]
                    0 <= m < configs@.len() implies entries_prepared(
                    configs@[m].1@,
                    all[all.len() - 1 - m].1@,
                    loader_of(tagged_loaders@, all[all.len() - 1 - m].0@),
                    all_views[m],
                    *preparer,
                    indexer@,
                ) by {
                    if m < configs_before.len() {
                        assert(configs@[m] == configs_before[m]);
                        assert(all_views[m] == views_before[m]);
                    } else {
                        assert(all.len() - 1 - m == p);
                    }
                }
                assert forall|m: int| 0 <= m < configs@.len() implies {
                    let p = all.len() - 1 - m;
                    &&& (#[trigger] configs@[m]).0 == loader_type(tagged_loaders@, all[p].0@)
                    &&& configs@[m].1@.len() == all[p].1@.len()
                    &&& entries_named(configs@[m].1@, all[p].1@, configs@[m].0, indexer@)
                } by {
                    if m < configs_before.len() {
                        assert(configs@[m] == configs_before[m]);
                    }
                }
                assert(raws@ =~= all.subrange(0, raws@.len() as int));
            }
        }
        proof {
            use_type_invariant(&indexer);
            ConfigIndexer::lemma_view_wf(&indexer);
            lemma_built(all, tagged_loaders@, configs@, indexer@);
            lemma_built_prepared(all, tagged_loaders@, configs@, all_views, *preparer, indexer@);
        }
        let repository = ConfigRepository::from_parts(configs, indexer);
        proof {
            use_type_invariant(&repository);
        }
        Ok(repository)
    }
}

} // verus!
