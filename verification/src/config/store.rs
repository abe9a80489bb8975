//! The stores that hold configs: for each registered type, its configs by
//! name. Both the builder and the finished repository keep them.

use std::any::TypeId;

use vstd::prelude::*;

use crate::assoc::{
    assoc_map, has_key, keys_unique, lemma_nested_at, lemma_nested_push, lemma_nested_remove,
    nested_map, nested_wf,
};
use crate::strings::str_equal;
use crate::type_id::same_type;

verus! {

/// A config type as the repository knows it: its Rust type, its name in
/// error reports, and the tag that config files give it.
#[derive(Clone, Copy)]
pub struct ConfigType {
    pub type_id: TypeId,
    pub type_label: &'static str,
    pub tag: &'static str,
}

/// The configs of one type, by name.
pub type ConfigStore<P> = Vec<(String, P)>;

/// Keys names by their text.
pub open spec fn by_name<P>() -> spec_fn(String) -> Seq<char> {
    |name: String| name@
}

/// Keys stores by their type.
pub open spec fn by_type() -> spec_fn(TypeId) -> TypeId {
    |t: TypeId| t
}

/// Keys loaders by their tag's text.
pub open spec fn by_tag() -> spec_fn(&'static str) -> Seq<char> {
    |tag: &'static str| tag@
}

/// The configs of a store, by name.
pub open spec fn store_map<P>(store: Seq<(String, P)>) -> Map<Seq<char>, P> {
    assoc_map(store, by_name::<P>())
}

/// The stores hold one entry per type, and each store one entry per name.
pub open spec fn stores_wf<P>(stores: Seq<(TypeId, ConfigStore<P>)>) -> bool {
    nested_wf(stores, by_type(), by_name::<P>())
}

/// The configs of each registered type, by name.
pub open spec fn stores_map<P>(stores: Seq<(TypeId, ConfigStore<P>)>) -> Map<
    TypeId,
    Map<Seq<char>, P>,
> {
    nested_map(stores, by_type(), by_name::<P>())
}

/// The configs of the type at index `i` of the stores.
pub proof fn lemma_stores_at<P>(stores: Seq<(TypeId, ConfigStore<P>)>, i: int)
    requires
        stores_wf(stores),
        0 <= i < stores.len(),
    ensures
        stores_map(stores).contains_key(stores[i].0),
        stores_map(stores)[stores[i].0] == store_map(stores[i].1@),
{
    lemma_nested_at(stores, by_type(), by_name::<P>(), i);
}

/// Removing the store at `i` removes its type.
pub proof fn lemma_stores_remove<P>(stores: Seq<(TypeId, ConfigStore<P>)>, i: int)
    requires
        stores_wf(stores),
        0 <= i < stores.len(),
    ensures
        stores_wf(stores.remove(i)),
        stores_map(stores.remove(i)) == stores_map(stores).remove(stores[i].0),
{
    lemma_nested_remove(stores, by_type(), by_name::<P>(), i);
}

/// Appending a store for a new type adds the type.
pub proof fn lemma_stores_push<P>(
    stores: Seq<(TypeId, ConfigStore<P>)>,
    type_id: TypeId,
    store: ConfigStore<P>,
)
    requires
        stores_wf(stores),
        !has_key(stores, by_type(), type_id),
        keys_unique(store@, by_name::<P>()),
    ensures
        stores_wf(stores.push((type_id, store))),
        stores_map(stores.push((type_id, store))) == stores_map(stores).insert(
            type_id,
            store_map(store@),
        ),
{
    lemma_nested_push(stores, by_type(), by_name::<P>(), type_id, store);
}

/// The index of the store of the type, if there is one.
pub fn find_type<S>(stores: &Vec<(TypeId, S)>, type_id: &TypeId) -> (found: Option<
    usize,
>)
    ensures
        match found {
            Some(i) => i < stores@.len() && stores@[i as int].0 == *type_id,
            None => !has_key(stores@, by_type(), *type_id),
        },
{
    let mut i: usize = 0;
    while i < stores.len()
        invariant
            i <= stores@.len(),
            forall|j: int| 0 <= j < i ==> #[trigger] stores@[j].0 != *type_id,
        decreases stores@.len() - i,
    {
        if same_type(&stores[i].0, type_id) {
            return Some(i);
        }
        i = i + 1;
    }
    proof {
        assert forall|j: int| 0 <= j < stores@.len() implies #[trigger] by_type()(stores@[j].0)
            != *type_id by {
            assert(stores@[j].0 != *type_id);
        }
    }
    None
}

/// The index of the config with the name, if there is one.
pub fn find_name<P>(store: &ConfigStore<P>, name: &str) -> (found: Option<usize>)
    ensures
        match found {
            Some(i) => i < store@.len() && store@[i as int].0@ == name@,
            None => !has_key(store@, by_name::<P>(), name@),
        },
{
    let mut i: usize = 0;
    while i < store.len()
        invariant
            i <= store@.len(),
            forall|j: int| 0 <= j < i ==> #[trigger] store@[j].0@ != name@,
        decreases store@.len() - i,
    {
        if str_equal(store[i].0.as_str(), name) {
            return Some(i);
        }
        i = i + 1;
    }
    proof {
        assert forall|j: int| 0 <= j < store@.len() implies #[trigger] by_name::<P>()(store@[j].0)
            != name@ by {
            assert(store@[j].0@ != name@);
        }
    }
    None
}

/// The index of the entry of the tag, if there is one.
pub fn find_tag<S>(entries: &Vec<(&'static str, S)>, tag: &str) -> (found: Option<usize>)
    ensures
        match found {
            Some(i) => i < entries@.len() && entries@[i as int].0@ == tag@,
            None => !has_key(entries@, by_tag(), tag@),
        },
{
    let mut i: usize = 0;
    while i < entries.len()
        invariant
            i <= entries@.len(),
            forall|j: int| 0 <= j < i ==> #[trigger] entries@[j].0@ != tag@,
        decreases entries@.len() - i,
    {
        if str_equal(entries[i].0, tag) {
            return Some(i);
        }
        i = i + 1;
    }
    proof {
        assert forall|j: int| 0 <= j < entries@.len() implies #[trigger] by_tag()(entries@[j].0)
            != tag@ by {
            assert(entries@[j].0@ != tag@);
        }
    }
    None
}

} // verus!
