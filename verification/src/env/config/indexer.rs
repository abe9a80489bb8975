//! The indexer: hands out one numeric id per config label, in order, and
//! remembers for which config types each label was asked.

use std::any::TypeId;

use vstd::prelude::*;

use super::id::{ConfigId, ConfigLabel};
use crate::assoc::{assoc_map, keys_unique, lemma_assoc_at, lemma_assoc_empty, lemma_assoc_push};
use crate::config::store::{by_name, find_name, ConfigType};
use crate::type_id::same_type;

verus! {

/// What the indexer knows: the id of each label, the config types each
/// label was asked for (in the order of the requests), and the label of
/// each id (the id is the index).
pub struct IndexerView {
    pub ids: Map<Seq<char>, u64>,
    pub types: Map<Seq<char>, Seq<TypeId>>,
    pub labels: Seq<Seq<char>>,
}

impl IndexerView {
    /// Ids and labels are each other's inverse, the ids being `0` up to the
    /// number of labels.
    pub open spec fn wf(self) -> bool {
        &&& self.ids.dom() == self.types.dom()
        &&& self.labels.len() <= u64::MAX
        &&& forall|l: Seq<char>| #[trigger]
            self.ids.contains_key(l) ==> self.ids[l] < self.labels.len() && self.labels[self.ids[l] as int]
                == l
        &&& forall|k: int|
            0 <= k < self.labels.len() ==> self.ids.contains_key(#[trigger] self.labels[k])
                && self.ids[self.labels[k]] == k
    }

    /// The indexer holds at least what `earlier` held: every label keeps its
    /// id, and keeps the types it was asked for before.
    pub open spec fn extends(self, earlier: IndexerView) -> bool {
        &&& earlier.labels.len() <= self.labels.len()
        &&& forall|k: int| 0 <= k < earlier.labels.len() ==> #[trigger] self.labels[k] == earlier.labels[k]
        &&& forall|l: Seq<char>| #[trigger]
            earlier.ids.contains_key(l) ==> self.ids.contains_key(l) && self.ids[l] == earlier.ids[l]
                && earlier.types[l].is_prefix_of(self.types[l])
    }
}

/// Asking for the id of a label for a config type: a known label keeps its
/// id and records the type; a new label gets the next id.
pub open spec fn spec_get_or_create(view: IndexerView, type_id: TypeId, label: Seq<char>) -> (
    IndexerView,
    u64,
) {
    if view.ids.contains_key(label) {
        (
            IndexerView {
                types: view.types.insert(label, view.types[label].push(type_id)),
                ..view
            },
            view.ids[label],
        )
    } else {
        let id = view.labels.len() as u64;
        (
            IndexerView {
                ids: view.ids.insert(label, id),
                types: view.types.insert(label, seq![type_id]),
                labels: view.labels.push(label),
            },
            id,
        )
    }
}

/// Asking for the id of a label keeps every id handed out before, and
/// afterwards the label has that id, the id names the label, and the label
/// is known for the config type: so `get_id` and `get_label` answer with
/// them.
pub proof fn law_get_or_create_round_trip(view: IndexerView, type_id: TypeId, label: Seq<char>)
    requires
        view.wf(),
        !view.ids.contains_key(label) ==> view.labels.len() < u64::MAX,
    ensures
        ({
            let (after, id) = spec_get_or_create(view, type_id, label);
            &&& after.wf()
            &&& after.extends(view)
            &&& after.ids.contains_key(label)
            &&& after.ids[label] == id
            &&& id < after.labels.len()
            &&& after.labels[id as int] == label
            &&& after.types[label].contains(type_id)
        }),
{
    let (after, id) = spec_get_or_create(view, type_id, label);
    if view.ids.contains_key(label) {
        let n = after.types[label].len() - 1;
        assert(after.types[label][n] == type_id);
        assert(after.ids.dom() =~= after.types.dom());
        assert(view.types[label].is_prefix_of(after.types[label]));
        assert forall|l: Seq<char>| #[trigger] view.ids.contains_key(l) implies view.types[
            l
        ].is_prefix_of(after.types[l]) by {
            if l != label {
                assert(after.types[l] == view.types[l]);
            }
        }
    } else {
        assert(after.types[label][0] == type_id);
        assert forall|k: int| 0 <= k < after.labels.len() implies after.ids.contains_key(
            #[trigger] after.labels[k],
        ) && after.ids[after.labels[k]] == k by {
            if k < view.labels.len() {
                assert(after.labels[k] == view.labels[k]);
            }
        }
        assert forall|l: Seq<char>| #[trigger] after.ids.contains_key(l) implies after.ids[l]
            < after.labels.len() && after.labels[after.ids[l] as int] == l by {
            if l != label {
                assert(after.labels[view.ids[l] as int] == view.labels[view.ids[l] as int]);
            }
        }
        assert forall|l: Seq<char>| #[trigger] view.ids.contains_key(l) implies view.types[
            l
        ].is_prefix_of(after.types[l]) by {
            assert(after.types[l] == view.types[l]);
        }
        assert(after.ids.dom() =~= after.types.dom());
    }
}

/// Asking twice for the id of the same label gives the same id, whatever
/// the config types asked with.
pub proof fn law_same_label_same_id(
    view: IndexerView,
    first_type: TypeId,
    second_type: TypeId,
    label: Seq<char>,
)
    requires
        view.wf(),
        !view.ids.contains_key(label) ==> view.labels.len() < u64::MAX,
    ensures
        ({
            let (after, first) = spec_get_or_create(view, first_type, label);
            let (_, second) = spec_get_or_create(after, second_type, label);
            first == second
        }),
{
    law_get_or_create_round_trip(view, first_type, label);
}

/// Two labels never share an id.
pub proof fn law_ids_distinct(view: IndexerView, first: Seq<char>, second: Seq<char>)
    requires
        view.wf(),
        view.ids.contains_key(first),
        view.ids.contains_key(second),
        first != second,
    ensures
        view.ids[first] != view.ids[second],
{
    assert(view.labels[view.ids[first] as int] == first);
    assert(view.labels[view.ids[second] as int] == second);
}

/// Holding at least as much is reflexive and transitive.
pub proof fn lemma_extends_trans(first: IndexerView, second: IndexerView, third: IndexerView)
    requires
        second.extends(first),
        third.extends(second),
    ensures
        third.extends(first),
        first.extends(first),
{
    assert forall|l: Seq<char>| #[trigger] first.ids.contains_key(l) implies third.ids.contains_key(l)
        && third.ids[l] == first.ids[l] && first.types[l].is_prefix_of(third.types[l]) by {
        assert(second.ids.contains_key(l));
        assert(first.types[l].is_prefix_of(second.types[l]));
        assert(second.types[l].is_prefix_of(third.types[l]));
        assert forall|i: int| 0 <= i < first.types[l].len() implies first.types[l][i]
            == third.types[l][i] by {
            assert(first.types[l][i] == second.types[l][i]);
        }
    }
    assert forall|k: int| 0 <= k < first.labels.len() implies #[trigger] third.labels[k]
        == first.labels[k] by {
        assert(second.labels[k] == first.labels[k]);
    }
    assert forall|l: Seq<char>| #[trigger] first.ids.contains_key(l) implies first.types[
        l
    ].is_prefix_of(first.types[l]) by {
        assert(first.types[l].subrange(0, first.types[l].len() as int) =~= first.types[l]);
    }
}

/// Why the indexer could not answer.
#[derive(Debug)]
pub enum IndexerError {
    /// No id was ever handed out for the label.
    LabelNotRegistered { label: String },
    /// The label has an id, but was never asked for with the config type of
    /// the tag.
    LabelNotRegisteredForType { label: String, tag: &'static str },
    /// No label has the id.
    LabelNotFound { id: u64 },
}

/// The id of a label, and the config types it was asked for.
type IdEntry = (u64, Vec<TypeId>);

/// Hands out numeric ids for config labels.
#[derive(Debug)]
pub struct ConfigIndexer {
    label_to_id: Vec<(String, IdEntry)>,
    next_id: u64,
    id_to_label: Vec<String>,
}

/// Whether the type is among the types.
fn contains_type(types: &Vec<TypeId>, type_id: &TypeId) -> (found: bool)
    ensures
        found == types@.contains(*type_id),
{
    let mut i: usize = 0;
    while i < types.len()
        invariant
            i <= types@.len(),
            forall|j: int| 0 <= j < i ==> types@[j] != *type_id,
        decreases types@.len() - i,
    {
        if same_type(&types[i], type_id) {
            assert(types@[i as int] == *type_id);
            return true;
        }
        i = i + 1;
    }
    false
}

impl ConfigIndexer {
    /// The entries are in id order, one per label, and `id_to_label` is
    /// their inverse.
    #[verifier::type_invariant]
    pub(crate) closed spec fn inv(self) -> bool {
        &&& keys_unique(self.label_to_id@, by_name::<IdEntry>())
        &&& self.label_to_id@.len() == self.next_id
        &&& self.id_to_label@.len() == self.next_id
        &&& forall|k: int|
            0 <= k < self.label_to_id@.len() ==> (#[trigger] self.label_to_id@[k]).1.0 == k
                && self.id_to_label@[k]@ == self.label_to_id@[k].0@
    }

    /// Whether an `inv` holds of the parts of an indexer.
    closed spec fn parts_inv(
        label_to_id: Seq<(String, IdEntry)>,
        next_id: u64,
        id_to_label: Seq<String>,
    ) -> bool {
        &&& keys_unique(label_to_id, by_name::<IdEntry>())
        &&& label_to_id.len() == next_id
        &&& id_to_label.len() == next_id
        &&& forall|k: int|
            0 <= k < label_to_id.len() ==> (#[trigger] label_to_id[k]).1.0 == k
                && id_to_label[k]@ == label_to_id[k].0@
    }

    /// The view of the parts of an indexer.
    closed spec fn parts_view(
        label_to_id: Seq<(String, IdEntry)>,
        id_to_label: Seq<String>,
    ) -> IndexerView {
        let entries = assoc_map(label_to_id, by_name::<IdEntry>());
        IndexerView {
            ids: entries.map_values(|e: IdEntry| e.0),
            types: entries.map_values(|e: IdEntry| e.1@),
            labels: id_to_label.map_values(|s: String| s@),
        }
    }

    /// The entry at `k` gives the id and types of its label, and the label
    /// of its id.
    proof fn lemma_parts_at(
        label_to_id: Seq<(String, IdEntry)>,
        next_id: u64,
        id_to_label: Seq<String>,
        k: int,
    )
        requires
            Self::parts_inv(label_to_id, next_id, id_to_label),
            0 <= k < label_to_id.len(),
        ensures
            Self::parts_view(label_to_id, id_to_label).ids.contains_key(label_to_id[k].0@),
            Self::parts_view(label_to_id, id_to_label).ids[label_to_id[k].0@] == k,
            Self::parts_view(label_to_id, id_to_label).types[label_to_id[k].0@]
                == label_to_id[k].1.1@,
            Self::parts_view(label_to_id, id_to_label).labels[k] == label_to_id[k].0@,
    {
        lemma_assoc_at(label_to_id, by_name::<IdEntry>(), k);
    }

    /// The view of parts that keep `inv` is well formed.
    proof fn lemma_parts_wf(
        label_to_id: Seq<(String, IdEntry)>,
        next_id: u64,
        id_to_label: Seq<String>,
    )
        requires
            Self::parts_inv(label_to_id, next_id, id_to_label),
        ensures
            Self::parts_view(label_to_id, id_to_label).wf(),
    {
        let v = Self::parts_view(label_to_id, id_to_label);
        assert(v.ids.dom() =~= v.types.dom());
        assert forall|l: Seq<char>| #[trigger] v.ids.contains_key(l) implies v.ids[l]
            < v.labels.len() && v.labels[v.ids[l] as int] == l by {
            let k = crate::assoc::index_of(label_to_id, by_name::<IdEntry>(), l);
            Self::lemma_parts_at(label_to_id, next_id, id_to_label, k);
        }
        assert forall|k: int| 0 <= k < v.labels.len() implies v.ids.contains_key(
            #[trigger] v.labels[k],
        ) && v.ids[v.labels[k]] == k by {
            Self::lemma_parts_at(label_to_id, next_id, id_to_label, k);
        }
    }
}

impl View for ConfigIndexer {
    type V = IndexerView;

    closed spec fn view(&self) -> IndexerView {
        Self::parts_view(self.label_to_id@, self.id_to_label@)
    }
}

impl ConfigIndexer {
    /// An indexer that has handed out no id.
    pub fn new() -> (indexer: Self)
        ensures
            indexer@.wf(),
            indexer@.ids == Map::<Seq<char>, u64>::empty(),
            indexer@.types == Map::<Seq<char>, Seq<TypeId>>::empty(),
            indexer@.labels == Seq::<Seq<char>>::empty(),
    {
        let indexer = ConfigIndexer { label_to_id: Vec::new(), next_id: 0, id_to_label: Vec::new() };
        proof {
            lemma_assoc_empty(indexer.label_to_id@, by_name::<IdEntry>());
            Self::lemma_parts_wf(indexer.label_to_id@, indexer.next_id, indexer.id_to_label@);
            assert(indexer@.ids =~= Map::<Seq<char>, u64>::empty());
            assert(indexer@.types =~= Map::<Seq<char>, Seq<TypeId>>::empty());
            assert(indexer@.labels =~= Seq::<Seq<char>>::empty());
        }
        indexer
    }

    /// The view of an indexer that keeps its invariant is well formed.
    pub(crate) proof fn lemma_view_wf(indexer: &ConfigIndexer)
        requires
            indexer.inv(),
        ensures
            indexer@.wf(),
    {
        Self::lemma_parts_wf(indexer.label_to_id@, indexer.next_id, indexer.id_to_label@);
    }

    /// How many ids have been handed out: the id the next new label gets.
    pub fn id_count(&self) -> (count: u64)
        ensures
            self@.wf(),
            count == self@.labels.len(),
    {
        proof {
            use_type_invariant(self);
            Self::lemma_parts_wf(self.label_to_id@, self.next_id, self.id_to_label@);
        }
        self.next_id
    }

    /// The id of the label, recording that it was asked for with the config
    /// type; a label not seen before gets the next id.
    pub(crate) fn get_or_create_id_raw(&mut self, type_id: TypeId, label: &str) -> (id: u64)
        requires
            !old(self)@.ids.contains_key(label@) ==> old(self)@.labels.len() < u64::MAX,
        ensures
            final(self)@.wf(),
            (final(self)@, id) == spec_get_or_create(old(self)@, type_id, label@),
    {
        let mut taken = ConfigIndexer::new();
        std::mem::swap(self, &mut taken);
        proof {
            use_type_invariant(&taken);
        }
        let ghost before = taken@;
        let ConfigIndexer { mut label_to_id, mut next_id, mut id_to_label } = taken;
        match find_name(&label_to_id, label) {
            Some(i) => {
                let ghost old_entries = label_to_id@;
                let (l, (id, mut types)) = label_to_id.remove(i);
                types.push(type_id);
                label_to_id.insert(i, (l, (id, types)));
                proof {
                    assert(label_to_id@ =~= old_entries.update(i as int, (l, (id, types))));
                    crate::assoc::lemma_assoc_update(
                        old_entries,
                        by_name::<IdEntry>(),
                        i as int,
                        (id, types),
                    );
                    Self::lemma_parts_at(old_entries, next_id, id_to_label@, i as int);
                    assert forall|k: int| 0 <= k < label_to_id@.len() implies (
                    #[trigger] label_to_id@[k]).1.0 == k && id_to_label@[k]@ == label_to_id@[k].0@ by {
                        if k != i {
                            assert(label_to_id@[k] == old_entries[k]);
                        }
                    }
                    let after = Self::parts_view(label_to_id@, id_to_label@);
                    assert(after.ids =~= before.ids);
                    assert(after.types =~= before.types.insert(label@, before.types[label@].push(type_id)));
                    Self::lemma_parts_wf(label_to_id@, next_id, id_to_label@);
                }
                *self = ConfigIndexer { label_to_id, next_id, id_to_label };
                id
            },
            None => {
                let ghost old_entries = label_to_id@;
                let ghost old_labels = id_to_label@;
                proof {
                    Self::lemma_parts_wf(old_entries, next_id, old_labels);
                    assert(!before.ids.contains_key(label@));
                }
                let id = next_id;
                next_id = next_id + 1;
                let mut types: Vec<TypeId> = Vec::new();
                types.push(type_id);
                let key = String::from_str(label);
                proof {
                    crate::assoc::lemma_assoc_push(
                        old_entries,
                        by_name::<IdEntry>(),
                        key,
                        (id, types),
                    );
                }
                label_to_id.push((key, (id, types)));
                id_to_label.push(String::from_str(label));
                proof {
                    assert forall|k: int| 0 <= k < label_to_id@.len() implies (
                    #[trigger] label_to_id@[k]).1.0 == k && id_to_label@[k]@ == label_to_id@[k].0@ by {
                        if k < old_entries.len() {
                            assert(label_to_id@[k] == old_entries[k]);
                            assert(id_to_label@[k] == old_labels[k]);
                        }
                    }
                    let after = Self::parts_view(label_to_id@, id_to_label@);
                    assert(after.ids =~= before.ids.insert(label@, id));
                    assert(after.types =~= before.types.insert(label@, seq![type_id]));
                    assert(after.labels =~= before.labels.push(label@));
                    Self::lemma_parts_wf(label_to_id@, next_id, id_to_label@);
                }
                *self = ConfigIndexer { label_to_id, next_id, id_to_label };
                id
            },
        }
    }

    /// The id of the label, recording that it was asked for with the config
    /// type; a label not seen before gets the next id.
    pub fn get_or_create_id<C>(&mut self, config_type: &ConfigType, label: ConfigLabel<C>) -> (id:
        ConfigId<C>)
        requires
            !old(self)@.ids.contains_key(label@) ==> old(self)@.labels.len() < u64::MAX,
        ensures
            final(self)@.wf(),
            (final(self)@, id@) == spec_get_or_create(old(self)@, config_type.type_id, label@),
    {
        let text = label.into_string();
        ConfigId::new(self.get_or_create_id_raw(config_type.type_id, text.as_str()))
    }

    /// The id of the label, if it was asked for with the config type.
    pub fn get_id<C>(&self, config_type: &ConfigType, label: String) -> (found: Result<
        ConfigId<C>,
        IndexerError,
    >)
        ensures
            self@.wf(),
            match found {
                Ok(id) => {
                    &&& self@.ids.contains_key(label@)
                    &&& self@.types[label@].contains(config_type.type_id)
                    &&& id@ == self@.ids[label@]
                },
                Err(IndexerError::LabelNotRegistered { label: missing }) => {
                    &&& !self@.ids.contains_key(label@)
                    &&& missing@ == label@
                },
                Err(IndexerError::LabelNotRegisteredForType { label: missing, tag }) => {
                    &&& self@.ids.contains_key(label@)
                    &&& !self@.types[label@].contains(config_type.type_id)
                    &&& missing@ == label@
                    &&& tag == config_type.tag
                },
                Err(IndexerError::LabelNotFound { .. }) => false,
            },
    {
        proof {
            use_type_invariant(self);
            Self::lemma_parts_wf(self.label_to_id@, self.next_id, self.id_to_label@);
        }
        match find_name(&self.label_to_id, label.as_str()) {
            None => Err(IndexerError::LabelNotRegistered { label }),
            Some(i) => {
                proof {
                    Self::lemma_parts_at(self.label_to_id@, self.next_id, self.id_to_label@, i as int);
                }
                if contains_type(&self.label_to_id[i].1.1, &config_type.type_id) {
                    Ok(ConfigId::new(self.label_to_id[i].1.0))
                } else {
                    Err(IndexerError::LabelNotRegisteredForType { label, tag: config_type.tag })
                }
            },
        }
    }

    /// The label of the id.
    pub fn get_label<C>(&self, id: ConfigId<C>) -> (found: Result<ConfigLabel<C>, IndexerError>)
        ensures
            self@.wf(),
            match found {
                Ok(label) => id@ < self@.labels.len() && label@ == self@.labels[id@ as int],
                Err(IndexerError::LabelNotFound { id: missing }) => {
                    &&& self@.labels.len() <= id@
                    &&& missing == id@
                },
                Err(_) => false,
            },
    {
        proof {
            use_type_invariant(self);
            Self::lemma_parts_wf(self.label_to_id@, self.next_id, self.id_to_label@);
        }
        let index = id.index();
        let count = self.id_to_label.len();
        if index < count as u64 {
            let k = index as usize;
            Ok(ConfigLabel::new(self.id_to_label[k].clone()))
        } else {
            Err(IndexerError::LabelNotFound { id: index })
        }
    }
}

} // verus!
