//! The environment that widgets find shared values in, by type: a value is
//! there for the time of a call that `with` makes.

use std::any::TypeId;

use vstd::prelude::*;

use crate::assoc::{
    assoc_map, keys_unique, lemma_assoc_at, lemma_assoc_empty, lemma_assoc_push,
    lemma_assoc_remove,
};
use crate::config::store::{by_type, find_type};

verus! {

/// Values by the type they stand for; `V` is how a value is held.
pub struct Env<V>(Vec<(TypeId, V)>);

impl<V> View for Env<V> {
    type V = Map<TypeId, V>;

    closed spec fn view(&self) -> Map<TypeId, V> {
        assoc_map(self.0@, by_type())
    }
}

impl<V> Env<V> {
    /// One value per type.
    #[verifier::type_invariant]
    closed spec fn inv(self) -> bool {
        keys_unique(self.0@, by_type())
    }

    /// An environment with no value.
    pub fn new() -> (env: Self)
        ensures
            env@ == Map::<TypeId, V>::empty(),
            env@ == nested_values(Seq::<TypeId>::empty(), Seq::<V>::empty()),
    {
        let env = Env(Vec::new());
        proof {
            lemma_assoc_empty(env.0@, by_type());
        }
        env
    }

    /// The value of the type, if there is one.
    pub fn get(&self, type_id: &TypeId) -> (value: Option<&V>)
        ensures
            match value {
                Some(v) => self@.contains_key(*type_id) && self@[*type_id] == *v,
                None => !self@.contains_key(*type_id),
            },
    {
        proof {
            use_type_invariant(self);
        }
        match find_type(&self.0, type_id) {
            Some(i) => {
                proof {
                    lemma_assoc_at(self.0@, by_type(), i as int);
                }
                Some(&self.0[i].1)
            },
            None => None,
        }
    }

    /// Sets the value of the type, dropping the one it had.
    fn insert(&mut self, type_id: TypeId, value: V)
        ensures
            final(self)@ == old(self)@.insert(type_id, value),
    {
        proof {
            use_type_invariant(&*self);
        }
        let mut entries: Vec<(TypeId, V)> = Vec::new();
        std::mem::swap(&mut entries, &mut self.0);
        if let Some(i) = find_type(&entries, &type_id) {
            proof {
                lemma_assoc_at(entries@, by_type(), i as int);
                lemma_assoc_remove(entries@, by_type(), i as int);
            }
            entries.remove(i);
        }
        proof {
            lemma_assoc_push(entries@, by_type(), type_id, value);
        }
        entries.push((type_id, value));
        self.0 = entries;
        proof {
            assert(self@ =~= old(self)@.insert(type_id, value));
        }
    }

    /// Drops the value of the type, if there is one.
    fn remove(&mut self, type_id: TypeId)
        ensures
            final(self)@ == old(self)@.remove(type_id),
    {
        proof {
            use_type_invariant(&*self);
        }
        let mut entries: Vec<(TypeId, V)> = Vec::new();
        std::mem::swap(&mut entries, &mut self.0);
        if let Some(i) = find_type(&entries, &type_id) {
            proof {
                lemma_assoc_at(entries@, by_type(), i as int);
                lemma_assoc_remove(entries@, by_type(), i as int);
            }
            entries.remove(i);
        } else {
            proof {
                assert(assoc_map(entries@, by_type()) =~= assoc_map(entries@, by_type()).remove(
                    type_id,
                ));
            }
        }
        self.0 = entries;
    }

    /// Calls `f` with the environment holding the value for its type (in
    /// place of any value the type had), and afterwards takes the type's
    /// value out of the environment `f` left.
    pub fn with<R, F: FnOnce(&mut Env<V>) -> R>(&mut self, type_id: TypeId, value: V, f: F) -> (
        result: R)
        requires
            forall|env: &mut Env<V>| f.requires((env,)),
        ensures
            exists|env: &mut Env<V>|
                {
                    &&& env@ == old(self)@.insert(type_id, value)
                    &&& forall|types: Seq<TypeId>, values: Seq<V>|
                        old(self)@ == #[trigger] nested_values(types, values) ==> env@
                            == nested_values(types.push(type_id), values.push(value))
                    &&& #[trigger] f.ensures((env,), result)
                    &&& final(self)@ == final(env)@.remove(type_id)
                },
    {
        proof {
            assert forall|types: Seq<TypeId>, values: Seq<V>|
                (#[trigger] nested_values(types, values)).insert(type_id, value) == nested_values(
                    types.push(type_id),
                    values.push(value),
                ) by {
                assert(types.push(type_id).drop_last() =~= types);
                assert(values.push(value).drop_last() =~= values);
            }
        }
        self.insert(type_id, value);
        let result = f(self);
        self.remove(type_id);
        result
    }
}

/// What an environment holds inside calls of `with` nested in one
/// another on an empty one, the outermost first: each call's value under
/// its type, an inner call's value in place of an outer one's of the same
/// type.
pub open spec fn nested_values<V>(types: Seq<TypeId>, values: Seq<V>) -> Map<TypeId, V>
    decreases types.len(),
{
    if types.len() == 0 || values.len() == 0 {
        Map::empty()
    } else {
        nested_values(types.drop_last(), values.drop_last()).insert(types.last(), values.last())
    }
}

/// What `get` finds in an environment made by calls of `with` nested in one
/// another on a new one (`new` and `with` give that it holds
/// `nested_values` of the calls' types and values), for types that differ
/// from one another: the value given with the type, and nothing for a type
/// given with none.
pub proof fn law_get_in_nested_with<V>(env: &Env<V>, types: Seq<TypeId>, values: Seq<V>, t: TypeId)
    requires
        env@ == nested_values(types, values),
        types.len() == values.len(),
        types.no_duplicates(),
    ensures
        env@.contains_key(t) <==> types.contains(t),
        forall|i: int| 0 <= i < types.len() && types[i] == t ==> env@[t] == values[i],
{
    law_nested_with_get(types, values, t, values.first());
}

/// Inside calls of `with` nested in one another on an empty environment,
/// for types that differ from one another, `get` finds for each of the types
/// the value given with it, and nothing for any other type; and a further
/// call of `with`, for type `t` with value `v`, adds its value to what the
/// calls around it hold.
pub proof fn law_nested_with_get<V>(types: Seq<TypeId>, values: Seq<V>, t: TypeId, v: V)
    requires
        types.len() == values.len(),
        types.no_duplicates(),
    ensures
        nested_values(types, values).insert(t, v) == nested_values(types.push(t), values.push(v)),
        nested_values(types, values).contains_key(t) <==> types.contains(t),
        forall|i: int|
            0 <= i < types.len() ==> nested_values(types, values)[#[trigger] types[i]] == values[i],
    decreases types.len(),
{
    assert(types.push(t).drop_last() =~= types);
    assert(values.push(v).drop_last() =~= values);
    if types.len() > 0 {
        let (front, last) = (types.drop_last(), types.last());
        assert(front.no_duplicates());
        law_nested_with_get(front, values.drop_last(), t, v);
        assert forall|i: int| 0 <= i < types.len() implies nested_values(types, values)[
            #[trigger] types[i]] == values[i] by {
            if i < types.len() - 1 {
                assert(types[i] == front[i]);
                assert(types[i] != last);
                law_nested_with_get(front, values.drop_last(), types[i], v);
            }
        }
        if types.contains(t) {
            let i = choose|i: int| 0 <= i < types.len() && types[i] == t;
            if i < types.len() - 1 {
                assert(front.contains(t)) by {
                    assert(front[i] == t);
                }
            }
        } else {
            assert(!front.contains(t)) by {
                if front.contains(t) {
                    let i = choose|i: int| 0 <= i < front.len() && front[i] == t;
                    assert(types[i] == t);
                }
            }
        }
    }
}

} // verus!
