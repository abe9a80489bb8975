//! Amounts of resources by resource id, as the depot keeps them.

use vstd::prelude::*;

use crate::assoc::{
    assoc_map, has_key, keys_unique, lemma_assoc_at, lemma_assoc_empty, lemma_assoc_push,
    lemma_assoc_update,
};

verus! {

/// Keys amounts by their resource id.
pub open spec fn by_resource() -> spec_fn(u64) -> u64 {
    |id: u64| id
}

/// The amount of the resource in the map, or nothing (`0`) where it has
/// none.
pub open spec fn amount_of(amounts: Map<u64, i64>, id: u64) -> int {
    if amounts.contains_key(id) {
        amounts[id] as int
    } else {
        0
    }
}

/// The amounts after paying the cost the number of times: each resource of
/// the cost goes down by its cost times the number (a missing resource
/// counting as none); the others stay as they were.
pub open spec fn charged(amounts: Map<u64, i64>, cost: Map<u64, i64>, times: int) -> Map<u64, i64> {
    Map::new(
        |id: u64| amounts.contains_key(id) || cost.contains_key(id),
        |id: u64|
            if cost.contains_key(id) {
                (amount_of(amounts, id) - cost[id] * times) as i64
            } else {
                amounts[id]
            },
    )
}

/// Paying the cost the number of times keeps every amount, and every cost
/// times the number, within `i64`.
pub open spec fn charge_fits(amounts: Map<u64, i64>, cost: Map<u64, i64>, times: int) -> bool {
    forall|id: u64| #[trigger]
        cost.contains_key(id) ==> i64::MIN <= cost[id] * times <= i64::MAX && i64::MIN
            <= amount_of(amounts, id) - cost[id] * times <= i64::MAX
}

/// Amounts of resources, one per resource id.
pub struct ResourceMap {
    entries: Vec<(u64, i64)>,
}

/// The index of the entry of the resource, if there is one.
fn find_resource(entries: &Vec<(u64, i64)>, id: u64) -> (found: Option<usize>)
    ensures
        match found {
            Some(i) => i < entries@.len() && entries@[i as int].0 == id,
            None => !has_key(entries@, by_resource(), id),
        },
{
    let mut i: usize = 0;
    while i < entries.len()
        invariant
            i <= entries@.len(),
            forall|j: int| 0 <= j < i ==> #[trigger] entries@[j].0 != id,
        decreases entries@.len() - i,
    {
        if entries[i].0 == id {
            return Some(i);
        }
        i = i + 1;
    }
    proof {
        assert forall|j: int| 0 <= j < entries@.len() implies #[trigger] by_resource()(
            entries@[j].0,
        ) != id by {
            assert(entries@[j].0 != id);
        }
    }
    None
}

impl View for ResourceMap {
    type V = Map<u64, i64>;

    closed spec fn view(&self) -> Map<u64, i64> {
        assoc_map(self.entries@, by_resource())
    }
}

impl ResourceMap {
    /// One entry per resource.
    #[verifier::type_invariant]
    closed spec fn inv(self) -> bool {
        keys_unique(self.entries@, by_resource())
    }

    /// A map with no resource.
    pub fn new() -> (map: Self)
        ensures
            map@ == Map::<u64, i64>::empty(),
    {
        let map = ResourceMap { entries: Vec::new() };
        proof {
            lemma_assoc_empty(map.entries@, by_resource());
        }
        map
    }

    /// The amount of the resource, if the map has it.
    pub fn get(&self, id: u64) -> (amount: Option<i64>)
        ensures
            amount == (if self@.contains_key(id) {
                Some(self@[id])
            } else {
                None
            }),
    {
        proof {
            use_type_invariant(self);
        }
        match find_resource(&self.entries, id) {
            Some(i) => {
                proof {
                    lemma_assoc_at(self.entries@, by_resource(), i as int);
                }
                Some(self.entries[i].1)
            },
            None => None,
        }
    }

    /// The amount of the resource, `0` where the map has none.
    pub fn amount(&self, id: u64) -> (amount: i64)
        ensures
            amount == amount_of(self@, id),
    {
        match self.get(id) {
            Some(amount) => amount,
            None => 0,
        }
    }

    /// Sets the amount of the resource.
    pub fn insert(&mut self, id: u64, amount: i64)
        ensures
            final(self)@ == old(self)@.insert(id, amount),
    {
        proof {
            use_type_invariant(&*self);
        }
        let mut entries = Vec::new();
        std::mem::swap(&mut entries, &mut self.entries);
        match find_resource(&entries, id) {
            Some(i) => {
                proof {
                    lemma_assoc_update(entries@, by_resource(), i as int, amount);
                    lemma_assoc_at(entries@, by_resource(), i as int);
                }
                entries.set(i, (id, amount));
            },
            None => {
                proof {
                    lemma_assoc_push(entries@, by_resource(), id, amount);
                }
                entries.push((id, amount));
            },
        }
        self.entries = entries;
    }

    /// Adds the amount to the stock of the resource (a missing resource
    /// counting as none).
    pub fn put(&mut self, id: u64, amount: i64)
        requires
            i64::MIN <= amount_of(old(self)@, id) + amount <= i64::MAX,
        ensures
            final(self)@ == old(self)@.insert(id, (amount_of(old(self)@, id) + amount) as i64),
    {
        let current = self.amount(id);
        self.insert(id, current + amount);
    }

    /// Pays the cost the number of times, whether or not the amounts
    /// suffice.
    pub fn charge(&mut self, cost: &ResourceMap, times: i64)
        requires
            charge_fits(old(self)@, cost@, times as int),
        ensures
            final(self)@ == charged(old(self)@, cost@, times as int),
    {
        let ghost before = self@;
        let entries = cost.entries();
        let mut i: usize = 0;
        while i < entries.len()
            invariant
                i <= entries@.len(),
                keys_unique(entries@, by_resource()),
                assoc_map(entries@, by_resource()) == cost@,
                charge_fits(before, cost@, times as int),
                forall|id: u64|
                    #![trigger self@.contains_key(id)]
                    #![trigger before.contains_key(id)]
                    has_key(entries@.take(i as int), by_resource(), id) ==> self@.contains_key(id)
                        && self@[id] == charged(before, cost@, times as int)[id],
                forall|id: u64|
                    #![trigger self@.contains_key(id)]
                    #![trigger before.contains_key(id)]
                    !has_key(entries@.take(i as int), by_resource(), id) ==> (self@.contains_key(id)
                        == before.contains_key(id)) && (before.contains_key(id) ==> self@[id]
                        == before[id]),
            decreases entries@.len() - i,
        {
            let (id, amount) = entries[i];
            proof {
                lemma_assoc_at(entries@, by_resource(), i as int);
                assert(cost@.contains_key(id));
                assert(!has_key(entries@.take(i as int), by_resource(), id)) by {
                    if has_key(entries@.take(i as int), by_resource(), id) {
                        let j = crate::assoc::index_of(entries@.take(i as int), by_resource(), id);
                        assert(entries@.take(i as int)[j] == entries@[j]);
                        assert(by_resource()(entries@[j].0) == by_resource()(entries@[i as int].0));
                    }
                }
            }
            let ghost middle = self@;
            let paid = amount * times;
            let left = self.amount(id) - paid;
            self.insert(id, left);
            proof {
                let taken = entries@.take(i as int + 1);
                assert forall|k: u64| #[trigger] has_key(taken, by_resource(), k) implies k == id
                    || has_key(entries@.take(i as int), by_resource(), k) by {
                    let j = crate::assoc::index_of(taken, by_resource(), k);
                    if j < i {
                        assert(entries@.take(i as int)[j] == taken[j]);
                    }
                }
                assert(by_resource()(taken[i as int].0) == id);
                assert forall|k: u64| #[trigger]
                    has_key(entries@.take(i as int), by_resource(), k) implies has_key(
                    taken,
                    by_resource(),
                    k,
                ) by {
                    let j = crate::assoc::index_of(entries@.take(i as int), by_resource(), k);
                    assert(taken[j] == entries@.take(i as int)[j]);
                }
            }
            i = i + 1;
        }
        proof {
            assert(entries@.take(entries@.len() as int) =~= entries@);
            assert forall|id: u64| #[trigger] cost@.contains_key(id) implies has_key(
                entries@,
                by_resource(),
                id,
            ) by {}
            assert(self@ =~= charged(before, cost@, times as int));
        }
    }

    /// The entries, one per resource, in no particular order.
    pub fn entries(&self) -> (entries: &Vec<(u64, i64)>)
        ensures
            keys_unique(entries@, by_resource()),
            assoc_map(entries@, by_resource()) == self@,
    {
        proof {
            use_type_invariant(self);
        }
        &self.entries
    }

    /// Whether the map has no resource.
    pub fn is_empty(&self) -> (empty: bool)
        ensures
            empty == (self@ == Map::<u64, i64>::empty()),
    {
        proof {
            use_type_invariant(self);
            if self.entries@.len() > 0 {
                lemma_assoc_at(self.entries@, by_resource(), 0);
            } else {
                lemma_assoc_empty(self.entries@, by_resource());
            }
        }
        self.entries.len() == 0
    }
}

impl Clone for ResourceMap {
    fn clone(&self) -> (copy: Self)
        ensures
            copy@ == self@,
    {
        proof {
            use_type_invariant(self);
        }
        let mut entries: Vec<(u64, i64)> = Vec::new();
        let mut i: usize = 0;
        while i < self.entries.len()
            invariant
                i <= self.entries@.len(),
                entries@ == self.entries@.subrange(0, i as int),
            decreases self.entries@.len() - i,
        {
            entries.push(self.entries[i]);
            i = i + 1;
            proof {
                assert(entries@ =~= self.entries@.subrange(0, i as int));
            }
        }
        proof {
            assert(entries@ =~= self.entries@);
        }
        ResourceMap { entries }
    }
}

/// Paying a cost a number of times lowers each resource of the cost by its
/// cost times the number (a missing resource counting as none) and leaves
/// every other resource as it was; paying it no times changes no amount,
/// and paying it twice is paying it once for both numbers together.
pub proof fn law_charge_pays_each_cost(
    amounts: Map<u64, i64>,
    cost: Map<u64, i64>,
    times: int,
    more: int,
    id: u64,
)
    requires
        charge_fits(amounts, cost, times),
        charge_fits(charged(amounts, cost, times), cost, more),
        charge_fits(amounts, cost, times + more),
    ensures
        cost.contains_key(id) ==> charged(amounts, cost, times).contains_key(id) && amount_of(
            charged(amounts, cost, times),
            id,
        ) == amount_of(amounts, id) - cost[id] * times,
        !cost.contains_key(id) ==> charged(amounts, cost, times).contains_key(id)
            == amounts.contains_key(id) && (amounts.contains_key(id) ==> charged(
            amounts,
            cost,
            times,
        )[id] == amounts[id]),
        cost.contains_key(id) ==> amount_of(charged(amounts, cost, 0), id) == amount_of(amounts, id),
        charged(charged(amounts, cost, times), cost, more) == charged(amounts, cost, times + more),
{
    if cost.contains_key(id) {
        assert(cost[id] * 0 == 0);
    }
    let once = charged(amounts, cost, times);
    let twice = charged(once, cost, more);
    let both = charged(amounts, cost, times + more);
    assert forall|k: u64| #[trigger] twice.contains_key(k) implies twice[k] == both[k] by {
        if cost.contains_key(k) {
            assert(cost[k] * times + cost[k] * more == cost[k] * (times + more)) by (nonlinear_arith);
            assert(i64::MIN <= cost[k] * times <= i64::MAX);
            assert(i64::MIN <= amount_of(amounts, k) - cost[k] * times <= i64::MAX);
            assert(amount_of(once, k) == amount_of(amounts, k) - cost[k] * times);
            assert(i64::MIN <= amount_of(amounts, k) - cost[k] * (times + more) <= i64::MAX);
        }
    }
    assert(twice =~= both);
}

} // verus!
