//! The production builder: a name, the production methods chosen, and for
//! each transport group that their resources travel by, the transport
//! chosen and whether a chosen method still uses the group.

use vstd::prelude::*;

use crate::app::resources::{amount_of, by_resource, charge_fits, charged, ResourceMap};
use crate::app::widgets::WindowCloseEvent;
use crate::assoc::{
    assoc_map, has_key, keys_unique, lemma_assoc_at, lemma_assoc_empty, lemma_assoc_push,
    lemma_assoc_update,
};

verus! {

/// Keys transport choices by their group.
pub open spec fn by_group() -> spec_fn(u64) -> u64 {
    |group: u64| group
}

/// The cost can be paid from the depot: it holds at least the cost of each
/// resource.
pub open spec fn covers(depot: Map<u64, i64>, cost: Map<u64, i64>) -> bool {
    forall|id: u64| #[trigger] cost.contains_key(id) ==> cost[id] <= amount_of(depot, id)
}

/// Marking the group of one resource, given with the group's default
/// transport: a group with a choice is marked as used; a new group gets its
/// default transport, marked as used.
pub open spec fn mark_step(transports: Map<u64, (u64, bool)>, group: (u64, u64)) -> Map<
    u64,
    (u64, bool),
> {
    if transports.contains_key(group.0) {
        transports.insert(group.0, (transports[group.0].0, true))
    } else {
        transports.insert(group.0, (group.1, true))
    }
}

/// Marking the groups in turn.
pub open spec fn marked(transports: Map<u64, (u64, bool)>, groups: Seq<(u64, u64)>) -> Map<
    u64,
    (u64, bool),
>
    decreases groups.len(),
{
    if groups.len() == 0 {
        transports
    } else {
        mark_step(marked(transports, groups.drop_last()), groups.last())
    }
}

/// A production being put together; a method is its id and its settings
/// `M`.
pub struct ProductionBuilder<M> {
    name: String,
    transport_methods: Vec<(u64, (u64, bool))>,
    production_methods: Vec<(u64, M)>,
}

/// The index of the choice of the group, if there is one.
fn find_group(choices: &Vec<(u64, (u64, bool))>, group: u64) -> (found: Option<usize>)
    ensures
        match found {
            Some(i) => i < choices@.len() && choices@[i as int].0 == group,
            None => !has_key(choices@, by_group(), group),
        },
{
    let mut i: usize = 0;
    while i < choices.len()
        invariant
            i <= choices@.len(),
            forall|j: int| 0 <= j < i ==> #[trigger] choices@[j].0 != group,
        decreases choices@.len() - i,
    {
        if choices[i].0 == group {
            return Some(i);
        }
        i = i + 1;
    }
    proof {
        assert forall|j: int| 0 <= j < choices@.len() implies #[trigger] by_group()(choices@[j].0)
            != group by {
            assert(choices@[j].0 != group);
        }
    }
    None
}

impl<M> ProductionBuilder<M> {
    /// One choice per transport group.
    #[verifier::type_invariant]
    closed spec fn inv(self) -> bool {
        keys_unique(self.transport_methods@, by_group())
    }

    /// The name typed so far.
    pub closed spec fn spec_name(&self) -> Seq<char> {
        self.name@
    }

    /// For each transport group, the transport chosen and whether a chosen
    /// method uses the group.
    pub closed spec fn spec_transports(&self) -> Map<u64, (u64, bool)> {
        assoc_map(self.transport_methods@, by_group())
    }

    /// The methods chosen, in order.
    pub closed spec fn spec_methods(&self) -> Seq<(u64, M)> {
        self.production_methods@
    }

    /// A builder with no name, method or transport.
    pub fn new() -> (builder: Self)
        ensures
            builder.spec_name() == Seq::<char>::empty(),
            builder.spec_transports() == Map::<u64, (u64, bool)>::empty(),
            builder.spec_methods() == Seq::<(u64, M)>::empty(),
    {
        let builder = ProductionBuilder {
            name: String::new(),
            transport_methods: Vec::new(),
            production_methods: Vec::new(),
        };
        proof {
            lemma_assoc_empty(builder.transport_methods@, by_group());
        }
        builder
    }

    /// The name typed so far.
    pub fn name(&self) -> (name: &str)
        ensures
            name@ == self.spec_name(),
    {
        self.name.as_str()
    }

    /// Replaces the name with what is typed now.
    pub fn set_name(&mut self, name: String)
        ensures
            final(self).spec_name() == name@,
            final(self).spec_transports() == old(self).spec_transports(),
            final(self).spec_methods() == old(self).spec_methods(),
    {
        proof {
            use_type_invariant(&*self);
        }
        self.name = name;
    }

    /// Whether the production can be made: it has a name and a method.
    pub fn ready(&self) -> (ready: bool)
        ensures
            ready == (self.spec_name().len() > 0 && self.spec_methods().len() > 0),
    {
        self.name.as_str().unicode_len() > 0 && self.production_methods.len() > 0
    }

    /// The methods chosen, to draw them.
    pub fn methods(&self) -> (methods: &Vec<(u64, M)>)
        ensures
            methods@ == self.spec_methods(),
    {
        &self.production_methods
    }

    /// Adds a method after the others.
    pub fn add_method(&mut self, id: u64, method: M)
        ensures
            final(self).spec_methods() == old(self).spec_methods().push((id, method)),
            final(self).spec_name() == old(self).spec_name(),
            final(self).spec_transports() == old(self).spec_transports(),
    {
        proof {
            use_type_invariant(&*self);
        }
        let mut methods: Vec<(u64, M)> = Vec::new();
        std::mem::swap(&mut methods, &mut self.production_methods);
        methods.push((id, method));
        self.production_methods = methods;
    }

    /// Drops the first method of the id, whose `X` was clicked.
    pub fn remove_method(&mut self, id: u64)
        requires
            exists|i: int|
                0 <= i < old(self).spec_methods().len() && #[trigger] old(self).spec_methods()[i].0
                    == id,
        ensures
            exists|i: int|
                {
                    &&& 0 <= i < old(self).spec_methods().len()
                    &&& old(self).spec_methods()[i].0 == id
                    &&& forall|j: int| 0 <= j < i ==> #[trigger] old(self).spec_methods()[j].0 != id
                    &&& final(self).spec_methods() == old(self).spec_methods().remove(i)
                },
            final(self).spec_name() == old(self).spec_name(),
            final(self).spec_transports() == old(self).spec_transports(),
    {
        proof {
            use_type_invariant(&*self);
        }
        let mut methods: Vec<(u64, M)> = Vec::new();
        std::mem::swap(&mut methods, &mut self.production_methods);
        let mut i: usize = 0;
        while i < methods.len() && methods[i].0 != id
            invariant
                i <= methods@.len(),
                methods@ == old(self).spec_methods(),
                exists|k: int| i <= k < methods@.len() && #[trigger] methods@[k].0 == id,
                forall|j: int| 0 <= j < i ==> #[trigger] methods@[j].0 != id,
            decreases methods@.len() - i,
        {
            i = i + 1;
        }
        let ghost before = methods@;
        methods.remove(i);
        proof {
            assert(before[i as int].0 == id);
            assert(methods@ == before.remove(i as int));
        }
        self.production_methods = methods;
    }

    /// Drops every method.
    pub fn clear_methods(&mut self)
        ensures
            final(self).spec_methods() == Seq::<(u64, M)>::empty(),
            final(self).spec_name() == old(self).spec_name(),
            final(self).spec_transports() == old(self).spec_transports(),
    {
        proof {
            use_type_invariant(&*self);
        }
        self.production_methods = Vec::new();
    }

    /// The start of a frame: no group is known to be used yet.
    pub fn unmark_groups(&mut self)
        ensures
            final(self).spec_transports().dom() == old(self).spec_transports().dom(),
            forall|group: u64| #[trigger]
                final(self).spec_transports().contains_key(group) ==> final(self).spec_transports()[group]
                    == (old(self).spec_transports()[group].0, false),
            final(self).spec_name() == old(self).spec_name(),
            final(self).spec_methods() == old(self).spec_methods(),
    {
        proof {
            use_type_invariant(&*self);
        }
        let mut choices: Vec<(u64, (u64, bool))> = Vec::new();
        std::mem::swap(&mut choices, &mut self.transport_methods);
        let ghost before = choices@;
        let mut i: usize = 0;
        while i < choices.len()
            invariant
                i <= choices@.len(),
                choices@.len() == before.len(),
                forall|j: int|
                    0 <= j < choices@.len() ==> (#[trigger] choices@[j]).0 == before[j].0,
                forall|j: int| 0 <= j < i ==> (#[trigger] choices@[j]).1 == (before[j].1.0, false),
                forall|j: int| i <= j < choices@.len() ==> #[trigger] choices@[j] == before[j],
            decreases choices@.len() - i,
        {
            let (group, (transport, _)) = choices[i];
            choices.set(i, (group, (transport, false)));
            i = i + 1;
        }
        proof {
            assert forall|a: int, b: int|
                0 <= a < choices@.len() && 0 <= b < choices@.len() && a != b implies by_group()(
                choices@[a].0,
            ) != by_group()(choices@[b].0) by {
                assert(by_group()(before[a].0) != by_group()(before[b].0));
            }
            assert forall|group: u64|
                has_key(choices@, by_group(), group) == has_key(before, by_group(), group) by {
                if has_key(choices@, by_group(), group) {
                    let j = crate::assoc::index_of(choices@, by_group(), group);
                    assert(by_group()(before[j].0) == group);
                }
                if has_key(before, by_group(), group) {
                    let j = crate::assoc::index_of(before, by_group(), group);
                    assert(by_group()(choices@[j].0) == group);
                }
            }
            assert(assoc_map(choices@, by_group()).dom() =~= assoc_map(before, by_group()).dom());
            assert forall|group: u64| #[trigger]
                assoc_map(choices@, by_group()).contains_key(group) implies assoc_map(
                choices@,
                by_group(),
            )[group] == (assoc_map(before, by_group())[group].0, false) by {
                let j = crate::assoc::index_of(choices@, by_group(), group);
                lemma_assoc_at(choices@, by_group(), j);
                lemma_assoc_at(before, by_group(), j);
            }
        }
        self.transport_methods = choices;
    }

    /// A resource of a chosen method travels by the group: the group is
    /// marked as used; whether it had a transport chosen already.
    pub fn mark_group(&mut self, group: u64) -> (known: bool)
        ensures
            known == old(self).spec_transports().contains_key(group),
            known ==> final(self).spec_transports() == old(self).spec_transports().insert(
                group,
                (old(self).spec_transports()[group].0, true),
            ),
            !known ==> final(self).spec_transports() == old(self).spec_transports(),
            final(self).spec_name() == old(self).spec_name(),
            final(self).spec_methods() == old(self).spec_methods(),
    {
        proof {
            use_type_invariant(&*self);
        }
        match find_group(&self.transport_methods, group) {
            Some(i) => {
                let mut choices: Vec<(u64, (u64, bool))> = Vec::new();
                std::mem::swap(&mut choices, &mut self.transport_methods);
                let (g, (transport, _)) = choices[i];
                proof {
                    lemma_assoc_at(choices@, by_group(), i as int);
                    lemma_assoc_update(choices@, by_group(), i as int, (transport, true));
                }
                choices.set(i, (g, (transport, true)));
                self.transport_methods = choices;
                true
            },
            None => false,
        }
    }

    /// A group that no choice has yet: its default transport is chosen,
    /// and the group is marked as used.
    pub fn add_group(&mut self, group: u64, transport: u64)
        requires
            !old(self).spec_transports().contains_key(group),
        ensures
            final(self).spec_transports() == old(self).spec_transports().insert(
                group,
                (transport, true),
            ),
            final(self).spec_name() == old(self).spec_name(),
            final(self).spec_methods() == old(self).spec_methods(),
    {
        proof {
            use_type_invariant(&*self);
        }
        let mut choices: Vec<(u64, (u64, bool))> = Vec::new();
        std::mem::swap(&mut choices, &mut self.transport_methods);
        proof {
            lemma_assoc_push(choices@, by_group(), group, (transport, true));
        }
        choices.push((group, (transport, true)));
        self.transport_methods = choices;
    }

    /// The transport picked for a group that has a choice.
    pub fn choose_transport(&mut self, group: u64, transport: u64)
        requires
            old(self).spec_transports().contains_key(group),
        ensures
            final(self).spec_transports() == old(self).spec_transports().insert(
                group,
                (transport, old(self).spec_transports()[group].1),
            ),
            final(self).spec_name() == old(self).spec_name(),
            final(self).spec_methods() == old(self).spec_methods(),
    {
        proof {
            use_type_invariant(&*self);
        }
        let found = find_group(&self.transport_methods, group);
        let i = found.unwrap();
        let mut choices: Vec<(u64, (u64, bool))> = Vec::new();
        std::mem::swap(&mut choices, &mut self.transport_methods);
        let (g, (_, used)) = choices[i];
        proof {
            lemma_assoc_at(choices@, by_group(), i as int);
            lemma_assoc_update(choices@, by_group(), i as int, (transport, used));
        }
        choices.set(i, (g, (transport, used)));
        self.transport_methods = choices;
    }

    /// The transport of each group, as the production is made with.
    pub fn chosen_transports(&self) -> (transports: Vec<(u64, u64)>)
        ensures
            keys_unique(transports@, by_group()),
            assoc_map(transports@, by_group()) == self.spec_transports().map_values(
                |choice: (u64, bool)| choice.0,
            ),
    {
        proof {
            use_type_invariant(self);
        }
        let mut transports: Vec<(u64, u64)> = Vec::new();
        let mut i: usize = 0;
        while i < self.transport_methods.len()
            invariant
                i <= self.transport_methods@.len(),
                keys_unique(self.transport_methods@, by_group()),
                transports@.len() == i,
                forall|j: int|
                    0 <= j < i ==> #[trigger] transports@[j] == (
                        self.transport_methods@[j].0,
                        self.transport_methods@[j].1.0,
                    ),
            decreases self.transport_methods@.len() - i,
        {
            let (group, (transport, _)) = self.transport_methods[i];
            transports.push((group, transport));
            i = i + 1;
        }
        proof {
            let choices = self.transport_methods@;
            assert forall|a: int, b: int|
                0 <= a < transports@.len() && 0 <= b < transports@.len() && a != b implies by_group()(
                transports@[a].0,
            ) != by_group()(transports@[b].0) by {
                assert(by_group()(choices[a].0) != by_group()(choices[b].0));
            }
            let made = assoc_map(transports@, by_group());
            let wanted = self.spec_transports().map_values(|choice: (u64, bool)| choice.0);
            assert forall|group: u64| #[trigger] made.contains_key(group) == wanted.contains_key(
                group,
            ) by {
                if made.contains_key(group) {
                    let j = crate::assoc::index_of(transports@, by_group(), group);
                    assert(by_group()(choices[j].0) == group);
                }
                if wanted.contains_key(group) {
                    let j = crate::assoc::index_of(choices, by_group(), group);
                    assert(by_group()(transports@[j].0) == group);
                }
            }
            assert forall|group: u64| #[trigger] made.contains_key(group) implies made[group]
                == wanted[group] by {
                let j = crate::assoc::index_of(transports@, by_group(), group);
                lemma_assoc_at(transports@, by_group(), j);
                lemma_assoc_at(choices, by_group(), j);
            }
            assert(made =~= wanted);
        }
        transports
    }

    /// The groups of the resources of the chosen methods, each with its
    /// default transport, marked in turn.
    pub fn mark_groups(&mut self, groups: &Vec<(u64, u64)>)
        ensures
            final(self).spec_transports() == marked(old(self).spec_transports(), groups@),
            final(self).spec_name() == old(self).spec_name(),
            final(self).spec_methods() == old(self).spec_methods(),
    {
        let mut i: usize = 0;
        while i < groups.len()
            invariant
                i <= groups@.len(),
                self.spec_transports() == marked(old(self).spec_transports(), groups@.take(i as int)),
                self.spec_name() == old(self).spec_name(),
                self.spec_methods() == old(self).spec_methods(),
            decreases groups@.len() - i,
        {
            let (group, transport) = groups[i];
            proof {
                assert(groups@.take(i as int + 1).drop_last() =~= groups@.take(i as int));
                assert(groups@.take(i as int + 1).last() == (group, transport));
            }
            if !self.mark_group(group) {
                self.add_group(group, transport);
            }
            i = i + 1;
        }
        proof {
            assert(groups@.take(groups@.len() as int) =~= groups@);
        }
    }

    /// The finish button: the depot pays the total cost, the window is asked
    /// to close, and the builder starts over; the name, the methods and the
    /// transport of each group are given back to make the production with.
    pub fn finish_production<Id>(
        &mut self,
        depot: &mut ResourceMap,
        total_cost: &ResourceMap,
        close: &mut WindowCloseEvent<Id>,
    ) -> (made: (String, Vec<(u64, M)>, Vec<(u64, u64)>))
        requires
            charge_fits(old(depot)@, total_cost@, 1),
            !old(close)@,
        ensures
            made.0@ == old(self).spec_name(),
            made.1@ == old(self).spec_methods(),
            keys_unique(made.2@, by_group()),
            assoc_map(made.2@, by_group()) == old(self).spec_transports().map_values(
                |choice: (u64, bool)| choice.0,
            ),
            final(depot)@ == charged(old(depot)@, total_cost@, 1),
            final(close)@,
            final(self).spec_name() == Seq::<char>::empty(),
            final(self).spec_transports() == Map::<u64, (u64, bool)>::empty(),
            final(self).spec_methods() == Seq::<(u64, M)>::empty(),
    {
        depot.charge(total_cost, 1);
        let mut taken = Self::new();
        std::mem::swap(self, &mut taken);
        let transports = taken.chosen_transports();
        close.emit();
        let ProductionBuilder { name, transport_methods, production_methods } = taken;
        (name, production_methods, transports)
    }

    /// Starts over: no name, method or transport.
    pub fn reset(&mut self)
        ensures
            final(self).spec_name() == Seq::<char>::empty(),
            final(self).spec_transports() == Map::<u64, (u64, bool)>::empty(),
            final(self).spec_methods() == Seq::<(u64, M)>::empty(),
    {
        *self = Self::new();
    }
}

/// Whether the depot holds at least the cost of each resource.
pub fn enough_resources(depot: &ResourceMap, cost: &ResourceMap) -> (enough: bool)
    ensures
        enough == covers(depot@, cost@),
        enough ==> forall|id: u64| #[trigger]
            cost@.contains_key(id) ==> cost@[id] <= amount_of(depot@, id),
        forall|id: u64| #[trigger]
            cost@.contains_key(id) && cost@[id] > amount_of(depot@, id) ==> !enough,
{
    let entries = cost.entries();
    let mut i: usize = 0;
    while i < entries.len()
        invariant
            i <= entries@.len(),
            keys_unique(entries@, by_resource()),
            assoc_map(entries@, by_resource()) == cost@,
            forall|j: int|
                0 <= j < i ==> (#[trigger] entries@[j]).1 <= amount_of(depot@, entries@[j].0),
        decreases entries@.len() - i,
    {
        let (id, amount) = entries[i];
        if amount > depot.amount(id) {
            proof {
                lemma_assoc_at(entries@, by_resource(), i as int);
            }
            return false;
        }
        i = i + 1;
    }
    proof {
        assert forall|id: u64| #[trigger] cost@.contains_key(id) implies cost@[id] <= amount_of(
            depot@,
            id,
        ) by {
            let j = crate::assoc::index_of(entries@, by_resource(), id);
            lemma_assoc_at(entries@, by_resource(), j);
        }
    }
    true
}

/// The depot holds enough for a cost exactly when, for every resource of
/// the cost, its stock (none where the depot lacks it) is at least the
/// cost; one resource whose cost exceeds its stock makes it not enough,
/// and an empty cost is always enough.
pub proof fn law_enough_exactly_when_each_cost_fits(
    depot: Map<u64, i64>,
    cost: Map<u64, i64>,
    short: u64,
)
    ensures
        covers(depot, cost) <==> forall|id: u64|
            cost.contains_key(id) ==> #[trigger] cost[id] <= if depot.contains_key(id) {
                depot[id] as int
            } else {
                0
            },
        cost.contains_key(short) && cost[short] > (if depot.contains_key(short) {
            depot[short] as int
        } else {
            0
        }) ==> !covers(depot, cost),
        cost == Map::<u64, i64>::empty() ==> covers(depot, cost),
{
    if cost.contains_key(short) {
        assert(amount_of(depot, short) == (if depot.contains_key(short) {
            depot[short] as int
        } else {
            0
        }));
    }
    assert forall|id: u64| #[trigger] cost.contains_key(id) implies amount_of(depot, id) == (
    if depot.contains_key(id) {
        depot[id] as int
    } else {
        0
    }) by {}
}

/// Marking groups, each given with its default transport: every group
/// marked is then chosen and marked as used; a group chosen before keeps
/// its transport; a group chosen only by the marking gets the default
/// given with its first mention; every other group stays as it was.
pub proof fn law_marking_uses_each_group(
    transports: Map<u64, (u64, bool)>,
    groups: Seq<(u64, u64)>,
    group: u64,
)
    ensures
        (exists|i: int| 0 <= i < groups.len() && #[trigger] groups[i].0 == group) ==> {
            &&& marked(transports, groups).contains_key(group)
            &&& marked(transports, groups)[group].1
        },
        (exists|i: int| 0 <= i < groups.len() && #[trigger] groups[i].0 == group)
            && transports.contains_key(group) ==> marked(transports, groups)[group].0
            == transports[group].0,
        forall|i: int|
            0 <= i < groups.len() && #[trigger] groups[i].0 == group && !transports.contains_key(
                group,
            ) && (forall|j: int| 0 <= j < i ==> groups[j].0 != group) ==> marked(
                transports,
                groups,
            )[group].0 == groups[i].1,
        !(exists|i: int| 0 <= i < groups.len() && #[trigger] groups[i].0 == group) ==> (marked(
            transports,
            groups,
        ).contains_key(group) == transports.contains_key(group) && (transports.contains_key(group)
            ==> marked(transports, groups)[group] == transports[group])),
    decreases groups.len(),
{
    if groups.len() > 0 {
        let front = groups.drop_last();
        law_marking_uses_each_group(transports, front, group);
        let last = groups.last();
        if last.0 != group && exists|i: int| 0 <= i < groups.len() && #[trigger] groups[i].0 == group {
            let i = choose|i: int| 0 <= i < groups.len() && #[trigger] groups[i].0 == group;
            assert(i != groups.len() - 1);
            assert(front[i] == groups[i]);
        }
        if exists|i: int| 0 <= i < front.len() && #[trigger] front[i].0 == group {
            let i = choose|i: int| 0 <= i < front.len() && #[trigger] front[i].0 == group;
            assert(groups[i].0 == group);
        }
        assert forall|i: int|
            0 <= i < groups.len() && #[trigger] groups[i].0 == group && !transports.contains_key(
                group,
            ) && (forall|j: int| 0 <= j < i ==> groups[j].0 != group) implies marked(
            transports,
            groups,
        )[group].0 == groups[i].1 by {
            if i < groups.len() - 1 {
                assert(front[i].0 == group);
                assert forall|j: int| 0 <= j < i implies front[j].0 != group by {
                    assert(front[j] == groups[j]);
                }
            } else {
                assert forall|j: int| 0 <= j < front.len() implies front[j].0 != group by {
                    assert(front[j] == groups[j]);
                }
            }
        }
        if !(exists|i: int| 0 <= i < groups.len() && #[trigger] groups[i].0 == group) {
            assert(last.0 != group) by {
                assert(groups[groups.len() - 1] == last);
            }
            assert forall|i: int| 0 <= i < front.len() implies #[trigger] front[i].0 != group by {
                assert(front[i] == groups[i]);
            }
        }
    }
}

} // verus!
