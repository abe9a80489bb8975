//! The info tab: the population, nutrition and resources of the depot, each
//! with how much it changed since the previous state of the game.

use vstd::prelude::*;

use crate::app::resources::{amount_of, by_resource, ResourceMap};
use crate::assoc::{assoc_map, keys_unique, lemma_assoc_at};
use super::debug_tab::{law_parse_amount_reads_decimals, spec_amount};
use crate::strings::{decimal, push_char, signed_decimal, signed_decimal_string};

verus! {

/// The change of each resource from one state of the depot to the next:
/// the resources of either state whose amount differs, with the difference
/// (a missing resource counting as none).
pub open spec fn depot_changes(previous: Map<u64, i64>, current: Map<u64, i64>) -> Map<u64, i64> {
    Map::new(
        |id: u64|
            (current.contains_key(id) || previous.contains_key(id)) && amount_of(current, id)
                != amount_of(previous, id),
        |id: u64| (amount_of(current, id) - amount_of(previous, id)) as i64,
    )
}

/// Every change of a resource between the two states fits in an `i64`.
pub open spec fn changes_fit(previous: Map<u64, i64>, current: Map<u64, i64>) -> bool {
    forall|id: u64|
        #![trigger current.contains_key(id)]
        #![trigger previous.contains_key(id)]
        (current.contains_key(id) || previous.contains_key(id)) ==> i64::MIN <= amount_of(current, id)
            - amount_of(previous, id) <= i64::MAX
}

/// How a resource is tinted: gained, lost, or unchanged since the previous
/// state.
#[derive(Clone, Copy, Debug, PartialEq, Eq, Structural)]
pub enum ChangeTint {
    Gained,
    Lost,
    Unchanged,
}

/// The info tab: remembers the previous state of the depot and of the
/// nutrition, and how each changed.
pub struct MainScreenInfoTab {
    previous_depot: ResourceMap,
    depot_change: ResourceMap,
    previous_nutrition: Option<i64>,
    nutrition_change: i64,
}

impl MainScreenInfoTab {
    /// The state before the first state of the game.
    pub closed spec fn previous_depot(&self) -> Map<u64, i64> {
        self.previous_depot@
    }

    /// The change of each resource at the last state.
    pub closed spec fn depot_change(&self) -> Map<u64, i64> {
        self.depot_change@
    }

    /// The nutrition at the last state, if there was one.
    pub closed spec fn previous_nutrition(&self) -> Option<i64> {
        self.previous_nutrition
    }

    /// The change of the nutrition at the last state.
    pub closed spec fn nutrition_change(&self) -> i64 {
        self.nutrition_change
    }

    /// A tab that has seen no state of the game.
    pub fn new() -> (tab: Self)
        ensures
            tab.previous_depot() == Map::<u64, i64>::empty(),
            tab.depot_change() == Map::<u64, i64>::empty(),
            tab.previous_nutrition() == None::<i64>,
            tab.nutrition_change() == 0,
    {
        MainScreenInfoTab {
            previous_depot: ResourceMap::new(),
            depot_change: ResourceMap::new(),
            previous_nutrition: None,
            nutrition_change: 0,
        }
    }

    /// The change of each resource at the last state.
    pub fn changes(&self) -> (changes: &ResourceMap)
        ensures
            changes@ == self.depot_change(),
    {
        &self.depot_change
    }

    /// The change of the nutrition at the last state.
    pub fn nutrition_delta(&self) -> (change: i64)
        ensures
            change == self.nutrition_change(),
    {
        self.nutrition_change
    }

    /// Takes in a new state of the game: the change of each resource since
    /// the previous state, and of the nutrition where there was one.
    pub fn record_state(&mut self, depot: &ResourceMap, nutrition: i64)
        requires
            changes_fit(old(self).previous_depot(), depot@),
            old(self).previous_nutrition() matches Some(previous) ==> i64::MIN <= nutrition
                - previous <= i64::MAX,
        ensures
            final(self).depot_change() == depot_changes(old(self).previous_depot(), depot@),
            final(self).previous_depot() == depot@,
            final(self).previous_nutrition() == Some(nutrition),
            final(self).nutrition_change() == match old(self).previous_nutrition() {
                Some(previous) => (nutrition - previous) as i64,
                None => old(self).nutrition_change(),
            },
    {
        let ghost previous = self.previous_depot@;
        let ghost current = depot@;
        let mut change = ResourceMap::new();
        let entries = depot.entries();
        let mut i: usize = 0;
        while i < entries.len()
            invariant
                i <= entries@.len(),
                keys_unique(entries@, by_resource()),
                assoc_map(entries@, by_resource()) == current,
                previous == self.previous_depot@,
                changes_fit(previous, current),
                forall|id: u64| #[trigger]
                    change@.contains_key(id) ==> exists|j: int|
                        0 <= j < i && #[trigger] entries@[j].0 == id,
                forall|j: int|
                    0 <= j < i ==> {
                        let id = (#[trigger] entries@[j]).0;
                        &&& depot_changes(previous, current).contains_key(id)
                            == change@.contains_key(id)
                        &&& change@.contains_key(id) ==> change@[id] == depot_changes(
                            previous,
                            current,
                        )[id]
                    },
            decreases entries@.len() - i,
        {
            let (id, amount) = entries[i];
            proof {
                lemma_assoc_at(entries@, by_resource(), i as int);
                assert(current.contains_key(id));
            }
            let difference = amount - self.previous_depot.amount(id);
            let ghost before = change@;
            if difference != 0 {
                proof {
                    assert(!before.contains_key(id)) by {
                        if before.contains_key(id) {
                            let j = choose|j: int| 0 <= j < i && #[trigger] entries@[j].0 == id;
                            assert(by_resource()(entries@[j].0) == by_resource()(
                                entries@[i as int].0,
                            ));
                        }
                    }
                }
                change.insert(id, difference);
            }
            proof {
                assert forall|k: u64| #[trigger] change@.contains_key(k) implies exists|j: int|
                    0 <= j < i + 1 && #[trigger] entries@[j].0 == k by {
                    if k != id {
                        assert(before.contains_key(k));
                        let j = choose|j: int| 0 <= j < i && #[trigger] entries@[j].0 == k;
                        assert(entries@[j].0 == k);
                    } else {
                        assert(entries@[i as int].0 == k);
                    }
                }
                assert forall|j: int| 0 <= j < i + 1 implies {
                    let k = (#[trigger] entries@[j]).0;
                    &&& depot_changes(previous, current).contains_key(k) == change@.contains_key(k)
                    &&& change@.contains_key(k) ==> change@[k] == depot_changes(
                        previous,
                        current,
                    )[k]
                } by {
                    if j < i {
                        let k = entries@[j].0;
                        if k == id {
                            assert(by_resource()(entries@[j].0) == by_resource()(
                                entries@[i as int].0,
                            ));
                        }
                    }
                }
            }
            i = i + 1;
        }
        let old_entries = self.previous_depot.entries();
        let mut j: usize = 0;
        while j < old_entries.len()
            invariant
                j <= old_entries@.len(),
                keys_unique(old_entries@, by_resource()),
                assoc_map(old_entries@, by_resource()) == previous,
                depot@ == current,
                keys_unique(entries@, by_resource()),
                assoc_map(entries@, by_resource()) == current,
                changes_fit(previous, current),
                forall|id: u64| #[trigger]
                    change@.contains_key(id) ==> depot_changes(previous, current).contains_key(id)
                        && change@[id] == depot_changes(previous, current)[id],
                forall|id: u64| #[trigger]
                    current.contains_key(id) ==> (depot_changes(previous, current).contains_key(id)
                        == change@.contains_key(id)),
                forall|k: int|
                    0 <= k < j ==> {
                        let id = (#[trigger] old_entries@[k]).0;
                        depot_changes(previous, current).contains_key(id) == change@.contains_key(
                            id,
                        )
                    },
            decreases old_entries@.len() - j,
        {
            let (id, amount) = old_entries[j];
            proof {
                lemma_assoc_at(old_entries@, by_resource(), j as int);
                assert(previous.contains_key(id));
            }
            if change.get(id).is_none() {
                let difference = depot.amount(id) - amount;
                if difference != 0 {
                    change.insert(id, difference);
                }
            }
            j = j + 1;
        }
        proof {
            assert forall|id: u64| #[trigger]
                depot_changes(previous, current).contains_key(id) implies change@.contains_key(id) by {
                if !current.contains_key(id) {
                    assert(previous.contains_key(id));
                    let k = crate::assoc::index_of(old_entries@, by_resource(), id);
                    assert(by_resource()(old_entries@[k].0) == id);
                }
            }
            assert(change@ =~= depot_changes(previous, current));
        }
        self.depot_change = change;
        self.previous_depot = depot.clone();
        if let Some(previous_nutrition) = self.previous_nutrition {
            self.nutrition_change = nutrition - previous_nutrition;
        }
        self.previous_nutrition = Some(nutrition);
    }
}

/// The tint of a resource whose change, if any, is given.
pub fn change_tint(change: Option<i64>) -> (tint: ChangeTint)
    ensures
        tint == match change {
            Some(c) if c > 0 => ChangeTint::Gained,
            Some(c) if c < 0 => ChangeTint::Lost,
            _ => ChangeTint::Unchanged,
        },
{
    match change {
        Some(c) if c > 0 => ChangeTint::Gained,
        Some(c) if c < 0 => ChangeTint::Lost,
        _ => ChangeTint::Unchanged,
    }
}

/// The text after an amount that shows its change: ` (+N)` for a gain,
/// ` (-N)` for a loss.
pub open spec fn change_suffix_text(change: i64) -> Seq<char> {
    seq![' ', '(']
        + (if change > 0 {
        seq!['+']
    } else {
        Seq::<char>::empty()
    }) + signed_decimal(change as int) + seq![')']
}

/// The text that shows the change after an amount.
pub fn change_suffix(change: i64) -> (text: String)
    ensures
        text@ == change_suffix_text(change),
{
    let mut text = String::new();
    push_char(&mut text, ' ');
    push_char(&mut text, '(');
    if change > 0 {
        push_char(&mut text, '+');
    }
    let number = signed_decimal_string(change);
    text.append(number.as_str());
    push_char(&mut text, ')');
    proof {
        assert(text@ =~= change_suffix_text(change));
    }
    text
}

/// Recording a state: the amount before plus the change gives the amount
/// after, for every resource.
pub proof fn law_change_adds_up(previous: Map<u64, i64>, current: Map<u64, i64>, id: u64)
    requires
        changes_fit(previous, current),
    ensures
        amount_of(previous, id) + amount_of(depot_changes(previous, current), id) == amount_of(
            current,
            id,
        ),
{
    if current.contains_key(id) || previous.contains_key(id) {
        assert(i64::MIN <= amount_of(current, id) - amount_of(previous, id) <= i64::MAX);
    }
}

/// Recording the same state of the depot twice shows no change the second
/// time.
pub proof fn law_same_state_no_change(depot: Map<u64, i64>)
    ensures
        changes_fit(depot, depot),
        depot_changes(depot, depot) == Map::<u64, i64>::empty(),
{
    assert(depot_changes(depot, depot) =~= Map::<u64, i64>::empty());
}

/// The text showing a change is ` (`, the change written in decimal, and
/// `)`: what stands between the brackets reads back as the change, and
/// starts with `+` for a gain and `-` for a loss.
pub proof fn law_change_suffix_reads_back(change: i64)
    ensures
        ({
            let text = change_suffix_text(change);
            let inner = text.subrange(2, text.len() - 1);
            &&& text.len() >= 4
            &&& text[0] == ' '
            &&& text[1] == '('
            &&& text.last() == ')'
            &&& spec_amount(inner) == Some(change)
            &&& change > 0 ==> inner[0] == '+'
            &&& change < 0 ==> inner[0] == '-'
        }),
{
    law_parse_amount_reads_decimals(change, Seq::<char>::empty());
    let text = change_suffix_text(change);
    let number = signed_decimal(change as int);
    let inner = text.subrange(2, text.len() - 1);
    if change > 0 {
        assert(inner =~= seq!['+'] + number);
    } else {
        assert(inner =~= number);
    }
    if change < 0 {
        assert(number[0] == '-');
    }
    assert(number.len() >= 1) by {
        if change >= 0 {
            assert(decimal(change as nat).len() >= 1);
        } else {
            assert(decimal((-change) as nat).len() >= 1);
        }
    }
}

} // verus!
