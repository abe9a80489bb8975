//! The productions tab: growing and shrinking a production by the number of
//! units a click asks for, buying the units it lacks.

use vstd::prelude::*;

use super::production_menu::ProductionBuilder;
use crate::app::resources::{charge_fits, charged, ResourceMap};
use crate::app::util::Modifier;
use crate::app::widgets::PersistentWindow;

verus! {

/// At most this many units are bought for one production in one go.
pub const PURCHASE_CAP: u32 = 100;

/// A production's units: how many it has, and how many of them work.
#[derive(Clone, Copy, Debug, PartialEq, Eq, Structural)]
pub struct ProductionUnits {
    pub count: u32,
    pub active: u32,
}

/// A grow click: the production's units afterwards, and how many new units
/// are bought with the production's cost.
#[derive(Clone, Copy, Debug, PartialEq, Eq, Structural)]
pub struct Growth {
    pub units: ProductionUnits,
    pub purchases: u32,
}

/// How many units a click grows or shrinks by: a hundred with the command
/// key, ten with shift, one otherwise.
pub fn step(modifier: Modifier) -> (amount: u32)
    ensures
        amount == match modifier {
            Modifier::Plain => 1u32,
            Modifier::Shift => 10u32,
            Modifier::Command => 100u32,
        },
{
    modifier.elim(1, 10, 100)
}

/// How many times the depot is asked to pay the cost at most, so that no
/// more than a hundred units are inactive or bought.
pub fn purchase_limit(inactive: u32) -> (limit: i64)
    ensures
        limit == (if inactive < PURCHASE_CAP {
            PURCHASE_CAP - inactive
        } else {
            0
        }),
{
    if inactive < PURCHASE_CAP {
        (PURCHASE_CAP - inactive) as i64
    } else {
        0
    }
}

/// Whether a grow click may go ahead: the inactive units plus the units the
/// depot can pay for (`affordable`, at most `purchase_limit` of them) make
/// up the step.
pub fn can_grow(units: ProductionUnits, affordable: i64, amount: u32) -> (enabled: bool)
    requires
        units.active <= units.count,
        affordable <= i64::MAX - u32::MAX,
    ensures
        enabled == (affordable + (units.count - units.active) >= amount),
{
    let inactive = units.count - units.active;
    affordable + inactive as i64 >= amount as i64
}

/// A grow click: the active units go up by the step, the count follows
/// where it falls short, and the units lacking are bought.
pub fn grow(units: ProductionUnits, amount: u32) -> (growth: Growth)
    requires
        units.active <= units.count,
        units.active + amount <= u32::MAX,
    ensures
        growth.units.active == units.active + amount,
        growth.units.count == (if units.active + amount > units.count {
            units.active + amount
        } else {
            units.count as int
        }),
        growth.purchases == (if units.count - units.active < amount {
            amount - (units.count - units.active)
        } else {
            0
        }),
{
    let inactive = units.count - units.active;
    let new_active = units.active + amount;
    let count = if new_active > units.count {
        new_active
    } else {
        units.count
    };
    let purchases = if inactive < amount {
        amount - inactive
    } else {
        0
    };
    Growth { units: ProductionUnits { count, active: new_active }, purchases }
}

/// A shrink click: the active units go down by the step, to none at least.
pub fn shrink(units: ProductionUnits, amount: u32) -> (shrunk: ProductionUnits)
    ensures
        shrunk.count == units.count,
        shrunk.active == (if units.active > amount {
            units.active - amount
        } else {
            0
        }),
{
    let active = if units.active > amount {
        units.active - amount
    } else {
        0
    };
    ProductionUnits { count: units.count, active }
}

/// How many units a grow click buys: those of the step that no inactive
/// unit covers.
pub open spec fn purchases_of(units: ProductionUnits, amount: u32) -> int {
    if units.count - units.active < amount {
        amount - (units.count - units.active)
    } else {
        0
    }
}

/// A grow click on a production whose unit costs `cost`: the units grow as
/// `grow` says, and the depot pays the cost once for each unit bought
/// (nothing when none is).
pub fn grow_and_pay(
    units: ProductionUnits,
    amount: u32,
    depot: &mut ResourceMap,
    cost: &ResourceMap,
) -> (grown: ProductionUnits)
    requires
        units.active <= units.count,
        units.active + amount <= u32::MAX,
        purchases_of(units, amount) > 0 ==> charge_fits(
            old(depot)@,
            cost@,
            purchases_of(units, amount),
        ),
    ensures
        grown.active == units.active + amount,
        grown.count == (if units.active + amount > units.count {
            units.active + amount
        } else {
            units.count as int
        }),
        final(depot)@ == (if purchases_of(units, amount) > 0 {
            charged(old(depot)@, cost@, purchases_of(units, amount))
        } else {
            old(depot)@
        }),
{
    let growth = grow(units, amount);
    if growth.purchases > 0 {
        depot.charge(cost, growth.purchases as i64);
    }
    growth.units
}

/// The productions tab: the production builder's window, and the list of
/// productions with their grow and shrink buttons.
pub struct MainScreenProductionsTab<M> {
    pub production_menu: PersistentWindow<ProductionBuilder<M>, ProductionBuilder<M>>,
}

impl<M> MainScreenProductionsTab<M> {
    /// The tab, with the builder's window closed and empty.
    pub fn new() -> (tab: Self)
        ensures
            !tab.production_menu.is_open,
            tab.production_menu.content.spec_name() == Seq::<char>::empty(),
            tab.production_menu.content.spec_methods() == Seq::<(u64, M)>::empty(),
            tab.production_menu.content.spec_transports() == Map::<u64, (u64, bool)>::empty(),
    {
        MainScreenProductionsTab { production_menu: PersistentWindow::new(ProductionBuilder::new()) }
    }

    /// The button that opens the builder's window.
    pub fn open_builder(&mut self)
        ensures
            final(self).production_menu.is_open,
            final(self).production_menu.content == old(self).production_menu.content,
    {
        self.production_menu.is_open = true;
    }
}

/// Growing keeps the active units within the count, and the units bought
/// (those a grow click pays for) are exactly those the count went up by, at
/// most the step.
pub proof fn law_grow_buys_what_it_adds(units: ProductionUnits, amount: u32)
    requires
        units.active <= units.count,
        units.active + amount <= u32::MAX,
    ensures
        ({
            let after_active = units.active + amount;
            let after_count = if after_active > units.count {
                after_active
            } else {
                units.count as int
            };
            let purchases = if units.count - units.active < amount {
                amount - (units.count - units.active)
            } else {
                0
            };
            &&& after_active <= after_count
            &&& after_count - units.count == purchases
            &&& purchases_of(units, amount) == after_count - units.count
            &&& purchases_of(units, amount) <= amount
        }),
{
}

/// Shrinking keeps the active units within the count, and never raises
/// them.
pub proof fn law_shrink_stays_within(units: ProductionUnits, amount: u32)
    requires
        units.active <= units.count,
    ensures
        ({
            let active = if units.active > amount {
                units.active - amount
            } else {
                0
            };
            &&& active <= units.active
            &&& active <= units.count
        }),
{
}

} // verus!
