//! The research tab: how each technology is shown, and when a click starts
//! researching it.

use vstd::prelude::*;

verus! {

/// How a technology's icon is tinted.
#[derive(Clone, Copy, Debug, PartialEq, Eq, Structural)]
pub enum TechnologyTint {
    /// Researched already.
    Researched,
    /// Being researched now.
    Researching,
    /// Open to research: its prerequisites are met.
    Available,
    /// Its prerequisites are not met.
    Locked,
}

/// The tint of a technology from whether it is researched, whether its
/// prerequisites are met, and whether it is the one being researched.
pub fn technology_tint(is_researched: bool, prerequisites_satisfied: bool, is_current: bool) -> (
    tint: TechnologyTint)
    ensures
        tint == (if is_researched {
            TechnologyTint::Researched
        } else if !prerequisites_satisfied {
            TechnologyTint::Locked
        } else if is_current {
            TechnologyTint::Researching
        } else {
            TechnologyTint::Available
        }),
{
    match (is_researched, prerequisites_satisfied) {
        (false, false) => TechnologyTint::Locked,
        (false, true) => if is_current {
            TechnologyTint::Researching
        } else {
            TechnologyTint::Available
        },
        (true, _) => TechnologyTint::Researched,
    }
}

/// Whether a click on a technology starts researching it: it must not be
/// researched, and its prerequisites must be met.
pub fn starts_research(clicked: bool, is_researched: bool, prerequisites_satisfied: bool) -> (
    starts: bool)
    ensures
        starts == (clicked && !is_researched && prerequisites_satisfied),
{
    clicked && !is_researched && prerequisites_satisfied
}

/// How long a technology's tooltip stays after the pointer left it, in
/// milliseconds.
pub const TOOLTIP_LINGER_MS: u64 = 200;

/// The research tab: the technology whose tooltip shows, with where it
/// shows (`P`), and since when (in milliseconds) the pointer has been away
/// from both the technology and its tooltip.
pub struct MainScreenResearchTab<P> {
    tooltip_closed: Option<u64>,
    technology_tooltip: Option<(u64, P)>,
}

impl<P> MainScreenResearchTab<P> {
    /// Since when the pointer has been away from the tooltip, if it is.
    pub closed spec fn spec_closed(&self) -> Option<u64> {
        self.tooltip_closed
    }

    /// The technology whose tooltip shows, and where.
    pub closed spec fn spec_tooltip(&self) -> Option<(u64, P)> {
        self.technology_tooltip
    }

    /// The tab, with no tooltip.
    pub fn new() -> (tab: Self)
        ensures
            tab.spec_closed() is None,
            tab.spec_tooltip() is None,
    {
        MainScreenResearchTab { tooltip_closed: None, technology_tooltip: None }
    }

    /// The technology whose tooltip shows, and where.
    pub fn tooltip(&self) -> (tooltip: Option<&(u64, P)>)
        ensures
            match tooltip {
                Some(shown) => self.spec_tooltip() == Some(*shown),
                None => self.spec_tooltip() is None,
            },
    {
        match &self.technology_tooltip {
            Some(shown) => Some(shown),
            None => None,
        }
    }

    /// The start of a frame at `now`: a tooltip the pointer left more than
    /// the lingering time ago goes.
    pub fn begin_frame(&mut self, now: u64)
        requires
            old(self).spec_closed() matches Some(left) ==> left <= now,
        ensures
            final(self).spec_closed() == old(self).spec_closed(),
            final(self).spec_tooltip() == (if old(self).spec_closed() matches Some(left) && now
                - left > TOOLTIP_LINGER_MS {
                None
            } else {
                old(self).spec_tooltip()
            }),
    {
        if let Some(left) = self.tooltip_closed {
            if now - left > TOOLTIP_LINGER_MS {
                self.technology_tooltip = None;
            }
        }
    }

    /// The pointer is on the technology's icon: its tooltip shows there.
    pub fn hover(&mut self, technology: u64, position: P)
        ensures
            final(self).spec_tooltip() == Some((technology, position)),
            final(self).spec_closed() == old(self).spec_closed(),
    {
        self.technology_tooltip = Some((technology, position));
    }

    /// The end of a frame at `now` in which the tooltip showed: the pointer
    /// leaving both the icons and the tooltip (with nothing dragged) starts
    /// the lingering time, once; the pointer on either stops it.
    pub fn end_frame(&mut self, technology_hovered: bool, tooltip_hovered: bool, dragging: bool, now: u64)
        ensures
            final(self).spec_tooltip() == old(self).spec_tooltip(),
            final(self).spec_closed() == (if !technology_hovered && !tooltip_hovered && !dragging {
                if old(self).spec_closed() is None {
                    Some(now)
                } else {
                    old(self).spec_closed()
                }
            } else {
                None
            }),
    {
        if !technology_hovered && !tooltip_hovered && !dragging {
            if self.tooltip_closed.is_none() {
                self.tooltip_closed = Some(now);
            }
        } else {
            self.tooltip_closed = None;
        }
    }
}

} // verus!
