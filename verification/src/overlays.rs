use vstd::prelude::*;

use crate::model::MenuAnimationState;

verus! {

/// Which open menu takes the menu keys.
#[derive(Clone, Copy, Debug, PartialEq, Eq, Structural)]
pub enum MenuTarget {
    EmptySpace,
    Action,
    Neither,
}

/// Whether a menu is open and not closing.
pub open spec fn live(menu: Option<MenuAnimationState>) -> bool {
    menu matches Some(a) && a != MenuAnimationState::Closing
}

/// Which menu takes the menu keys (next, previous, first, last, activate):
/// the empty-space menu when it is open and not closing, else the action menu
/// on the same terms, else neither. Each is given by its animation state when
/// it is open.
pub fn menu_key_target(empty_space: Option<MenuAnimationState>, action: Option<MenuAnimationState>) -> (target: MenuTarget)
    ensures
        target == if live(empty_space) {
            MenuTarget::EmptySpace
        } else if live(action) {
            MenuTarget::Action
        } else {
            MenuTarget::Neither
        },
{
    let empty_live = match empty_space {
        Some(a) => a != MenuAnimationState::Closing,
        None => false,
    };
    if empty_live {
        return MenuTarget::EmptySpace;
    }
    let action_live = match action {
        Some(a) => a != MenuAnimationState::Closing,
        None => false,
    };
    if action_live {
        MenuTarget::Action
    } else {
        MenuTarget::Neither
    }
}

/// What the dismiss key closes.
#[derive(Clone, Copy, Debug, PartialEq, Eq, Structural)]
pub enum MenuDismissal {
    /// The appearance menu.
    Appearance,
    /// The open submenu of the empty-space menu, which stays open.
    EmptySpaceSubmenu,
    /// The empty-space menu.
    EmptySpace,
    /// The action menu, if one is open.
    Action,
}

/// What the dismiss key closes: the appearance menu first, then an open
/// empty-space submenu, then the empty-space menu, then the action menu.
pub fn menu_dismissal(appearance_open: bool, empty_space_submenu_open: bool, empty_space_open: bool) -> (d: MenuDismissal)
    ensures
        d == if appearance_open {
            MenuDismissal::Appearance
        } else if empty_space_submenu_open {
            MenuDismissal::EmptySpaceSubmenu
        } else if empty_space_open {
            MenuDismissal::EmptySpace
        } else {
            MenuDismissal::Action
        },
{
    if appearance_open {
        MenuDismissal::Appearance
    } else if empty_space_submenu_open {
        MenuDismissal::EmptySpaceSubmenu
    } else if empty_space_open {
        MenuDismissal::EmptySpace
    } else {
        MenuDismissal::Action
    }
}

/// Whether the close timer started for the menu with `timer_serial` closes
/// the menu shown: only when it is that menu and it is still closing.
pub fn menu_close_due(animation: MenuAnimationState, serial: u64, timer_serial: u64) -> (due: bool)
    ensures
        due == (serial == timer_serial && animation == MenuAnimationState::Closing),
{
    serial == timer_serial && animation == MenuAnimationState::Closing
}

/// A panel or popover that opens at once and closes after a short animation.
#[derive(Clone, Copy, Debug, PartialEq, Eq, Structural)]
pub struct OverlayState {
    pub open: bool,
    pub closing: bool,
}

impl OverlayState {
    /// The overlay after a dismiss: nothing changes when it is closed or
    /// closing; with reduced motion, when `instant_when_reduced`, it closes at
    /// once; otherwise it starts closing.
    pub open spec fn dismissed(self, reduced_motion: bool, instant_when_reduced: bool) -> OverlayState {
        if !self.open || self.closing {
            self
        } else if reduced_motion && instant_when_reduced {
            OverlayState { open: false, closing: false }
        } else {
            OverlayState { open: true, closing: true }
        }
    }

    /// The overlay after its close timer fired: a closing one closes.
    pub open spec fn timed_out(self) -> OverlayState {
        if self.closing {
            OverlayState { open: false, closing: false }
        } else {
            self
        }
    }

    /// Closed.
    pub fn new() -> (overlay: Self)
        ensures
            overlay == (OverlayState { open: false, closing: false }),
    {
        OverlayState { open: false, closing: false }
    }

    /// Opens it, stopping a close in progress.
    pub fn open(&mut self)
        ensures
            *final(self) == (OverlayState { open: true, closing: false }),
    {
        self.open = true;
        self.closing = false;
    }

    /// Dismisses it. Says whether anything changed.
    pub fn dismiss(&mut self, reduced_motion: bool, instant_when_reduced: bool) -> (changed: bool)
        ensures
            changed == (old(self).open && !old(self).closing),
            *final(self) == old(self).dismissed(reduced_motion, instant_when_reduced),
    {
        if !self.open || self.closing {
            return false;
        }
        if reduced_motion && instant_when_reduced {
            self.open = false;
            return true;
        }
        self.closing = true;
        true
    }

    /// The close timer fired. Says whether the overlay closed.
    pub fn close_timer_elapsed(&mut self) -> (closed: bool)
        ensures
            closed == old(self).closing,
            *final(self) == old(self).timed_out(),
    {
        if !self.closing {
            return false;
        }
        self.open = false;
        self.closing = false;
        true
    }

    /// Flips the overlay: an open one that is not closing is dismissed,
    /// anything else opens. Says whether it opened.
    pub fn toggle(&mut self, reduced_motion: bool, instant_when_reduced: bool) -> (opened: bool)
        ensures
            opened == !(old(self).open && !old(self).closing),
            *final(self) == if opened {
                OverlayState { open: true, closing: false }
            } else {
                old(self).dismissed(reduced_motion, instant_when_reduced)
            },
    {
        if self.open && !self.closing {
            self.dismiss(reduced_motion, instant_when_reduced);
            false
        } else {
            self.open();
            true
        }
    }
}

/// An open overlay that is dismissed is closed once its timer has fired,
/// whatever the motion setting.
pub proof fn lemma_dismiss_then_timer_closes(s: OverlayState, reduced_motion: bool, instant_when_reduced: bool)
    requires
        s.open,
        !s.closing,
    ensures
        s.dismissed(reduced_motion, instant_when_reduced).timed_out() == (OverlayState { open: false, closing: false }),
{
}

} // verus!
