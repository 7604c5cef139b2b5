//! Capability bits and the lifecycle state machine.
//!
//! A right is a bit in a `u8` mask. The runtime starts with the full
//! main-menu mask and sheds or regains rights as the lifecycle advances.

use vstd::prelude::*;
use crate::ApicaMode;

verus! {

/// Right held by the main menu alone.
pub const MAIN_MENU_RIGHT: u8 = 0b0000_0100;
/// Right to run and quit an app.
pub const APP_RIGHT: u8 = 0b0000_0010;
/// Right held by mods.
pub const MOD_RIGHT: u8 = 0b0000_0001;

/// Composite mask: every right the main menu holds.
pub const RIGHTS_MAIN_MENU: u8 = 0b0000_0111;
/// Composite mask: every right an app holds.
pub const RIGHTS_APP: u8 = 0b0000_0011;
/// Composite mask: every right a mod holds.
pub const RIGHTS_MOD: u8 = 0b0000_0001;

/// Name of the app that the runtime loads at startup and returns to on quit.
pub const APICA_MAIN_MENU: &'static str = "APICA_MENU";

/// True when every bit of `right` is set in `held`.
pub open spec fn spec_has_right(held: u8, right: u8) -> bool {
    held & right == right
}

/// Mathematical model of the rights system.
pub struct RightsModel {
    pub mode: ApicaMode,
    pub right: u8,
}

/// The lifecycle mode together with the rights mask currently held.
pub struct RightSystem {
    mode: ApicaMode,
    right: u8,
}

impl View for RightSystem {
    type V = RightsModel;

    closed spec fn view(&self) -> RightsModel {
        RightsModel { mode: self.mode, right: self.right }
    }
}

impl RightSystem {
    /// Current mode, as a spec value.
    pub open spec fn spec_mode(&self) -> ApicaMode {
        self@.mode
    }

    /// Current rights mask, as a spec value.
    pub open spec fn spec_right(&self) -> u8 {
        self@.right
    }

    /// The runtime starts in the special pre-init mode with main-menu rights.
    pub fn init() -> (r: RightSystem)
        ensures
            r.spec_mode() == ApicaMode::SpecialInit,
            r.spec_right() == RIGHTS_MAIN_MENU,
    {
        RightSystem { mode: ApicaMode::SpecialInit, right: RIGHTS_MAIN_MENU }
    }

    pub fn get_mode(&self) -> (m: &ApicaMode)
        ensures
            *m == self.spec_mode(),
    {
        &self.mode
    }

    pub fn set_mode(&mut self, mode: ApicaMode)
        ensures
            final(self).spec_mode() == mode,
            final(self).spec_right() == old(self).spec_right(),
    {
        self.mode = mode;
    }

    pub fn set_right(&mut self, right: u8)
        ensures
            final(self).spec_right() == right,
            final(self).spec_mode() == old(self).spec_mode(),
    {
        self.right = right;
    }

    pub fn add_right(&mut self, right: u8)
        ensures
            final(self).spec_right() == (old(self).spec_right() | right),
            final(self).spec_mode() == old(self).spec_mode(),
    {
        self.right = self.right | right;
    }

    /// The runtime halts exactly when the mode reaches the special quit state.
    pub fn is_running(&self) -> (r: bool)
        ensures
            r == (self.spec_mode() != ApicaMode::SpecialQuit),
    {
        self.mode != ApicaMode::SpecialQuit
    }

    pub fn has_right(&self, right: u8) -> (r: bool)
        ensures
            r == spec_has_right(self.spec_right(), right),
    {
        self.right & right == right
    }

    /// A guarded quit request: the mode moves to `Quit` only if the app
    /// right is held, and nothing changes otherwise.
    pub fn quit_app(&mut self)
        ensures
            final(self).spec_right() == old(self).spec_right(),
            spec_has_right(old(self).spec_right(), APP_RIGHT) ==> final(self).spec_mode()
                == ApicaMode::Quit,
            !spec_has_right(old(self).spec_right(), APP_RIGHT) ==> final(self).spec_mode()
                == old(self).spec_mode(),
    {
        if self.right & APP_RIGHT != APP_RIGHT {
            return ;
        }
        self.mode = ApicaMode::Quit;
    }
}

} // verus!
