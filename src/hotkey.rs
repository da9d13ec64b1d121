//! The global hotkey that toggles the daemon: at most one binding is active, and
//! applying a setting always tears the previous one down first.

use vstd::prelude::*;
use crate::text::{trim, trim_bounds};

verus! {

/// Why a hotkey setting could not be applied.
#[derive(Clone, Copy, Debug, PartialEq, Eq, Structural)]
pub enum BridgeError {
    /// The display session cannot capture global shortcuts; an OS-level custom
    /// shortcut running the command-line toggle is the way there.
    UnsupportedSessionProtocol,
    /// The accelerator is empty once white space is trimmed.
    EmptyAccelerator,
}

/// What applying a setting leads to once the previous binding is gone.
#[derive(Clone, Debug)]
pub enum HotkeyOutcome {
    /// The hotkey is off: nothing more to do.
    Disabled,
    /// Register this accelerator; confirm it once registration succeeded.
    Register(String),
    /// Fail with this error.
    Rejected(BridgeError),
}

/// The steps of applying a setting, in order.
#[derive(Clone, Debug)]
pub struct HotkeyStep {
    /// The binding to unregister first, if one was active.
    pub unregister: Option<String>,
    pub outcome: HotkeyOutcome,
}

/// The binding that is active, if any.
pub struct HotkeyState {
    active: Option<String>,
}

impl HotkeyState {
    pub closed spec fn active_view(&self) -> Option<Seq<char>> {
        match self.active {
            Some(a) => Some(a@),
            None => None,
        }
    }

    /// No binding active.
    pub fn new() -> (r: HotkeyState)
        ensures
            r.active_view() is None,
    {
        HotkeyState { active: None }
    }

    /// The active binding's accelerator, if any.
    pub fn active(&self) -> (r: Option<String>)
        ensures
            match r {
                Some(a) => self.active_view() == Some(a@),
                None => self.active_view() is None,
            },
    {
        match &self.active {
            Some(a) => Some(a.clone()),
            None => None,
        }
    }

    /// Applies a setting: the previous binding is always released first; then an
    /// enabled hotkey is refused on a session that cannot capture it (`unsupported`)
    /// or when its accelerator is blank, and otherwise its trimmed accelerator is
    /// to be registered.
    pub fn set_usb_media_remap_hotkey(&mut self, enabled: bool, accelerator: &str, unsupported: bool) -> (r: HotkeyStep)
        ensures
            final(self).active_view() is None,
            match r.unregister {
                Some(a) => old(self).active_view() == Some(a@),
                None => old(self).active_view() is None,
            },
            !enabled ==> r.outcome is Disabled,
            enabled && unsupported ==> r.outcome == HotkeyOutcome::Rejected(
                BridgeError::UnsupportedSessionProtocol,
            ),
            enabled && !unsupported && trim(accelerator@).len() == 0 ==> r.outcome
                == HotkeyOutcome::Rejected(BridgeError::EmptyAccelerator),
            enabled && !unsupported && trim(accelerator@).len() > 0 ==> (match r.outcome {
                HotkeyOutcome::Register(a) => a@ == trim(accelerator@),
                _ => false,
            }),
    {
        let prev = self.active.take();
        if !enabled {
            return HotkeyStep { unregister: prev, outcome: HotkeyOutcome::Disabled };
        }
        if unsupported {
            return HotkeyStep {
                unregister: prev,
                outcome: HotkeyOutcome::Rejected(BridgeError::UnsupportedSessionProtocol),
            };
        }
        let (lo, hi) = trim_bounds(accelerator);
        if lo == hi {
            return HotkeyStep {
                unregister: prev,
                outcome: HotkeyOutcome::Rejected(BridgeError::EmptyAccelerator),
            };
        }
        let t = String::from_str(accelerator.substring_char(lo, hi));
        HotkeyStep { unregister: prev, outcome: HotkeyOutcome::Register(t) }
    }

    /// Records that `accelerator` is now registered.
    pub fn confirm_registration(&mut self, accelerator: String)
        ensures
            final(self).active_view() == Some(accelerator@),
    {
        self.active = Some(accelerator);
    }
}

} // verus!
