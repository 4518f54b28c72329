//! Small desktop-shell settings decisions.
use vstd::prelude::*;

verus! {

/// A stored feature flag; a missing or non-boolean value leaves the
/// feature on.
pub fn enabled(stored: Option<bool>) -> (r: bool)
    ensures
        r == match stored {
            Some(v) => v,
            None => true,
        },
{
    match stored {
        Some(v) => v,
        None => true,
    }
}

/// How the app appears in the Dock.
#[derive(Clone, Copy, Debug, PartialEq, Eq, Structural)]
pub enum ActivationPolicy {
    /// A regular app with a Dock icon.
    Regular,
    /// A menu-bar accessory without a Dock icon.
    Accessory,
}

/// With "menu bar when closed" on, the Dock icon follows the main window's
/// visibility; otherwise the policy is left as it is.
pub fn activation_policy(menu_bar_when_closed: bool, visible: bool) -> (r: Option<
    ActivationPolicy,
>)
    ensures
        !menu_bar_when_closed ==> r is None,
        menu_bar_when_closed && visible ==> r == Some(ActivationPolicy::Regular),
        menu_bar_when_closed && !visible ==> r == Some(ActivationPolicy::Accessory),
{
    if !menu_bar_when_closed {
        None
    } else if visible {
        Some(ActivationPolicy::Regular)
    } else {
        Some(ActivationPolicy::Accessory)
    }
}

} // verus!
