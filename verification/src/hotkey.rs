//! Changing the global shortcut: when a change is needed, and what is kept,
//! reported and undone when a step of it fails. Registering, unregistering
//! and saving are the caller's part, done in that order; each step is tried
//! only when the ones before it succeeded.
use vstd::prelude::*;

use crate::text::same_text;

verus! {

/// Whether a change of shortcut is needed: the requested (normalised)
/// shortcut differs from the current one.
pub fn hotkey_change_needed(current: &str, requested: &str) -> (r: bool)
    ensures
        r == (current@ != requested@),
{
    !same_text(current, requested)
}

/// What a change of shortcut comes to: the shortcut kept, the error reported
/// (if any), and the undoing to do: unregister the requested shortcut, and
/// register the previous one again.
pub struct HotkeyOutcome {
    pub hotkey: String,
    pub error: Option<String>,
    pub unregister_requested: bool,
    pub register_previous: bool,
}

/// The outcome of changing the shortcut from `current` to `requested`, given
/// the error of registering the requested shortcut, of unregistering the
/// current one, and of saving the settings (each `None` when it succeeded or
/// was not tried). A failure keeps the current shortcut: a failed
/// registration is reported as such; a failed unregistration is reported and
/// the requested shortcut unregistered again; a failed save is reported as it
/// came, the requested shortcut unregistered and the previous one registered
/// again. Without a failure the requested shortcut is kept.
pub fn hotkey_outcome(
    current: String,
    requested: String,
    register_error: Option<String>,
    unregister_error: Option<String>,
    save_error: Option<String>,
) -> (r: HotkeyOutcome)
    ensures
        register_error matches Some(e) ==> {
            &&& r.hotkey@ == current@
            &&& r.error matches Some(m) && m@ == "Failed to register shortcut: "@ + e@
            &&& !r.unregister_requested && !r.register_previous
        },
        register_error is None && unregister_error is Some ==> {
            &&& r.hotkey@ == current@
            &&& r.error matches Some(m) && m@ == "Failed to remove previous shortcut: "@ + unregister_error->0@
            &&& r.unregister_requested && !r.register_previous
        },
        register_error is None && unregister_error is None && save_error is Some ==> {
            &&& r.hotkey@ == current@
            &&& r.error matches Some(m) && m@ == save_error->0@
            &&& r.unregister_requested && r.register_previous
        },
        register_error is None && unregister_error is None && save_error is None ==> {
            &&& r.hotkey@ == requested@
            &&& r.error is None
            &&& !r.unregister_requested && !r.register_previous
        },
{
    if let Some(e) = register_error {
        let mut m = String::from_str("Failed to register shortcut: ");
        m.append(e.as_str());
        return HotkeyOutcome { hotkey: current, error: Some(m), unregister_requested: false, register_previous: false };
    }
    if let Some(e) = unregister_error {
        let mut m = String::from_str("Failed to remove previous shortcut: ");
        m.append(e.as_str());
        return HotkeyOutcome { hotkey: current, error: Some(m), unregister_requested: true, register_previous: false };
    }
    if let Some(e) = save_error {
        return HotkeyOutcome { hotkey: current, error: Some(e), unregister_requested: true, register_previous: true };
    }
    HotkeyOutcome { hotkey: requested, error: None, unregister_requested: false, register_previous: false }
}

} // verus!
