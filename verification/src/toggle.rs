use vstd::prelude::*;

verus! {

/// Per-entity switch that disables parts of the backend's work.
#[derive(Clone, Copy, Debug, PartialEq, Eq, Structural)]
pub enum TnuaToggle {
    /// The sensors are not updated and the motors are not applied.
    Disabled,
    /// The sensors are updated but the motors are not applied.
    SenseOnly,
    /// The backend behaves normally: sensors are updated and motors applied.
    Enabled,
}

impl Default for TnuaToggle {
    fn default() -> (t: Self)
        ensures
            t == TnuaToggle::Enabled,
    {
        TnuaToggle::Enabled
    }
}

/// The toggle in force for an entity: its own toggle, or the default when it has none.
pub open spec fn effective_toggle_spec(toggle: Option<TnuaToggle>) -> TnuaToggle {
    match toggle {
        Some(t) => t,
        None => TnuaToggle::Enabled,
    }
}

/// The toggle in force for an entity that may or may not carry one.
pub fn effective_toggle(toggle: Option<TnuaToggle>) -> (t: TnuaToggle)
    ensures
        t == effective_toggle_spec(toggle),
{
    match toggle {
        Some(t) => t,
        None => TnuaToggle::default(),
    }
}

/// Whether the rigid-body tracker of an entity is refreshed this frame:
/// every toggle but `Disabled` refreshes it.
pub fn tracker_update_due(toggle: Option<TnuaToggle>) -> (due: bool)
    ensures
        due == !(effective_toggle_spec(toggle) is Disabled),
        due <==> toggle != Some(TnuaToggle::Disabled),
{
    match effective_toggle(toggle) {
        TnuaToggle::Disabled => false,
        TnuaToggle::SenseOnly => true,
        TnuaToggle::Enabled => true,
    }
}

/// An entity without a toggle behaves as an enabled one, and an entity with a
/// toggle behaves as that toggle says; so its tracker is refreshed exactly
/// when it does not carry a `Disabled` toggle.
pub proof fn lemma_missing_toggle_means_enabled(toggle: Option<TnuaToggle>)
    ensures
        effective_toggle_spec(None) == TnuaToggle::Enabled,
        toggle matches Some(t) ==> effective_toggle_spec(toggle) == t,
        !(effective_toggle_spec(toggle) is Disabled) <==> toggle != Some(TnuaToggle::Disabled),
{
}

} // verus!
