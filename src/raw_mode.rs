use vstd::prelude::*;

verus! {

/// Whether the terminal is in raw input mode, as this process sees it.
pub struct RawModeFlag {
    pub enabled: bool,
}

/// A scoped hold on raw input mode. It remembers whether raw mode was already on when it was
/// taken, so that releasing it switches raw mode off only if this guard switched it on.
pub struct RawMode(bool);

/// The raw-mode flag after a guard is released: unchanged if raw mode was on before the guard
/// was taken, off otherwise.
pub open spec fn released_mode(was_enabled: bool, enabled: bool) -> bool {
    if was_enabled {
        enabled
    } else {
        false
    }
}

impl RawMode {
    pub closed spec fn spec_was_enabled(&self) -> bool {
        self.0
    }

    /// Takes the guard; raw mode is on while it is held.
    pub fn ensure(flag: &mut RawModeFlag) -> (r: RawMode)
        ensures
            final(flag).enabled,
            r.spec_was_enabled() == old(flag).enabled,
    {
        let is_raw = flag.enabled;
        if !is_raw {
            flag.enabled = true;
        }
        RawMode(is_raw)
    }

    /// Whether raw mode was already on when the guard was taken.
    pub fn was_enabled(&self) -> (r: bool)
        ensures
            r == self.spec_was_enabled(),
    {
        self.0
    }

    /// Gives the guard back.
    pub fn release(self, flag: &mut RawModeFlag)
        ensures
            final(flag).enabled == released_mode(self.spec_was_enabled(), old(flag).enabled),
    {
        if !self.0 {
            flag.enabled = false;
        }
    }
}

/// Taking a guard and then releasing it, with raw mode still on at release, gives the flag back
/// as it was before the guard was taken: in particular a guard taken while raw mode is already
/// on leaves raw mode on when it is released.
pub proof fn guard_restores_raw_mode(
    before: RawModeFlag,
    held: RawModeFlag,
    guard: RawMode,
    after: RawModeFlag,
)
    requires
        guard.spec_was_enabled() == before.enabled,
        held.enabled,
        after.enabled == released_mode(guard.spec_was_enabled(), held.enabled),
    ensures
        after.enabled == before.enabled,
        before.enabled ==> after.enabled,
{
}

} // verus!
