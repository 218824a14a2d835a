//! What the start-at-login entry needs, given what the user wants and what
//! the OS already holds.

use vstd::prelude::*;

verus! {

/// What to do to the OS's entry that starts Reflect at login.
#[derive(Debug, Clone, Copy, PartialEq, Eq, Structural)]
pub enum LoginEntryChange {
    /// Write the entry. Written every time it is wanted, not only when it is
    /// missing: the entry names the binary that wrote it, and one left by a
    /// binary that has since moved points at nothing.
    Write,
    /// Remove the entry that is there.
    Remove,
    /// Nothing to do: no entry wanted, and none there. Removing an entry that
    /// isn't there is an error, not a no-op.
    LeaveAlone,
}

/// What the start-at-login entry needs so that the OS agrees with `wanted`,
/// given whether an entry for Reflect is `registered` at all (whatever it
/// points at, and whether or not the user has it switched off elsewhere).
pub fn login_entry_change(wanted: bool, registered: bool) -> (r: LoginEntryChange)
    ensures
        r == (if wanted {
            LoginEntryChange::Write
        } else if registered {
            LoginEntryChange::Remove
        } else {
            LoginEntryChange::LeaveAlone
        }),
{
    if wanted {
        LoginEntryChange::Write
    } else if registered {
        LoginEntryChange::Remove
    } else {
        LoginEntryChange::LeaveAlone
    }
}

} // verus!
