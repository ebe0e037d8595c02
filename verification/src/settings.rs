//! The choices of the caller that the migration depends on.

use vstd::prelude::*;

verus! {

#[derive(Clone, Copy, Debug, PartialEq, Eq, Structural)]
pub struct MigrationSettings {
    /// Go on where a warning comes up, with best-effort substitutions.
    pub continue_migration: bool,
    /// Bring the connections up that are marked to connect by themselves.
    pub activate_connections: bool,
    /// Take the legacy DNS configuration into account.
    pub with_netconfig: bool,
}

impl Default for MigrationSettings {
    /// Stop on warnings, activate connections, leave netconfig aside.
    fn default() -> (r: Self)
        ensures
            r == (MigrationSettings {
                continue_migration: false,
                activate_connections: true,
                with_netconfig: false,
            }),
    {
        MigrationSettings {
            continue_migration: false,
            activate_connections: true,
            with_netconfig: false,
        }
    }
}

} // verus!
