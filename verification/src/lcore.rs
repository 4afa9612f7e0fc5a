//! Roles of logical cores (DPDK threads).

use vstd::prelude::*;

verus! {

/// DPDK's number for the role of an EAL thread.
pub const ROLE_RTE: u32 = 0;

/// DPDK's number for the role of a core that is off.
pub const ROLE_OFF: u32 = 1;

/// DPDK's number for the role of a service core.
pub const ROLE_SERVICE: u32 = 2;

/// DPDK's number for the role of a thread created by the user.
pub const ROLE_NON_EAL: u32 = 3;

/// Lcore role.
#[derive(Clone, Copy, Debug, PartialEq, Eq, Structural)]
pub enum Role {
    /// An EAL-created thread.
    Eal,
    /// A user-created thread.
    User,
    /// A service lcore.
    Service,
    /// Off.
    Off,
}

/// The role DPDK's role number stands for.
pub open spec fn spec_role(raw: u32) -> Role {
    if raw == ROLE_RTE {
        Role::Eal
    } else if raw == ROLE_SERVICE {
        Role::Service
    } else if raw == ROLE_NON_EAL {
        Role::User
    } else {
        Role::Off
    }
}

/// Converts DPDK's role number, one of the four it defines, into a `Role`.
pub fn role_from_raw(raw: u32) -> (r: Role)
    requires
        raw <= ROLE_NON_EAL,
    ensures
        r == spec_role(raw),
{
    if raw == ROLE_RTE {
        Role::Eal
    } else if raw == ROLE_SERVICE {
        Role::Service
    } else if raw == ROLE_NON_EAL {
        Role::User
    } else {
        Role::Off
    }
}

} // verus!
