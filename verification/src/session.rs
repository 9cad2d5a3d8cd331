//! The session state machine: which role is active, and the guarded
//! transitions between roles.

use vstd::prelude::*;

use crate::client::ClientError;
use crate::lobby::LobbyState;

verus! {

/// Faults surfaced at the session boundary.
#[derive(Debug, Clone, PartialEq)]
pub enum SessionFault {
    /// Role setup could not complete (bad address, socket in use, …); the
    /// role was not entered and no partial state remains.
    SetupFailed(String),
    /// A protocol invariant was violated; the session must end cleanly.
    Protocol(ClientError),
}

/// Tries to enter a role. Only the inactive state may enter one, and the
/// inactive state cannot be "entered": the caller must tear the current
/// role down first.
pub fn enter_role(state: &mut LobbyState, target: LobbyState) -> (r: bool)
    ensures
        r == ((*old(state)) is Inactive && !(target is Inactive)),
        r ==> *final(state) == target,
        !r ==> *final(state) == *old(state),
{
    match (*state, target) {
        (LobbyState::Inactive, LobbyState::Inactive) => false,
        (LobbyState::Inactive, _) => {
            *state = target;
            true
        },
        _ => false,
    }
}

/// Leaves whatever role is active. Role-scoped registries and actors are
/// torn down by the role's own teardown (see [`crate::host::host_teardown`]);
/// this resets the machine itself.
pub fn exit_role(state: &mut LobbyState)
    ensures
        *final(state) == LobbyState::Inactive,
{
    *state = LobbyState::Inactive;
}

} // verus!
