//! The session supervisor's outer state machine. The supervisor itself —
//! looking a manager up, querying it, connecting, running the session —
//! does I/O and lives outside this crate; the decision which state follows
//! which outcome is here.

use vstd::prelude::*;

verus! {

/// The supervisor's states. There is no terminal state: the supervisor
/// loops for as long as the program runs.
#[derive(Clone, Copy, Debug, PartialEq, Eq, Structural)]
pub enum SessionState {
    /// Look the servers manager up by the domain name.
    LocateServersManager,
    /// Ask the located manager which server this panel should show.
    QueryServersManager,
    /// Open the TCP connection to the chosen server.
    ConnectToServer,
    /// Run the RFB session until it ends.
    RfbSession,
}

/// The state that follows `state` once its attempt has `succeeded` or not.
/// In direct mode (a server address was given on the command line) there is
/// no manager: the supervisor only ever connects and runs sessions, and a
/// failed connection is retried.
pub fn next_state(state: SessionState, succeeded: bool, direct_mode: bool) -> (next: SessionState)
    requires
        direct_mode ==> state is ConnectToServer || state is RfbSession,
    ensures
        state is LocateServersManager && succeeded ==> next is QueryServersManager,
        state is LocateServersManager && !succeeded ==> next is LocateServersManager,
        state is QueryServersManager && succeeded ==> next is ConnectToServer,
        state is QueryServersManager && !succeeded ==> next is LocateServersManager,
        state is ConnectToServer && succeeded ==> next is RfbSession,
        state is ConnectToServer && !succeeded && direct_mode ==> next is ConnectToServer,
        state is ConnectToServer && !succeeded && !direct_mode ==> next is QueryServersManager,
        state is RfbSession ==> next is ConnectToServer,
{
    match state {
        SessionState::LocateServersManager => {
            if succeeded {
                SessionState::QueryServersManager
            } else {
                SessionState::LocateServersManager
            }
        },
        SessionState::QueryServersManager => {
            if succeeded {
                SessionState::ConnectToServer
            } else {
                SessionState::LocateServersManager
            }
        },
        SessionState::ConnectToServer => {
            if succeeded {
                SessionState::RfbSession
            } else if direct_mode {
                SessionState::ConnectToServer
            } else {
                SessionState::QueryServersManager
            }
        },
        SessionState::RfbSession => SessionState::ConnectToServer,
    }
}

} // verus!
