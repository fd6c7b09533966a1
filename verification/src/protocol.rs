use vstd::prelude::*;

use crate::state::ClientId;
use crate::state::ClientRole;
use crate::state::GameState;
use crate::state::MasterToken;

verus! {

/// The discriminated-union message catalogue carried over the transport,
/// keyed on the wire by a `type` field.
#[derive(Debug, PartialEq)]
pub enum Message {
    /// client -> server: establish a role.
    Handshake { client_type: String, master_token: Option<MasterToken> },
    /// server -> client: initial role reply.
    RoleAssignment {
        role: ClientRole,
        client_id: u64,
        master_client_id: Option<u64>,
        master_token: Option<MasterToken>,
    },
    /// server -> client: asynchronous promotion / role-change notice.
    RoleChanged {
        new_role: ClientRole,
        client_id: u64,
        master_client_id: Option<u64>,
        master_token: Option<MasterToken>,
        clear_token: Option<bool>,
    },
    /// client -> server: master-only write of the record.
    GameStateUpdate { board_data: GameState },
    /// server -> client: fan-out of the current record.
    GameStateBroadcast { board_data: GameState },
    /// client -> server: voluntary release of the master seat.
    ReleaseMaster,
}

pub(crate) fn clone_opt_token(o: &Option<MasterToken>) -> (r: Option<MasterToken>)
    ensures
        r == *o,
{
    match o {
        Option::None => Option::None,
        Option::Some(s) => Option::Some(s.clone()),
    }
}

impl Clone for Message {
    /// A clone is equal to the original.
    fn clone(&self) -> (r: Self)
        ensures
            r == *self,
    {
        match self {
            Message::Handshake { client_type, master_token } => Message::Handshake {
                client_type: client_type.clone(),
                master_token: clone_opt_token(master_token),
            },
            Message::RoleAssignment { role, client_id, master_client_id, master_token } => Message::RoleAssignment {
                role: *role,
                client_id: *client_id,
                master_client_id: *master_client_id,
                master_token: clone_opt_token(master_token),
            },
            Message::RoleChanged {
                new_role,
                client_id,
                master_client_id,
                master_token,
                clear_token,
            } => Message::RoleChanged {
                new_role: *new_role,
                client_id: *client_id,
                master_client_id: *master_client_id,
                master_token: clone_opt_token(master_token),
                clear_token: *clear_token,
            },
            Message::GameStateUpdate { board_data } => Message::GameStateUpdate {
                board_data: board_data.clone(),
            },
            Message::GameStateBroadcast { board_data } => Message::GameStateBroadcast {
                board_data: board_data.clone(),
            },
            Message::ReleaseMaster => Message::ReleaseMaster,
        }
    }
}

/// What the coordinator asks its caller to do after a decision: hand a
/// message to one connection's outbound queue, persist the record, or
/// schedule the deferred grace-expiry check.
#[derive(Debug, PartialEq)]
pub enum Effect {
    DirectMessage { to: ClientId, message: Message },
    SaveRecord { record: GameState },
    ScheduleExpiryCheck { at_ms: u64 },
}

} // verus!
