use vstd::prelude::*;

use crate::protocol::Effect;
use crate::protocol::Message;
use crate::state::AppState;
use crate::state::ClientId;
use crate::state::ClientInfo;
use crate::state::ClientRole;
use crate::state::GameState;
use crate::state::MasterToken;
use crate::state::TokenGracePeriod;

verus! {

/// How long, in milliseconds, a disconnected master's token remains
/// valid for restoration.
pub const GRACE_PERIOD_MS: u64 = 5000;

/// The mathematical state of the store: the registry as a sequence, the
/// record, and the master seat (held / in grace / vacant).
#[verifier::ext_equal]
pub struct Model {
    pub clients: Seq<ClientInfo>,
    pub game_state: Option<GameState>,
    pub master_client_id: Option<ClientId>,
    pub master_token: Option<MasterToken>,
    pub master_token_grace: Option<TokenGracePeriod>,
    pub client_counter: u64,
}

impl View for AppState {
    type V = Model;

    open spec fn view(&self) -> Model {
        Model {
            clients: self.clients@,
            game_state: self.game_state,
            master_client_id: self.master_client_id,
            master_token: self.master_token,
            master_token_grace: self.master_token_grace,
            client_counter: self.client_counter,
        }
    }
}

/// The client kind whose connections are eligible for the master seat.
pub open spec fn op_kind() -> Seq<char> {
    "operation"@
}

/// Is this connection of the controlling ("operation") kind?
pub open spec fn is_op(c: ClientInfo) -> bool {
    c.client_type@ == op_kind()
}

pub open spec fn ids_unique(cs: Seq<ClientInfo>) -> bool {
    forall|i: int, j: int| 0 <= i < j < cs.len() ==> cs[i].id != cs[j].id
}

/// An identifier that no registered connection carries and that the
/// counter has already passed over (so it can never be handed out again).
pub open spec fn fresh_id(m: Model, id: ClientId) -> bool {
    &&& id < m.client_counter
    &&& forall|i: int| 0 <= i < m.clients.len() ==> m.clients[i].id != id
}

/// The cross-cutting invariants of the store:
/// identifiers are unique and below the counter; the seat is either
/// `Held` (a registered master with a token, no grace period), in grace
/// (no master, a token waiting), or vacant; a connection's role is
/// `Master` exactly when it holds the seat; and only "operation"
/// connections are ever `Master` or `Slave`.
pub open spec fn wf(m: Model) -> bool {
    &&& ids_unique(m.clients)
    &&& (forall|i: int| 0 <= i < m.clients.len() ==> m.clients[i].id < m.client_counter)
    &&& m.client_counter >= 1
    &&& (m.master_client_id is Some <==> m.master_token is Some)
    &&& (m.master_client_id is Some ==> m.master_token_grace is None)
    &&& (m.master_client_id is Some ==> exists|i: int|
        0 <= i < m.clients.len() && m.clients[i].id == m.master_client_id->0)
    &&& (forall|i: int| #![auto] 0 <= i < m.clients.len() ==>
        (m.clients[i].role == ClientRole::Master <==> m.master_client_id == Some(m.clients[i].id)))
    &&& (forall|i: int| #![auto] 0 <= i < m.clients.len() && m.clients[i].role != ClientRole::Viewer
        ==> is_op(m.clients[i]))
}

/// The state a fresh store holds.
pub open spec fn init_model() -> Model {
    Model {
        clients: Seq::empty(),
        game_state: None,
        master_client_id: None,
        master_token: None,
        master_token_grace: None,
        client_counter: 1,
    }
}

/// The number of registered connections whose role is `Master`.
pub open spec fn count_masters(cs: Seq<ClientInfo>) -> nat
    decreases cs.len(),
{
    if cs.len() == 0 {
        0
    } else {
        count_masters(cs.drop_last()) + if cs.last().role == ClientRole::Master {
            1nat
        } else {
            0nat
        }
    }
}

/// Index of the first connection with this identifier, or `cs.len()`
/// when none carries it.
pub open spec fn idx_of(cs: Seq<ClientInfo>, id: ClientId) -> int
    decreases cs.len(),
{
    if cs.len() == 0 {
        0
    } else if cs[0].id == id {
        0
    } else {
        1 + idx_of(cs.drop_first(), id)
    }
}

/// Every connection with this identifier takes the given role; all
/// others are untouched.
pub open spec fn set_role(cs: Seq<ClientInfo>, id: ClientId, r: ClientRole) -> Seq<ClientInfo> {
    Seq::new(
        cs.len(),
        |i: int|
            if cs[i].id == id {
                ClientInfo {
                    id: cs[i].id,
                    role: r,
                    client_type: cs[i].client_type,
                    connected_at: cs[i].connected_at,
                }
            } else {
                cs[i]
            },
    )
}

/// Eligibility for promotion: a `Slave` of the "operation" kind, and not
/// the connection a voluntary release just demoted.
pub open spec fn eligible(c: ClientInfo, exclude: Option<ClientId>) -> bool {
    &&& c.role == ClientRole::Slave
    &&& is_op(c)
    &&& (exclude is Some ==> c.id != exclude->0)
}

/// The index of the promotion candidate: among eligible connections, the
/// one with the least `connected_at`, and of equals the first registered.
pub open spec fn best_candidate(cs: Seq<ClientInfo>, exclude: Option<ClientId>) -> Option<int>
    decreases cs.len(),
{
    if cs.len() == 0 {
        None
    } else {
        let last = cs.len() - 1;
        match best_candidate(cs.drop_last(), exclude) {
            None => if eligible(cs[last], exclude) {
                Some(last)
            } else {
                None
            },
            Some(b) => if eligible(cs[last], exclude) && cs[last].connected_at
                < cs[b].connected_at {
                Some(last)
            } else {
                Some(b)
            },
        }
    }
}

/// Role decision for an "operation" handshake, mutating the seat:
/// a token matching an unexpired grace period restores `Master` with the
/// same token; a fully vacant seat is claimed with the fresh token;
/// otherwise the caller becomes `Slave`.
pub open spec fn spec_determine_operation_role(
    m: Model,
    id: ClientId,
    provided: Option<MasterToken>,
    now_ms: u64,
    fresh_token: MasterToken,
) -> (Model, ClientRole) {
    if provided is Some && m.master_token_grace is Some && provided->0@
        == m.master_token_grace->0.token@ && now_ms < m.master_token_grace->0.expires_at {
        (
            Model {
                master_client_id: Some(id),
                master_token: Some(provided->0),
                master_token_grace: None,
                ..m
            },
            ClientRole::Master,
        )
    } else if m.master_client_id is None && m.master_token_grace is None {
        (
            Model {
                master_client_id: Some(id),
                master_token: Some(fresh_token),
                master_token_grace: None,
                ..m
            },
            ClientRole::Master,
        )
    } else {
        (m, ClientRole::Slave)
    }
}

/// The direct replies a fresh handshake receives: its role assignment,
/// and the current record if one exists.
pub open spec fn handshake_effects(m: Model, id: ClientId, role: ClientRole) -> Seq<Effect> {
    let reply = Effect::DirectMessage {
        to: id,
        message: Message::RoleAssignment {
            role,
            client_id: id,
            master_client_id: m.master_client_id,
            master_token: if role == ClientRole::Master {
                m.master_token
            } else {
                None
            },
        },
    };
    match m.game_state {
        Some(gs) => seq![
            reply,
            Effect::DirectMessage { to: id, message: Message::GameStateBroadcast { board_data: gs } },
        ],
        None => seq![reply],
    }
}

/// Handshake: decide the role ("operation" connections contend for the
/// seat, all others become `Viewer`), register the connection, and reply.
pub open spec fn spec_handle_handshake(
    m: Model,
    id: ClientId,
    client_type: String,
    provided: Option<MasterToken>,
    now_ms: u64,
    fresh_token: MasterToken,
) -> (Model, Seq<Effect>) {
    let (m1, role) = if client_type@ == op_kind() {
        spec_determine_operation_role(m, id, provided, now_ms, fresh_token)
    } else {
        (m, ClientRole::Viewer)
    };
    let info = ClientInfo { id, role, client_type, connected_at: now_ms };
    let m2 = Model { clients: m1.clients.push(info), ..m1 };
    (m2, handshake_effects(m2, id, role))
}

/// One enqueue of the same message to every registered connection.
pub open spec fn spec_broadcast(cs: Seq<ClientInfo>, msg: Message) -> Seq<Effect> {
    Seq::new(cs.len(), |i: int| Effect::DirectMessage { to: cs[i].id, message: msg })
}

/// Record update: only the master's write is accepted; it is stored,
/// persisted, and broadcast to every connection.
pub open spec fn spec_handle_game_state_update(m: Model, id: ClientId, record: GameState) -> (
    Model,
    Seq<Effect>,
) {
    if m.master_client_id == Some(id) {
        (
            Model { game_state: Some(record), ..m },
            seq![Effect::SaveRecord { record }] + spec_broadcast(
                m.clients,
                Message::GameStateBroadcast { board_data: record },
            ),
        )
    } else {
        (m, Seq::empty())
    }
}

/// Promotion: elevate the best candidate, mint it the fresh token, and
/// notify it alone; with no candidate the seat stays vacant.
pub open spec fn spec_promote_next_slave(
    m: Model,
    exclude: Option<ClientId>,
    fresh_token: MasterToken,
) -> (Model, Seq<Effect>) {
    match best_candidate(m.clients, exclude) {
        None => (m, Seq::empty()),
        Some(b) => {
            let new_id = m.clients[b].id;
            (
                Model {
                    clients: set_role(m.clients, new_id, ClientRole::Master),
                    master_client_id: Some(new_id),
                    master_token: Some(fresh_token),
                    ..m
                },
                seq![
                    Effect::DirectMessage {
                        to: new_id,
                        message: Message::RoleChanged {
                            new_role: ClientRole::Master,
                            client_id: new_id,
                            master_client_id: Some(new_id),
                            master_token: Some(fresh_token),
                            clear_token: None,
                        },
                    },
                ],
            )
        },
    }
}

/// Voluntary release: only the master's release counts. The seat is
/// vacated with no grace period, the releaser is demoted to `Slave`, and
/// promotion runs at once with the releaser excluded.
pub open spec fn spec_handle_release_master(m: Model, id: ClientId, fresh_token: MasterToken) -> (
    Model,
    Seq<Effect>,
) {
    if m.master_client_id == Some(id) {
        let m1 = Model {
            clients: set_role(m.clients, id, ClientRole::Slave),
            master_client_id: None,
            master_token: None,
            master_token_grace: None,
            ..m
        };
        spec_promote_next_slave(m1, Some(id), fresh_token)
    } else {
        (m, Seq::empty())
    }
}

/// Disconnect: the connection leaves the registry. If it held the seat,
/// the seat enters the grace state carrying the master's token, and a
/// deferred expiry check is scheduled.
pub open spec fn spec_handle_disconnect(m: Model, id: ClientId, now_ms: u64) -> (
    Model,
    Seq<Effect>,
) {
    let i = idx_of(m.clients, id);
    if i == m.clients.len() {
        (m, Seq::empty())
    } else {
        let cs2 = m.clients.remove(i);
        if m.master_client_id == Some(id) {
            let expiry = (now_ms + GRACE_PERIOD_MS) as u64;
            (
                Model {
                    clients: cs2,
                    master_client_id: None,
                    master_token: None,
                    master_token_grace: Some(
                        TokenGracePeriod { token: m.master_token->0, expires_at: expiry },
                    ),
                    ..m
                },
                seq![Effect::ScheduleExpiryCheck { at_ms: expiry }],
            )
        } else {
            (Model { clients: cs2, ..m }, Seq::empty())
        }
    }
}

/// The deferred check: if the grace period is still outstanding and has
/// expired, consume it and promote; otherwise do nothing (idempotent).
pub open spec fn spec_promote_if_grace_expired(m: Model, now_ms: u64, fresh_token: MasterToken) -> (
    Model,
    Seq<Effect>,
) {
    if m.master_token_grace is Some && now_ms >= m.master_token_grace->0.expires_at {
        let m1 = Model { master_token_grace: None, ..m };
        spec_promote_next_slave(m1, None, fresh_token)
    } else {
        (m, Seq::empty())
    }
}

/// Dispatch of one inbound message. Server-to-client shapes arriving
/// from a client are ignored.
pub open spec fn spec_handle_message(
    m: Model,
    id: ClientId,
    msg: Message,
    now_ms: u64,
    fresh_token: MasterToken,
) -> (Model, Seq<Effect>) {
    match msg {
        Message::Handshake { client_type, master_token } => spec_handle_handshake(
            m,
            id,
            client_type,
            master_token,
            now_ms,
            fresh_token,
        ),
        Message::GameStateUpdate { board_data } => spec_handle_game_state_update(
            m,
            id,
            board_data,
        ),
        Message::ReleaseMaster => spec_handle_release_master(m, id, fresh_token),
        _ => (m, Seq::empty()),
    }
}

} // verus!
