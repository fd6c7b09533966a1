use vstd::prelude::*;
use vstd::string::StringExecFns;

use crate::laws::lemma_idx_of;
use crate::laws::lemma_wf_disconnect;
use crate::laws::lemma_wf_handshake;
use crate::laws::lemma_wf_promote;
use crate::laws::lemma_wf_release_demote;
use crate::model::best_candidate;
use crate::model::fresh_id;
use crate::model::idx_of;
use crate::model::op_kind;
use crate::model::set_role;
use crate::model::spec_broadcast;
use crate::model::spec_determine_operation_role;
use crate::model::spec_handle_disconnect;
use crate::model::spec_handle_game_state_update;
use crate::model::spec_handle_handshake;
use crate::model::spec_handle_message;
use crate::model::spec_handle_release_master;
use crate::model::spec_promote_if_grace_expired;
use crate::model::spec_promote_next_slave;
use crate::model::wf;
use crate::model::Model;
use crate::model::GRACE_PERIOD_MS;
use crate::protocol::clone_opt_token;
use crate::protocol::Effect;
use crate::protocol::Message;
use crate::state::AppState;
use crate::state::ClientId;
use crate::state::ClientInfo;
use crate::state::ClientRole;
use crate::state::GameState;
use crate::state::MasterToken;
use crate::state::TokenGracePeriod;

verus! {

/// Is this the controlling client kind?
fn is_operation(kind: &String) -> (b: bool)
    ensures
        b == (kind@ == op_kind()),
{
    let op = String::from_str("operation");
    kind.eq(&op)
}

impl AppState {
    /// Hands out the next connection identifier; each is used once.
    pub fn next_client_id(&mut self) -> (id: ClientId)
        requires
            old(self).client_counter < u64::MAX,
        ensures
            id == old(self).client_counter,
            final(self)@ == (Model { client_counter: (old(self).client_counter + 1) as u64, ..old(self)@ }),
            wf(old(self)@) ==> fresh_id(final(self)@, id) && wf(final(self)@),
    {
        let id = self.client_counter;
        self.client_counter = self.client_counter + 1;
        id
    }

    /// Whether this identifier is free to register: checked by the
    /// caller before a handshake is handed in.
    pub fn is_fresh_id(&self, id: ClientId) -> (b: bool)
        ensures
            b == fresh_id(self@, id),
    {
        if id >= self.client_counter {
            return false;
        }
        let n = self.clients.len();
        let mut i: usize = 0;
        while i < n
            invariant
                n == self.clients@.len(),
                forall|k: int| 0 <= k < i ==> self.clients@[k].id != id,
                id < self.client_counter,
            decreases n - i,
        {
            if self.clients[i].id == id {
                return false;
            }
            i = i + 1;
        }
        true
    }

    /// Role decision for an "operation" handshake: restoration of an
    /// unexpired grace period with the matching token, a fresh claim of
    /// a fully vacant seat, or `Slave`.
    fn determine_operation_role(
        &mut self,
        client_id: ClientId,
        provided: &Option<MasterToken>,
        now_ms: u64,
        fresh_token: MasterToken,
    ) -> (role: ClientRole)
        ensures
            ({
                let (m1, r) = spec_determine_operation_role(
                    old(self)@,
                    client_id,
                    *provided,
                    now_ms,
                    fresh_token,
                );
                final(self)@ == m1 && role == r
            }),
    {
        let grace_hit = match (provided, &self.master_token_grace) {
            (Some(t), Some(g)) => t.eq(&g.token) && now_ms < g.expires_at,
            _ => false,
        };
        if grace_hit {
            let t = match provided {
                Some(t) => t.clone(),
                None => {
                    proof {
                        assert(false);
                    }
                    String::new()
                },
            };
            self.master_client_id = Some(client_id);
            self.master_token = Some(t);
            self.master_token_grace = None;
            proof {
                assert(self@ =~= spec_determine_operation_role(
                    old(self)@,
                    client_id,
                    *provided,
                    now_ms,
                    fresh_token,
                ).0);
            }
            ClientRole::Master
        } else if self.master_client_id.is_none() && self.master_token_grace.is_none() {
            self.master_client_id = Some(client_id);
            self.master_token = Some(fresh_token);
            proof {
                assert(self@ =~= spec_determine_operation_role(
                    old(self)@,
                    client_id,
                    *provided,
                    now_ms,
                    fresh_token,
                ).0);
            }
            ClientRole::Master
        } else {
            ClientRole::Slave
        }
    }

    /// Handshake: decide and record the caller's role, register it, and
    /// reply with its role assignment and the current record, if any.
    pub fn handle_handshake(
        &mut self,
        client_id: ClientId,
        client_type: String,
        master_token: Option<MasterToken>,
        now_ms: u64,
        fresh_token: MasterToken,
    ) -> (effects: Vec<Effect>)
        requires
            wf(old(self)@),
            fresh_id(old(self)@, client_id),
        ensures
            ({
                let (m2, effs) = spec_handle_handshake(
                    old(self)@,
                    client_id,
                    client_type,
                    master_token,
                    now_ms,
                    fresh_token,
                );
                final(self)@ == m2 && effects@ == effs
            }),
            wf(final(self)@),
    {
        let role = if is_operation(&client_type) {
            self.determine_operation_role(client_id, &master_token, now_ms, fresh_token)
        } else {
            ClientRole::Viewer
        };
        let info = ClientInfo {
            id: client_id,
            role,
            client_type,
            connected_at: now_ms,
        };
        self.clients.push(info);
        let reply_token = if role == ClientRole::Master {
            clone_opt_token(&self.master_token)
        } else {
            None
        };
        let mut effects: Vec<Effect> = Vec::new();
        effects.push(
            Effect::DirectMessage {
                to: client_id,
                message: Message::RoleAssignment {
                    role,
                    client_id,
                    master_client_id: self.master_client_id,
                    master_token: reply_token,
                },
            },
        );
        if let Some(gs) = &self.game_state {
            effects.push(
                Effect::DirectMessage {
                    to: client_id,
                    message: Message::GameStateBroadcast { board_data: gs.clone() },
                },
            );
        }
        proof {
            let (m2, effs) = spec_handle_handshake(
                old(self)@,
                client_id,
                client_type,
                master_token,
                now_ms,
                fresh_token,
            );
            assert(self@ =~= m2);
            assert(effects@ =~= effs);
            lemma_wf_handshake(old(self)@, client_id, client_type, master_token, now_ms, fresh_token);
        }
        effects
    }

    /// Every connection with this identifier takes the given role.
    fn set_role_by_id(&mut self, id: ClientId, role: ClientRole)
        ensures
            final(self)@ == (Model {
                clients: set_role(old(self)@.clients, id, role),
                ..old(self)@
            }),
    {
        let n = self.clients.len();
        let mut i: usize = 0;
        while i < n
            invariant
                n == self.clients@.len(),
                old(self)@.clients.len() == n,
                forall|k: int| 0 <= k < i ==> self.clients@[k] == set_role(
                    old(self)@.clients,
                    id,
                    role,
                )[k],
                forall|k: int| i <= k < n ==> self.clients@[k] == old(self)@.clients[k],
                self.game_state == old(self).game_state,
                self.master_client_id == old(self).master_client_id,
                self.master_token == old(self).master_token,
                self.master_token_grace == old(self).master_token_grace,
                self.client_counter == old(self).client_counter,
            decreases n - i,
        {
            if self.clients[i].id == id {
                self.clients[i].role = role;
            }
            i = i + 1;
        }
        proof {
            assert(self.clients@ =~= set_role(old(self)@.clients, id, role));
            assert(self@ =~= (Model { clients: set_role(old(self)@.clients, id, role), ..old(self)@ }));
        }
    }

    /// One enqueue of the current record to every registered connection.
    /// A dead channel among them is the transport's business, not ours.
    pub fn broadcast_game_state(&self, board_data: GameState) -> (effects: Vec<Effect>)
        ensures
            effects@ == spec_broadcast(self@.clients, Message::GameStateBroadcast { board_data }),
    {
        let message = Message::GameStateBroadcast { board_data };
        let n = self.clients.len();
        let mut effects: Vec<Effect> = Vec::new();
        let mut i: usize = 0;
        while i < n
            invariant
                n == self.clients@.len(),
                0 <= i <= n,
                effects@ == spec_broadcast(self@.clients.take(i as int), message),
            decreases n - i,
        {
            effects.push(Effect::DirectMessage { to: self.clients[i].id, message: message.clone() });
            proof {
                assert(self@.clients.take(i + 1).drop_last() =~= self@.clients.take(i as int));
                assert(effects@ =~= spec_broadcast(self@.clients.take(i + 1), message));
            }
            i = i + 1;
        }
        proof {
            assert(self@.clients.take(n as int) =~= self@.clients);
        }
        effects
    }

    /// Master-only write of the record: stored, persisted, and broadcast.
    /// Anyone else's write is discarded without a trace.
    pub fn handle_game_state_update(&mut self, client_id: ClientId, board_data: GameState) -> (effects:
        Vec<Effect>)
        requires
            wf(old(self)@),
        ensures
            ({
                let (m2, effs) = spec_handle_game_state_update(old(self)@, client_id, board_data);
                final(self)@ == m2 && effects@ == effs
            }),
            wf(final(self)@),
    {
        let is_master = match self.master_client_id {
            Some(mid) => mid == client_id,
            None => false,
        };
        if !is_master {
            return Vec::new();
        }
        let mut effects: Vec<Effect> = Vec::new();
        effects.push(Effect::SaveRecord { record: board_data.clone() });
        let mut fanout = self.broadcast_game_state(board_data.clone());
        self.game_state = Some(board_data);
        effects.append(&mut fanout);
        proof {
            let (m2, effs) = spec_handle_game_state_update(old(self)@, client_id, board_data);
            assert(self@ =~= m2);
            assert(effects@ =~= effs);
        }
        effects
    }

    /// Promotion pass: elevate the eligible slave with the earliest
    /// `connected_at` (first-registered among equals), mint it the fresh
    /// token, and notify it alone; with no candidate, nothing happens.
    pub fn promote_next_slave(&mut self, exclude: Option<ClientId>, fresh_token: MasterToken) -> (effects:
        Vec<Effect>)
        requires
            wf(old(self)@),
            old(self)@.master_client_id is None,
            old(self)@.master_token_grace is None,
        ensures
            ({
                let (m2, effs) = spec_promote_next_slave(old(self)@, exclude, fresh_token);
                final(self)@ == m2 && effects@ == effs
            }),
            wf(final(self)@),
    {
        let n = self.clients.len();
        let mut best: Option<usize> = None;
        let mut i: usize = 0;
        while i < n
            invariant
                n == self.clients@.len(),
                0 <= i <= n,
                best_candidate(self.clients@.take(i as int), exclude) == (match best {
                    None => None::<int>,
                    Some(b) => Some(b as int),
                }),
                best is Some ==> best->0 < i,
            decreases n - i,
        {
            let c_role = self.clients[i].role;
            let c_eligible = c_role == ClientRole::Slave && is_operation(&self.clients[i].client_type)
                && (match exclude {
                Some(x) => self.clients[i].id != x,
                None => true,
            });
            proof {
                assert(self.clients@.take(i + 1).drop_last() =~= self.clients@.take(i as int));
                assert(self.clients@.take(i + 1).last() == self.clients@[i as int]);
            }
            if c_eligible {
                best = match best {
                    None => Some(i),
                    Some(b) => if self.clients[i].connected_at < self.clients[b].connected_at {
                        Some(i)
                    } else {
                        Some(b)
                    },
                };
            }
            i = i + 1;
        }
        proof {
            assert(self.clients@.take(n as int) =~= self.clients@);
        }
        match best {
            None => Vec::new(),
            Some(b) => {
                let new_id = self.clients[b].id;
                self.master_client_id = Some(new_id);
                self.master_token = Some(fresh_token.clone());
                self.set_role_by_id(new_id, ClientRole::Master);
                let mut effects: Vec<Effect> = Vec::new();
                effects.push(
                    Effect::DirectMessage {
                        to: new_id,
                        message: Message::RoleChanged {
                            new_role: ClientRole::Master,
                            client_id: new_id,
                            master_client_id: Some(new_id),
                            master_token: Some(fresh_token),
                            clear_token: None,
                        },
                    },
                );
                proof {
                    let (m2, effs) = spec_promote_next_slave(old(self)@, exclude, fresh_token);
                    assert(self@ =~= m2);
                    assert(effects@ =~= effs);
                    lemma_wf_promote(old(self)@, exclude, fresh_token);
                }
                effects
            },
        }
    }

    /// Voluntary release: only the master's release counts; the seat is
    /// vacated with no grace period, the releaser is demoted, and the
    /// promotion pass runs at once with the releaser excluded.
    pub fn handle_release_master(&mut self, client_id: ClientId, fresh_token: MasterToken) -> (effects:
        Vec<Effect>)
        requires
            wf(old(self)@),
        ensures
            ({
                let (m2, effs) = spec_handle_release_master(old(self)@, client_id, fresh_token);
                final(self)@ == m2 && effects@ == effs
            }),
            wf(final(self)@),
    {
        let is_master = match self.master_client_id {
            Some(mid) => mid == client_id,
            None => false,
        };
        if !is_master {
            return Vec::new();
        }
        self.master_client_id = None;
        self.master_token = None;
        self.master_token_grace = None;
        self.set_role_by_id(client_id, ClientRole::Slave);
        proof {
            lemma_wf_release_demote(old(self)@, client_id);
            assert(self@ =~= (Model {
                clients: set_role(old(self)@.clients, client_id, ClientRole::Slave),
                master_client_id: None,
                master_token: None,
                master_token_grace: None,
                ..old(self)@
            }));
        }
        let effects = self.promote_next_slave(Some(client_id), fresh_token);
        effects
    }

    /// Disconnect: drop the connection from the registry; a departing
    /// master leaves its token behind in a 5-second grace period, and
    /// the deferred expiry check is scheduled for that instant.
    pub fn handle_disconnect(&mut self, client_id: ClientId, now_ms: u64) -> (effects: Vec<Effect>)
        requires
            wf(old(self)@),
            now_ms + GRACE_PERIOD_MS <= u64::MAX,
        ensures
            ({
                let (m2, effs) = spec_handle_disconnect(old(self)@, client_id, now_ms);
                final(self)@ == m2 && effects@ == effs
            }),
            wf(final(self)@),
    {
        proof {
            lemma_idx_of(old(self)@.clients, client_id);
            lemma_wf_disconnect(old(self)@, client_id, now_ms);
        }
        let n = self.clients.len();
        let mut found: Option<usize> = None;
        let mut i: usize = 0;
        while i < n
            invariant
                n == self.clients@.len(),
                0 <= i <= n,
                match found {
                    None => forall|k: int| 0 <= k < i ==> self.clients@[k].id != client_id,
                    Some(f) => f < i && self.clients@[f as int].id == client_id && forall|k: int|
                        0 <= k < f ==> self.clients@[k].id != client_id,
                },
            decreases n - i,
        {
            if found.is_none() && self.clients[i].id == client_id {
                found = Some(i);
            }
            i = i + 1;
        }
        match found {
            None => {
                proof {
                    assert(idx_of(self.clients@, client_id) == self.clients@.len());
                }
                Vec::new()
            },
            Some(f) => {
                proof {
                    let ix = idx_of(self.clients@, client_id);
                    if ix < f as int {
                        assert(self.clients@[ix].id == client_id);
                        assert(false);
                    }
                    if (f as int) < ix {
                        assert(false);
                    }
                    assert(ix == f as int);
                }
                let _removed = self.clients.remove(f);
                let was_master = match self.master_client_id {
                    Some(mid) => mid == client_id,
                    None => false,
                };
                if was_master {
                    let token = match &self.master_token {
                        Some(t) => t.clone(),
                        None => {
                            proof {
                                assert(false);
                            }
                            String::new()
                        },
                    };
                    self.master_client_id = None;
                    self.master_token = None;
                    let expiry = now_ms + GRACE_PERIOD_MS;
                    self.master_token_grace = Some(
                        TokenGracePeriod { token, expires_at: expiry },
                    );
                    let mut effects: Vec<Effect> = Vec::new();
                    effects.push(Effect::ScheduleExpiryCheck { at_ms: expiry });
                    proof {
                        let (m2, effs) = spec_handle_disconnect(old(self)@, client_id, now_ms);
                        assert(self@ =~= m2);
                        assert(effects@ =~= effs);
                    }
                    effects
                } else {
                    proof {
                        let (m2, effs) = spec_handle_disconnect(old(self)@, client_id, now_ms);
                        assert(self@ =~= m2);
                    }
                    Vec::new()
                }
            },
        }
    }

    /// The deferred check: consume an expired, still-outstanding grace
    /// period and run promotion; in every other state it is a no-op, so
    /// firing it late or after a restoration is harmless.
    pub fn promote_if_grace_expired(&mut self, now_ms: u64, fresh_token: MasterToken) -> (effects:
        Vec<Effect>)
        requires
            wf(old(self)@),
        ensures
            ({
                let (m2, effs) = spec_promote_if_grace_expired(old(self)@, now_ms, fresh_token);
                final(self)@ == m2 && effects@ == effs
            }),
            wf(final(self)@),
    {
        let expired = match &self.master_token_grace {
            Some(g) => now_ms >= g.expires_at,
            None => false,
        };
        if expired {
            self.master_token_grace = None;
            proof {
                assert(self@ =~= (Model { master_token_grace: None, ..old(self)@ }));
                assert(wf(self@));
            }
            self.promote_next_slave(None, fresh_token)
        } else {
            Vec::new()
        }
    }

    /// Dispatch of one decoded inbound message. Server-to-client shapes
    /// arriving from a client are ignored, never fatal.
    pub fn handle_message(
        &mut self,
        client_id: ClientId,
        message: Message,
        now_ms: u64,
        fresh_token: MasterToken,
    ) -> (effects: Vec<Effect>)
        requires
            wf(old(self)@),
            message is Handshake ==> fresh_id(old(self)@, client_id),
        ensures
            ({
                let (m2, effs) = spec_handle_message(
                    old(self)@,
                    client_id,
                    message,
                    now_ms,
                    fresh_token,
                );
                final(self)@ == m2 && effects@ == effs
            }),
            wf(final(self)@),
    {
        match message {
            Message::Handshake { client_type, master_token } => self.handle_handshake(
                client_id,
                client_type,
                master_token,
                now_ms,
                fresh_token,
            ),
            Message::GameStateUpdate { board_data } => self.handle_game_state_update(
                client_id,
                board_data,
            ),
            Message::ReleaseMaster => self.handle_release_master(client_id, fresh_token),
            _ => Vec::new(),
        }
    }
}

} // verus!
