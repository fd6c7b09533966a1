use vstd::prelude::*;

use crate::model::best_candidate;
use crate::model::handshake_effects;
use crate::model::GRACE_PERIOD_MS;
use crate::model::count_masters;
use crate::model::eligible;
use crate::model::fresh_id;
use crate::model::idx_of;
use crate::model::ids_unique;
use crate::model::init_model;
use crate::model::op_kind;
use crate::model::set_role;
use crate::model::spec_determine_operation_role;
use crate::model::spec_handle_disconnect;
use crate::model::spec_handle_game_state_update;
use crate::model::spec_handle_handshake;
use crate::model::spec_handle_message;
use crate::model::spec_handle_release_master;
use crate::model::spec_promote_if_grace_expired;
use crate::model::spec_promote_next_slave;
use crate::model::wf;
use crate::model::Model;
use crate::protocol::Effect;
use crate::protocol::Message;
use crate::state::ClientId;
use crate::state::ClientInfo;
use crate::state::ClientRole;
use crate::state::MasterToken;
use crate::state::TokenGracePeriod;

verus! {

// The invariants hold of every reachable state by induction: the fresh
// store is well formed (`lemma_wf_init`), and each transition preserves
// well-formedness (the `lemma_wf_*` lemmas below, which the executable
// coordinator also uses to promise `wf` of its final state).

// ---------------------------------------------------------------------
// Helper lemmas about the spec-level registry operations.
// ---------------------------------------------------------------------

pub proof fn lemma_idx_of(cs: Seq<ClientInfo>, id: ClientId)
    ensures
        0 <= idx_of(cs, id) <= cs.len(),
        idx_of(cs, id) < cs.len() ==> cs[idx_of(cs, id)].id == id,
        idx_of(cs, id) < cs.len() ==> forall|j: int| 0 <= j < idx_of(cs, id) ==> cs[j].id != id,
        idx_of(cs, id) == cs.len() ==> forall|j: int| 0 <= j < cs.len() ==> cs[j].id != id,
    decreases cs.len(),
{
    if cs.len() == 0 {
    } else if cs[0].id == id {
    } else {
        lemma_idx_of(cs.drop_first(), id);
        assert(forall|k: int| 0 <= k < cs.len() - 1 ==> cs.drop_first()[k] == cs[k + 1]);
        assert forall|j: int| 1 <= j < idx_of(cs, id) && idx_of(cs, id) < cs.len() implies cs[j].id
            != id by {
            assert(cs.drop_first()[j - 1].id != id);
        }
        assert forall|j: int| 1 <= j < cs.len() && idx_of(cs, id) == cs.len() implies cs[j].id
            != id by {
            assert(cs.drop_first()[j - 1].id != id);
        }
    }
}

proof fn lemma_count_masters_zero(cs: Seq<ClientInfo>)
    requires
        forall|i: int| 0 <= i < cs.len() ==> cs[i].role != ClientRole::Master,
    ensures
        count_masters(cs) == 0,
    decreases cs.len(),
{
    if cs.len() > 0 {
        lemma_count_masters_zero(cs.drop_last());
    }
}

proof fn lemma_count_masters_pairwise(cs: Seq<ClientInfo>)
    requires
        forall|i: int, j: int| 0 <= i < j < cs.len() ==> !(cs[i].role == ClientRole::Master
            && cs[j].role == ClientRole::Master),
    ensures
        count_masters(cs) <= 1,
    decreases cs.len(),
{
    if cs.len() > 0 {
        let pre = cs.drop_last();
        if cs.last().role == ClientRole::Master {
            assert(forall|i: int| 0 <= i < pre.len() ==> pre[i].role != ClientRole::Master) by {
                assert(forall|i: int| 0 <= i < cs.len() - 1 ==> cs[i] == pre[i]);
            }
            lemma_count_masters_zero(pre);
        } else {
            lemma_count_masters_pairwise(pre);
        }
    }
}

// ---------------------------------------------------------------------
// The two reachable-state invariants.
// ---------------------------------------------------------------------

/// In every well-formed state the number of connections with role
/// `Master` is 0 or 1.
pub proof fn lemma_at_most_one_master(m: Model)
    requires
        wf(m),
    ensures
        count_masters(m.clients) <= 1,
{
    let cs = m.clients;
    assert forall|i: int, j: int| 0 <= i < j < cs.len() implies !(cs[i].role == ClientRole::Master
        && cs[j].role == ClientRole::Master) by {
        if cs[i].role == ClientRole::Master && cs[j].role == ClientRole::Master {
            assert(m.master_client_id == Some(cs[i].id));
            assert(m.master_client_id == Some(cs[j].id));
        }
    }
    lemma_count_masters_pairwise(cs);
}

/// In every well-formed state a grace period and a held seat never
/// coexist.
pub proof fn lemma_grace_excludes_held(m: Model)
    requires
        wf(m),
    ensures
        !(m.master_token_grace is Some && m.master_client_id is Some),
{
}

// ---------------------------------------------------------------------
// Promotion fairness.
// ---------------------------------------------------------------------

pub proof fn lemma_best_candidate(cs: Seq<ClientInfo>, ex: Option<ClientId>)
    ensures
        match best_candidate(cs, ex) {
            None => forall|i: int| 0 <= i < cs.len() ==> !eligible(cs[i], ex),
            Some(b) => {
                &&& 0 <= b < cs.len()
                &&& eligible(cs[b], ex)
                &&& forall|i: int| 0 <= i < cs.len() && eligible(cs[i], ex)
                    ==> cs[b].connected_at <= cs[i].connected_at
                &&& forall|i: int| 0 <= i < cs.len() && eligible(cs[i], ex) && cs[i].connected_at
                    == cs[b].connected_at ==> b <= i
            },
        },
    decreases cs.len(),
{
    if cs.len() > 0 {
        let pre = cs.drop_last();
        lemma_best_candidate(pre, ex);
        assert(forall|k: int| 0 <= k < cs.len() - 1 ==> pre[k] == cs[k]);
    }
}

/// Whenever promotion fires, the connection it elevates is an eligible
/// slave with the globally earliest `connected_at` (first-registered
/// among equals); with no eligible slave nothing changes.
pub proof fn lemma_promotion_picks_earliest(m: Model, ex: Option<ClientId>, fresh: MasterToken)
    ensures
        match best_candidate(m.clients, ex) {
            None => spec_promote_next_slave(m, ex, fresh) == (m, Seq::<Effect>::empty()),
            Some(b) => {
                &&& 0 <= b < m.clients.len()
                &&& eligible(m.clients[b], ex)
                &&& forall|i: int| 0 <= i < m.clients.len() && eligible(m.clients[i], ex)
                    ==> m.clients[b].connected_at <= m.clients[i].connected_at
                &&& spec_promote_next_slave(m, ex, fresh).0.master_client_id == Some(
                    m.clients[b].id,
                )
                &&& spec_promote_next_slave(m, ex, fresh).0.master_token == Some(fresh)
            },
        },
{
    lemma_best_candidate(m.clients, ex);
}

// ---------------------------------------------------------------------
// Preservation of well-formedness by every transition.
// ---------------------------------------------------------------------

pub proof fn lemma_wf_init()
    ensures
        wf(init_model()),
{
}

pub proof fn lemma_wf_handshake(
    m: Model,
    id: ClientId,
    client_type: String,
    provided: Option<MasterToken>,
    now_ms: u64,
    fresh_token: MasterToken,
)
    requires
        wf(m),
        fresh_id(m, id),
    ensures
        wf(spec_handle_handshake(m, id, client_type, provided, now_ms, fresh_token).0),
{
    let (m1, role) = if client_type@ == op_kind() {
        spec_determine_operation_role(m, id, provided, now_ms, fresh_token)
    } else {
        (m, ClientRole::Viewer)
    };
    let info = ClientInfo { id, role, client_type, connected_at: now_ms };
    let m2 = Model { clients: m1.clients.push(info), ..m1 };
    let cs = m.clients;
    let cs2 = m2.clients;
    assert(forall|k: int| 0 <= k < cs.len() ==> cs2[k] == cs[k]);
    assert(cs2[cs.len() as int] == info);
    if role == ClientRole::Master {
        // Either a grace restoration or a fresh claim of a vacant seat:
        // in both cases no previously registered connection was master.
        assert(m.master_client_id is None);
        assert(forall|k: int| #![auto] 0 <= k < cs.len() ==> cs[k].role != ClientRole::Master);
    }
    assert(wf(m2));
}

pub proof fn lemma_wf_game_update(m: Model, id: ClientId, record: crate::state::GameState)
    requires
        wf(m),
    ensures
        wf(spec_handle_game_state_update(m, id, record).0),
{
}

pub proof fn lemma_wf_promote(m: Model, ex: Option<ClientId>, fresh: MasterToken)
    requires
        wf(m),
        m.master_client_id is None,
        m.master_token_grace is None,
    ensures
        wf(spec_promote_next_slave(m, ex, fresh).0),
{
    lemma_best_candidate(m.clients, ex);
    match best_candidate(m.clients, ex) {
        None => {},
        Some(b) => {
            let new_id = m.clients[b].id;
            let cs2 = set_role(m.clients, new_id, ClientRole::Master);
            assert(forall|k: int| 0 <= k < cs2.len() ==> cs2[k].id == m.clients[k].id
                && cs2[k].client_type == m.clients[k].client_type);
            assert(forall|k: int| #![auto] 0 <= k < cs2.len() && m.clients[k].id != new_id
                ==> cs2[k] == m.clients[k]);
            assert(cs2[b].role == ClientRole::Master);
            assert(wf(spec_promote_next_slave(m, ex, fresh).0));
        },
    }
}

/// After a voluntary release demotes the master and vacates the seat,
/// the store is still well formed (the promotion pass then runs on it).
pub proof fn lemma_wf_release_demote(m: Model, id: ClientId)
    requires
        wf(m),
        m.master_client_id == Some(id),
    ensures
        wf(
            Model {
                clients: set_role(m.clients, id, ClientRole::Slave),
                master_client_id: None,
                master_token: None,
                master_token_grace: None,
                ..m
            },
        ),
{
    let cs1 = set_role(m.clients, id, ClientRole::Slave);
    assert(forall|k: int| 0 <= k < cs1.len() ==> cs1[k].id == m.clients[k].id
        && cs1[k].client_type == m.clients[k].client_type);
    assert(forall|k: int| #![auto] 0 <= k < cs1.len() && m.clients[k].id != id ==> cs1[k]
        == m.clients[k]);
    assert(forall|k: int| #![auto] 0 <= k < cs1.len() ==> cs1[k].role != ClientRole::Master);
}

pub proof fn lemma_wf_release(m: Model, id: ClientId, fresh: MasterToken)
    requires
        wf(m),
    ensures
        wf(spec_handle_release_master(m, id, fresh).0),
{
    if m.master_client_id == Some(id) {
        lemma_wf_release_demote(m, id);
        let m1 = Model {
            clients: set_role(m.clients, id, ClientRole::Slave),
            master_client_id: None,
            master_token: None,
            master_token_grace: None,
            ..m
        };
        lemma_wf_promote(m1, Some(id), fresh);
    }
}

pub proof fn lemma_wf_disconnect(m: Model, id: ClientId, now_ms: u64)
    requires
        wf(m),
    ensures
        wf(spec_handle_disconnect(m, id, now_ms).0),
{
    let cs = m.clients;
    lemma_idx_of(cs, id);
    let i = idx_of(cs, id);
    if i < cs.len() {
        let cs2 = cs.remove(i);
        assert(forall|k: int| 0 <= k < i ==> cs2[k] == cs[k]);
        assert(forall|k: int| i <= k < cs2.len() ==> cs2[k] == cs[k + 1]);
        assert(ids_unique(cs2));
        if m.master_client_id == Some(id) {
            assert(wf(spec_handle_disconnect(m, id, now_ms).0));
        } else {
            if m.master_client_id is Some {
                let x = m.master_client_id->0;
                let k = choose|k: int| 0 <= k < cs.len() && cs[k].id == x;
                assert(k != i);
                if k < i {
                    assert(cs2[k].id == x);
                } else {
                    assert(cs2[k - 1].id == x);
                }
            }
            assert(wf(spec_handle_disconnect(m, id, now_ms).0));
        }
    }
}

pub proof fn lemma_wf_expiry(m: Model, now_ms: u64, fresh: MasterToken)
    requires
        wf(m),
    ensures
        wf(spec_promote_if_grace_expired(m, now_ms, fresh).0),
{
    if m.master_token_grace is Some && now_ms >= m.master_token_grace->0.expires_at {
        let m1 = Model { master_token_grace: None, ..m };
        assert(wf(m1));
        lemma_wf_promote(m1, None, fresh);
    }
}

// ---------------------------------------------------------------------
// Reconnection, expiry, and release laws.
// ---------------------------------------------------------------------

/// Does this effect carry a promotion notice?
pub open spec fn is_role_changed(e: Effect) -> bool {
    match e {
        Effect::DirectMessage { message: Message::RoleChanged { .. }, .. } => true,
        _ => false,
    }
}

/// The connection a direct message is addressed to (0 for the others).
pub open spec fn effect_target(e: Effect) -> ClientId {
    match e {
        Effect::DirectMessage { to, .. } => to,
        _ => 0,
    }
}

/// If the master disconnects and a connection presents the same token
/// before the grace period ends, that connection regains `Master` with
/// the very same token, and no promotion notice is sent.
pub proof fn lemma_reconnection(
    m: Model,
    a: ClientId,
    d_now: u64,
    b: ClientId,
    client_type: String,
    presented: MasterToken,
    r_now: u64,
    fresh: MasterToken,
)
    requires
        wf(m),
        m.master_client_id == Some(a),
        client_type@ == op_kind(),
        presented@ == m.master_token->0@,
        d_now + GRACE_PERIOD_MS <= u64::MAX,
        r_now < d_now + GRACE_PERIOD_MS,
        fresh_id(spec_handle_disconnect(m, a, d_now).0, b),
    ensures
        ({
            let m1 = spec_handle_disconnect(m, a, d_now).0;
            let (m2, effs) = spec_handle_handshake(m1, b, client_type, Some(presented), r_now, fresh);
            &&& m2.master_client_id == Some(b)
            &&& m2.master_token == Some(presented)
            &&& m2.master_token->0@ == m.master_token->0@
            &&& m2.master_token_grace is None
            &&& m2.clients.last() == (ClientInfo {
                id: b,
                role: ClientRole::Master,
                client_type,
                connected_at: r_now,
            })
            &&& forall|i: int| 0 <= i < effs.len() ==> !is_role_changed(#[trigger] effs[i])
        }),
{
    lemma_idx_of(m.clients, a);
    let m1 = spec_handle_disconnect(m, a, d_now).0;
    assert(m1.master_token_grace == Some(
        TokenGracePeriod {
            token: m.master_token->0,
            expires_at: (d_now + GRACE_PERIOD_MS) as u64,
        },
    ));
    let (m2, effs) = spec_handle_handshake(m1, b, client_type, Some(presented), r_now, fresh);
    assert(effs == handshake_effects(m2, b, ClientRole::Master));
}

/// If the grace period has run out uncollected and an eligible slave
/// exists, the deferred check performs exactly one promotion: the seat
/// is filled by an earliest-connected eligible slave holding the fresh
/// token, and exactly one promotion notice goes out, to it alone.
pub proof fn lemma_expiry_promotes(m: Model, now_ms: u64, fresh: MasterToken)
    requires
        wf(m),
        m.master_token_grace is Some,
        now_ms >= m.master_token_grace->0.expires_at,
        exists|i: int| 0 <= i < m.clients.len() && eligible(#[trigger] m.clients[i], None),
    ensures
        ({
            let (m2, effs) = spec_promote_if_grace_expired(m, now_ms, fresh);
            &&& m2.master_token_grace is None
            &&& m2.master_token == Some(fresh)
            &&& m2.master_client_id is Some
            &&& exists|b: int|
                {
                    &&& 0 <= b < m.clients.len()
                    &&& eligible(#[trigger] m.clients[b], None)
                    &&& m2.master_client_id == Some(m.clients[b].id)
                    &&& forall|i: int| 0 <= i < m.clients.len() && eligible(
                        #[trigger] m.clients[i],
                        None,
                    ) ==> m.clients[b].connected_at <= m.clients[i].connected_at
                }
            &&& effs.len() == 1
            &&& is_role_changed(effs[0])
            &&& effect_target(effs[0]) == m2.master_client_id->0
        }),
{
    let m1 = Model { master_token_grace: None, ..m };
    lemma_best_candidate(m1.clients, None);
    let i0 = choose|i: int| 0 <= i < m.clients.len() && eligible(#[trigger] m.clients[i], None);
    match best_candidate(m1.clients, None) {
        None => {
            assert(!eligible(m1.clients[i0], None));
            assert(false);
        },
        Some(b) => {
            assert(0 <= b < m.clients.len() && eligible(m.clients[b], None)
                && spec_promote_if_grace_expired(m, now_ms, fresh).0.master_client_id == Some(
                m.clients[b].id,
            ) && forall|i: int| 0 <= i < m.clients.len() && eligible(#[trigger] m.clients[i], None)
                ==> m.clients[b].connected_at <= m.clients[i].connected_at);
        },
    }
}

/// Release by a connection that does not hold the seat has no observable
/// effect: the state is unchanged and nothing is sent.
pub proof fn lemma_release_non_master_noop(m: Model, id: ClientId, fresh: MasterToken)
    requires
        m.master_client_id != Some(id),
    ensures
        spec_handle_release_master(m, id, fresh) == (m, Seq::<Effect>::empty()),
{
}

pub proof fn lemma_wf_handle_message(
    m: Model,
    id: ClientId,
    msg: Message,
    now_ms: u64,
    fresh_token: MasterToken,
)
    requires
        wf(m),
        msg is Handshake ==> fresh_id(m, id),
    ensures
        wf(spec_handle_message(m, id, msg, now_ms, fresh_token).0),
{
    match msg {
        Message::Handshake { client_type, master_token } => {
            lemma_wf_handshake(m, id, client_type, master_token, now_ms, fresh_token);
        },
        Message::GameStateUpdate { board_data } => {
            lemma_wf_game_update(m, id, board_data);
        },
        Message::ReleaseMaster => {
            lemma_wf_release(m, id, fresh_token);
        },
        _ => {},
    }
}

} // verus!
