use scoreboard_sync::AppState;
use scoreboard_sync::ClientRole;
use scoreboard_sync::Effect;
use scoreboard_sync::GameState;
use scoreboard_sync::Message;

fn sample_game_state() -> GameState {
    GameState {
        game_inning: 1,
        top: true,
        first_base: false,
        second_base: false,
        third_base: false,
        ball_cnt: 0,
        strike_cnt: 0,
        out_cnt: 0,
        score_top: 0,
        score_bottom: 0,
        game_title: "Opening Game".to_string(),
        team_top: "Team A".to_string(),
        team_bottom: "Team B".to_string(),
        last_inning: 9,
    }
}

fn role_of(state: &AppState, id: u64) -> ClientRole {
    state.clients.iter().find(|c| c.id == id).expect("client registered").role
}

#[test]
fn test_websocket_handler_compiles() {
    // This test just ensures the module compiles correctly
    // Actual WebSocket testing would require integration tests
    assert!(true);
}

#[test]
fn test_first_operation_client_becomes_master() {
    let mut state = AppState::new();
    let a = state.next_client_id();
    let effects = state.handle_handshake(a, "operation".to_string(), None, 1_000, "T1".to_string());
    assert_eq!(state.master_client_id, Some(a));
    assert_eq!(state.master_token, Some("T1".to_string()));
    assert_eq!(role_of(&state, a), ClientRole::Master);
    assert_eq!(
        effects,
        vec![Effect::DirectMessage {
            to: a,
            message: Message::RoleAssignment {
                role: ClientRole::Master,
                client_id: a,
                master_client_id: Some(a),
                master_token: Some("T1".to_string()),
            },
        }]
    );
}

#[test]
fn test_non_operation_client_is_viewer() {
    let mut state = AppState::new();
    let a = state.next_client_id();
    let effects = state.handle_handshake(a, "display".to_string(), None, 1_000, "T1".to_string());
    assert!(state.master_client_id.is_none());
    assert_eq!(role_of(&state, a), ClientRole::Viewer);
    assert_eq!(effects.len(), 1);
}

#[test]
fn test_second_operation_client_is_slave() {
    let mut state = AppState::new();
    let a = state.next_client_id();
    state.handle_handshake(a, "operation".to_string(), None, 1_000, "T1".to_string());
    let b = state.next_client_id();
    let effects = state.handle_handshake(b, "operation".to_string(), None, 2_000, "T2".to_string());
    assert_eq!(role_of(&state, b), ClientRole::Slave);
    // A slave's role assignment carries the master's id but never a token.
    assert_eq!(
        effects,
        vec![Effect::DirectMessage {
            to: b,
            message: Message::RoleAssignment {
                role: ClientRole::Slave,
                client_id: b,
                master_client_id: Some(a),
                master_token: None,
            },
        }]
    );
}

#[test]
fn test_update_broadcasts_to_everyone() {
    let mut state = AppState::new();
    let a = state.next_client_id();
    state.handle_handshake(a, "operation".to_string(), None, 1_000, "T1".to_string());
    let b = state.next_client_id();
    state.handle_handshake(b, "operation".to_string(), None, 2_000, "T2".to_string());
    let v = state.next_client_id();
    state.handle_handshake(v, "display".to_string(), None, 3_000, "T3".to_string());

    let record = sample_game_state();
    let effects = state.handle_game_state_update(a, record.clone());
    assert_eq!(state.game_state, Some(record.clone()));
    let broadcast = Message::GameStateBroadcast { board_data: record.clone() };
    assert_eq!(
        effects,
        vec![
            Effect::SaveRecord { record },
            Effect::DirectMessage { to: a, message: broadcast.clone() },
            Effect::DirectMessage { to: b, message: broadcast.clone() },
            Effect::DirectMessage { to: v, message: broadcast },
        ]
    );
}

#[test]
fn test_update_from_non_master_is_dropped() {
    let mut state = AppState::new();
    let a = state.next_client_id();
    state.handle_handshake(a, "operation".to_string(), None, 1_000, "T1".to_string());
    let b = state.next_client_id();
    state.handle_handshake(b, "operation".to_string(), None, 2_000, "T2".to_string());

    let effects = state.handle_game_state_update(b, sample_game_state());
    assert!(effects.is_empty());
    assert!(state.game_state.is_none());
}

#[test]
fn test_reconnection_with_token_restores_master() {
    // Scenario: A is master with T1, B a slave; A disconnects; a new
    // connection presenting T1 inside the grace window regains the seat
    // with the same token, and B stays a slave.
    let mut state = AppState::new();
    let a = state.next_client_id();
    state.handle_handshake(a, "operation".to_string(), None, 1_000, "T1".to_string());
    let b = state.next_client_id();
    state.handle_handshake(b, "operation".to_string(), None, 2_000, "TB".to_string());
    let record = sample_game_state();
    state.handle_game_state_update(a, record.clone());

    let effects = state.handle_disconnect(a, 10_000);
    assert_eq!(effects, vec![Effect::ScheduleExpiryCheck { at_ms: 15_000 }]);
    assert!(state.master_client_id.is_none());
    let grace = state.master_token_grace.as_ref().expect("grace period installed");
    assert_eq!(grace.token, "T1".to_string());
    assert_eq!(grace.expires_at, 15_000);

    let c = state.next_client_id();
    let effects =
        state.handle_handshake(c, "operation".to_string(), Some("T1".to_string()), 14_000, "TX".to_string());
    assert_eq!(state.master_client_id, Some(c));
    assert_eq!(state.master_token, Some("T1".to_string()));
    assert!(state.master_token_grace.is_none());
    assert_eq!(role_of(&state, c), ClientRole::Master);
    assert_eq!(role_of(&state, b), ClientRole::Slave);
    // Role assignment plus the current record; no promotion notice.
    assert_eq!(
        effects,
        vec![
            Effect::DirectMessage {
                to: c,
                message: Message::RoleAssignment {
                    role: ClientRole::Master,
                    client_id: c,
                    master_client_id: Some(c),
                    master_token: Some("T1".to_string()),
                },
            },
            Effect::DirectMessage { to: c, message: Message::GameStateBroadcast { board_data: record } },
        ]
    );

    // The deferred check later finds the grace period gone and does nothing.
    let effects = state.promote_if_grace_expired(15_001, "TZ".to_string());
    assert!(effects.is_empty());
    assert_eq!(state.master_client_id, Some(c));
}

#[test]
fn test_wrong_token_joins_as_slave() {
    let mut state = AppState::new();
    let a = state.next_client_id();
    state.handle_handshake(a, "operation".to_string(), None, 1_000, "T1".to_string());
    state.handle_disconnect(a, 10_000);

    let c = state.next_client_id();
    state.handle_handshake(c, "operation".to_string(), Some("WRONG".to_string()), 11_000, "TX".to_string());
    assert_eq!(role_of(&state, c), ClientRole::Slave);
    assert!(state.master_client_id.is_none());
    assert!(state.master_token_grace.is_some());
}

#[test]
fn test_expiry_promotes_oldest_slave() {
    // Scenario: the master disconnects and nobody reconnects within the
    // grace period; the earliest-connected slave is promoted with a
    // fresh token and alone receives the notice.
    let mut state = AppState::new();
    let a = state.next_client_id();
    state.handle_handshake(a, "operation".to_string(), None, 1_000, "T1".to_string());
    let b = state.next_client_id();
    state.handle_handshake(b, "operation".to_string(), None, 2_000, "TB".to_string());
    let c = state.next_client_id();
    state.handle_handshake(c, "operation".to_string(), None, 3_000, "TC".to_string());

    state.handle_disconnect(a, 10_000);
    let effects = state.promote_if_grace_expired(15_000, "T2".to_string());
    assert_ne!("T2", "T1");
    assert_eq!(state.master_client_id, Some(b));
    assert_eq!(state.master_token, Some("T2".to_string()));
    assert!(state.master_token_grace.is_none());
    assert_eq!(role_of(&state, b), ClientRole::Master);
    assert_eq!(role_of(&state, c), ClientRole::Slave);
    assert_eq!(
        effects,
        vec![Effect::DirectMessage {
            to: b,
            message: Message::RoleChanged {
                new_role: ClientRole::Master,
                client_id: b,
                master_client_id: Some(b),
                master_token: Some("T2".to_string()),
                clear_token: None,
            },
        }]
    );
}

#[test]
fn test_promotion_prefers_earliest_connected_at() {
    // Eligibility goes by the handshake timestamp, not by arrival order.
    let mut state = AppState::new();
    let a = state.next_client_id();
    state.handle_handshake(a, "operation".to_string(), None, 1_000, "T1".to_string());
    let b = state.next_client_id();
    state.handle_handshake(b, "operation".to_string(), None, 9_000, "TB".to_string());
    let c = state.next_client_id();
    state.handle_handshake(c, "operation".to_string(), None, 4_000, "TC".to_string());
    let v = state.next_client_id();
    state.handle_handshake(v, "display".to_string(), None, 100, "TV".to_string());

    state.handle_disconnect(a, 10_000);
    state.promote_if_grace_expired(15_000, "T2".to_string());
    assert_eq!(state.master_client_id, Some(c));
    assert_eq!(role_of(&state, v), ClientRole::Viewer);
}

#[test]
fn test_expiry_with_no_slaves_leaves_seat_vacant() {
    let mut state = AppState::new();
    let a = state.next_client_id();
    state.handle_handshake(a, "operation".to_string(), None, 1_000, "T1".to_string());
    state.handle_disconnect(a, 10_000);
    let effects = state.promote_if_grace_expired(15_000, "T2".to_string());
    assert!(effects.is_empty());
    assert!(state.master_client_id.is_none());
    assert!(state.master_token.is_none());
    assert!(state.master_token_grace.is_none());

    // The next operation client then claims the vacant seat.
    let b = state.next_client_id();
    state.handle_handshake(b, "operation".to_string(), None, 20_000, "T3".to_string());
    assert_eq!(state.master_client_id, Some(b));
}

#[test]
fn test_release_promotes_other_slave_not_releaser() {
    // Scenario: A releases the seat; B is promoted at once, and A, now a
    // slave, is not re-promoted even though it connected first.
    let mut state = AppState::new();
    let a = state.next_client_id();
    state.handle_handshake(a, "operation".to_string(), None, 1_000, "T1".to_string());
    let b = state.next_client_id();
    state.handle_handshake(b, "operation".to_string(), None, 2_000, "TB".to_string());

    let effects = state.handle_release_master(a, "T2".to_string());
    assert_eq!(state.master_client_id, Some(b));
    assert_eq!(role_of(&state, a), ClientRole::Slave);
    assert_eq!(role_of(&state, b), ClientRole::Master);
    assert!(state.master_token_grace.is_none());
    assert_eq!(
        effects,
        vec![Effect::DirectMessage {
            to: b,
            message: Message::RoleChanged {
                new_role: ClientRole::Master,
                client_id: b,
                master_client_id: Some(b),
                master_token: Some("T2".to_string()),
                clear_token: None,
            },
        }]
    );
}

#[test]
fn test_release_with_no_successor_vacates_seat() {
    let mut state = AppState::new();
    let a = state.next_client_id();
    state.handle_handshake(a, "operation".to_string(), None, 1_000, "T1".to_string());
    let effects = state.handle_release_master(a, "T2".to_string());
    assert!(effects.is_empty());
    assert!(state.master_client_id.is_none());
    assert_eq!(role_of(&state, a), ClientRole::Slave);
}

#[test]
fn test_release_by_non_master_has_no_effect() {
    let mut state = AppState::new();
    let a = state.next_client_id();
    state.handle_handshake(a, "operation".to_string(), None, 1_000, "T1".to_string());
    let b = state.next_client_id();
    state.handle_handshake(b, "operation".to_string(), None, 2_000, "TB".to_string());

    let effects = state.handle_release_master(b, "T2".to_string());
    assert!(effects.is_empty());
    assert_eq!(state.master_client_id, Some(a));
    assert_eq!(state.master_token, Some("T1".to_string()));
    assert_eq!(role_of(&state, a), ClientRole::Master);
    assert_eq!(role_of(&state, b), ClientRole::Slave);
}

#[test]
fn test_slave_disconnect_changes_nothing_else() {
    let mut state = AppState::new();
    let a = state.next_client_id();
    state.handle_handshake(a, "operation".to_string(), None, 1_000, "T1".to_string());
    let b = state.next_client_id();
    state.handle_handshake(b, "operation".to_string(), None, 2_000, "TB".to_string());

    let effects = state.handle_disconnect(b, 5_000);
    assert!(effects.is_empty());
    assert_eq!(state.master_client_id, Some(a));
    assert!(state.master_token_grace.is_none());
    assert_eq!(state.clients.len(), 1);
}

#[test]
fn test_handle_message_dispatches() {
    let mut state = AppState::new();
    let a = state.next_client_id();
    let effects = state.handle_message(
        a,
        Message::Handshake { client_type: "operation".to_string(), master_token: None },
        1_000,
        "T1".to_string(),
    );
    assert_eq!(effects.len(), 1);
    assert_eq!(state.master_client_id, Some(a));

    // Server-to-client shapes arriving from a client are ignored.
    let effects = state.handle_message(
        a,
        Message::RoleChanged {
            new_role: ClientRole::Viewer,
            client_id: a,
            master_client_id: None,
            master_token: None,
            clear_token: None,
        },
        2_000,
        "T2".to_string(),
    );
    assert!(effects.is_empty());
    assert_eq!(state.master_client_id, Some(a));

    let effects = state.handle_message(a, Message::ReleaseMaster, 3_000, "T3".to_string());
    assert!(effects.is_empty());
    assert!(state.master_client_id.is_none());
}

#[test]
fn test_new_client_gets_current_record_on_handshake() {
    let mut state = AppState::new();
    let a = state.next_client_id();
    state.handle_handshake(a, "operation".to_string(), None, 1_000, "T1".to_string());
    let record = sample_game_state();
    state.handle_game_state_update(a, record.clone());

    let v = state.next_client_id();
    let effects = state.handle_handshake(v, "display".to_string(), None, 2_000, "TV".to_string());
    assert_eq!(effects.len(), 2);
    assert_eq!(
        effects[1],
        Effect::DirectMessage { to: v, message: Message::GameStateBroadcast { board_data: record } }
    );
}
