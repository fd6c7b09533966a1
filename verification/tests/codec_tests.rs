use scoreboard_sync::decode_message;
use scoreboard_sync::encode_message;
use scoreboard_sync::ClientRole;
use scoreboard_sync::GameState;
use scoreboard_sync::Message;

fn sample_game_state() -> GameState {
    GameState {
        game_inning: 5,
        top: true,
        first_base: false,
        second_base: true,
        third_base: false,
        ball_cnt: 2,
        strike_cnt: 1,
        out_cnt: 0,
        score_top: 3,
        score_bottom: 2,
        game_title: "Test Game".to_string(),
        team_top: "Team A".to_string(),
        team_bottom: "Team B".to_string(),
        last_inning: 9,
    }
}

#[test]
fn test_handshake_message_serialization() {
    let msg = Message::Handshake {
        client_type: "operation".to_string(),
        master_token: Some("test-token-123".to_string()),
    };

    let json = encode_message(&msg);
    assert!(json.contains("\"type\":\"handshake\""));
    assert!(json.contains("\"clientType\":\"operation\""));
    assert!(json.contains("\"masterToken\":\"test-token-123\""));
}

#[test]
fn test_handshake_message_deserialization() {
    let json = r#"{
            "type": "handshake",
            "clientType": "operation",
            "masterToken": "test-token-123"
        }"#;

    let msg: Message = decode_message(json).unwrap();
    match msg {
        Message::Handshake { client_type, master_token } => {
            assert_eq!(client_type, "operation");
            assert_eq!(master_token, Some("test-token-123".to_string()));
        }
        _ => panic!("Expected Handshake message"),
    }
}

#[test]
fn test_role_assignment_message() {
    let msg = Message::RoleAssignment {
        role: ClientRole::Master,
        client_id: 123,
        master_client_id: Some(123),
        master_token: Some("master-token".to_string()),
    };

    let json = encode_message(&msg);
    let deserialized: Message = decode_message(&json).unwrap();

    match deserialized {
        Message::RoleAssignment { role, client_id, .. } => {
            assert_eq!(role, ClientRole::Master);
            assert_eq!(client_id, 123);
        }
        _ => panic!("Expected RoleAssignment message"),
    }
}

#[test]
fn test_game_state_update_message() {
    let game_state = sample_game_state();

    let msg = Message::GameStateUpdate {
        board_data: game_state.clone(),
    };

    let json = encode_message(&msg);
    assert!(json.contains("\"type\":\"game_state_update\""));
    assert!(json.contains("\"boardData\""));

    let deserialized: Message = decode_message(&json).unwrap();
    match deserialized {
        Message::GameStateUpdate { board_data } => {
            assert_eq!(board_data, game_state);
        }
        _ => panic!("Expected GameStateUpdate message"),
    }
}

#[test]
fn test_release_master_message() {
    let msg = Message::ReleaseMaster;
    let json = encode_message(&msg);
    assert_eq!(json, "{\"type\":\"release_master\"}");

    let deserialized: Message = decode_message(&json).unwrap();
    assert!(matches!(deserialized, Message::ReleaseMaster));
}

#[test]
fn test_game_state_serialization() {
    let game_state = GameState {
        game_inning: 5,
        top: true,
        first_base: false,
        second_base: true,
        third_base: false,
        ball_cnt: 2,
        strike_cnt: 1,
        out_cnt: 0,
        score_top: 3,
        score_bottom: 2,
        game_title: "夏季大会".to_string(),
        team_top: "横浜M".to_string(),
        team_bottom: "静岡D".to_string(),
        last_inning: 9,
    };

    let json = encode_message(&Message::GameStateUpdate { board_data: game_state.clone() });
    let deserialized: Message = decode_message(&json).unwrap();

    match deserialized {
        Message::GameStateUpdate { board_data } => assert_eq!(game_state, board_data),
        _ => panic!("Expected GameStateUpdate message"),
    }
}

#[test]
fn test_role_changed_round_trip() {
    let msg = Message::RoleChanged {
        new_role: ClientRole::Master,
        client_id: u64::MAX,
        master_client_id: None,
        master_token: Some("t".to_string()),
        clear_token: Some(true),
    };
    let json = encode_message(&msg);
    assert!(json.contains("\"type\":\"role_changed\""));
    assert!(json.contains("\"newRole\":\"master\""));
    assert!(json.contains("\"masterClientId\":null"));
    assert_eq!(decode_message(&json).unwrap(), msg);
}

#[test]
fn test_game_state_broadcast_round_trip() {
    let mut gs = sample_game_state();
    gs.game_inning = -3;
    gs.score_bottom = i32::MIN;
    gs.score_top = i32::MAX;
    let msg = Message::GameStateBroadcast { board_data: gs };
    let json = encode_message(&msg);
    assert!(json.contains("\"type\":\"game_state\""));
    assert!(json.contains("\"game_inning\":-3"));
    assert!(json.contains("\"score_bottom\":-2147483648"));
    assert!(json.contains("\"score_top\":2147483647"));
    assert_eq!(decode_message(&json).unwrap(), msg);
}

#[test]
fn test_escaped_strings_round_trip() {
    let mut gs = sample_game_state();
    gs.game_title = "a \"quoted\" name\\with\nnewline\tand tab".to_string();
    gs.team_top = String::new();
    let msg = Message::GameStateUpdate { board_data: gs.clone() };
    let json = encode_message(&msg);
    assert!(json.contains("a \\\"quoted\\\" name\\\\with\\nnewline\\tand tab"));
    match decode_message(&json).unwrap() {
        Message::GameStateUpdate { board_data } => assert_eq!(board_data, gs),
        _ => panic!("Expected GameStateUpdate message"),
    }
}

#[test]
fn test_handshake_without_token() {
    let msg = Message::Handshake {
        client_type: "display".to_string(),
        master_token: None,
    };
    let json = encode_message(&msg);
    assert!(json.contains("\"masterToken\":null"));
    assert_eq!(decode_message(&json).unwrap(), msg);

    // The token field may also be absent entirely.
    let short = "{\"type\":\"handshake\",\"clientType\":\"display\"}";
    assert_eq!(decode_message(short).unwrap(), msg);
}

#[test]
fn test_decode_rejects_malformed() {
    assert!(decode_message("").is_none());
    assert!(decode_message("not json at all").is_none());
    assert!(decode_message("{\"type\":\"unknown_kind\"}").is_none());
    assert!(decode_message("{\"type\":\"release_master\"").is_none());
    assert!(decode_message("{\"type\":\"release_master\"} trailing").is_none());
    assert!(decode_message("{\"type\":\"handshake\",\"clientType\":42}").is_none());
}

#[test]
fn test_decode_accepts_trailing_whitespace() {
    let msg = decode_message("  {\"type\":\"release_master\"}  \n").unwrap();
    assert!(matches!(msg, Message::ReleaseMaster));
}
