use scoreboard_sync::AppState;

#[test]
fn test_app_state_initialization() {
    let state = AppState::new();
    assert!(state.clients.is_empty());
    assert!(state.game_state.is_none());
    assert!(state.master_client_id.is_none());
    assert!(state.master_token.is_none());
    assert_eq!(state.client_counter, 1);
}

#[test]
fn test_generate_master_token() {
    let token1 = AppState::generate_master_token();
    let token2 = AppState::generate_master_token();

    // Tokens should be non-empty
    assert!(!token1.is_empty());
    assert!(!token2.is_empty());

    // Tokens should be unique
    assert_ne!(token1, token2);

    // Token should be valid UUID format
    assert!(uuid::Uuid::parse_str(&token1).is_ok());
}

#[test]
fn test_generated_token_length() {
    let token = AppState::generate_master_token();
    assert_eq!(token.chars().count(), 36);
}

#[test]
fn test_default_matches_new() {
    let state = AppState::default();
    assert!(state.clients.is_empty());
    assert!(state.game_state.is_none());
    assert!(state.master_client_id.is_none());
    assert!(state.master_token.is_none());
    assert!(state.master_token_grace.is_none());
    assert_eq!(state.client_counter, 1);
}

#[test]
fn test_next_client_id_is_monotonic() {
    let mut state = AppState::new();
    let a = state.next_client_id();
    let b = state.next_client_id();
    let c = state.next_client_id();
    assert_eq!(a, 1);
    assert_eq!(b, 2);
    assert_eq!(c, 3);
    assert_eq!(state.client_counter, 4);
    // Handed out but not yet registered: still free to register.
    assert!(state.is_fresh_id(a));
    // Never handed out: not free.
    assert!(!state.is_fresh_id(state.client_counter));
}
