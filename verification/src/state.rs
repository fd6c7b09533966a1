use vstd::prelude::*;

verus! {

/// A process-unique, monotonically increasing connection identifier.
pub type ClientId = u64;

/// The opaque reconnection token a master holds.
pub type MasterToken = String;

/// The role a connection holds at any instant.
#[derive(Debug, Clone, Copy, PartialEq, Eq, Structural)]
pub enum ClientRole {
    Master,
    Slave,
    Viewer,
}

/// Per-connection metadata held by the registry. The outbound channel
/// itself lives with the transport layer; the registry only records the
/// data the coordinator decides on.
#[derive(Debug)]
pub struct ClientInfo {
    pub id: ClientId,
    pub role: ClientRole,
    pub client_type: String,
    /// Monotonic timestamp, in milliseconds, taken at handshake.
    pub connected_at: u64,
}

/// The synchronized record: an opaque, equality-comparable scoreboard.
#[derive(Debug, PartialEq)]
pub struct GameState {
    pub game_inning: i32,
    pub top: bool,
    pub first_base: bool,
    pub second_base: bool,
    pub third_base: bool,
    pub ball_cnt: i32,
    pub strike_cnt: i32,
    pub out_cnt: i32,
    pub score_top: i32,
    pub score_bottom: i32,
    pub game_title: String,
    pub team_top: String,
    pub team_bottom: String,
    pub last_inning: i32,
}

impl Clone for GameState {
    /// A clone is equal to the original, field for field.
    fn clone(&self) -> (r: Self)
        ensures
            r == *self,
    {
        GameState {
            game_inning: self.game_inning,
            top: self.top,
            first_base: self.first_base,
            second_base: self.second_base,
            third_base: self.third_base,
            ball_cnt: self.ball_cnt,
            strike_cnt: self.strike_cnt,
            out_cnt: self.out_cnt,
            score_top: self.score_top,
            score_bottom: self.score_bottom,
            game_title: self.game_title.clone(),
            team_top: self.team_top.clone(),
            team_bottom: self.team_bottom.clone(),
            last_inning: self.last_inning,
        }
    }
}

/// The single outstanding grace period: while it lives, presenting the
/// stored token restores master status to a reconnecting client.
#[derive(Debug)]
pub struct TokenGracePeriod {
    pub token: MasterToken,
    /// Expiry instant, in the same millisecond clock as `connected_at`.
    pub expires_at: u64,
}

impl Clone for TokenGracePeriod {
    fn clone(&self) -> (r: Self)
        ensures
            r == *self,
    {
        TokenGracePeriod { token: self.token.clone(), expires_at: self.expires_at }
    }
}

/// The shared state store: client registry, seat state, and the record.
/// All mutation is serialized through one owner of this value.
pub struct AppState {
    pub clients: Vec<ClientInfo>,
    pub game_state: Option<GameState>,
    pub master_client_id: Option<ClientId>,
    pub master_token: Option<MasterToken>,
    pub master_token_grace: Option<TokenGracePeriod>,
    pub client_counter: u64,
}

impl AppState {
    /// A fresh store: no clients, no record, a vacant seat, counter at 1.
    pub fn new() -> (s: Self)
        ensures
            s.clients@ =~= Seq::<ClientInfo>::empty(),
            s.game_state is None,
            s.master_client_id is None,
            s.master_token is None,
            s.master_token_grace is None,
            s.client_counter == 1,
    {
        AppState {
            clients: Vec::new(),
            game_state: None,
            master_client_id: None,
            master_token: None,
            master_token_grace: None,
            client_counter: 1,
        }
    }

    /// Mints the opaque token handed to a newly elected master.
    ///
    /// Relies on `uuid::Uuid::new_v4` and its `Display` impl: a version-4
    /// UUID rendered in the hyphenated form, which is 36 characters long.
    /// The value is random, so nothing relates two calls.
    #[verifier::external_body]
    pub fn generate_master_token() -> (r: MasterToken)
        ensures
            r@.len() == 36,
    {
        uuid::Uuid::new_v4().to_string()
    }
}

impl Default for AppState {
    fn default() -> (s: Self)
        ensures
            s.clients@ =~= Seq::<ClientInfo>::empty(),
            s.game_state is None,
            s.master_client_id is None,
            s.master_token is None,
            s.master_token_grace is None,
            s.client_counter == 1,
    {
        Self::new()
    }
}

} // verus!
