use vstd::prelude::*;

pub mod codec;
pub mod coordinator;
pub mod json;
pub mod laws;
pub mod model;
pub mod protocol;
pub mod state;

pub use codec::decode_message;
pub use codec::encode_message;
pub use model::GRACE_PERIOD_MS;
pub use protocol::Effect;
pub use protocol::Message;
pub use state::AppState;
pub use state::ClientId;
pub use state::ClientInfo;
pub use state::ClientRole;
pub use state::GameState;
pub use state::MasterToken;
pub use state::TokenGracePeriod;

verus! {

} // verus!
