use vstd::prelude::*;
use vstd::string::StringExecFns;

use crate::json::append_bool;
use crate::json::append_i32;
use crate::json::append_opt_bool;
use crate::json::append_opt_str;
use crate::json::append_opt_u64;
use crate::json::append_plain_quoted;
use crate::json::append_quoted;
use crate::json::append_u64;
use crate::json::chars_of;
use crate::json::dec_i32;
use crate::json::dec_u64;
use crate::json::enc_bool;
use crate::json::enc_field;
use crate::json::enc_opt_bool;
use crate::json::enc_opt_str;
use crate::json::enc_opt_u64;
use crate::json::is_digit;
use crate::json::is_esc_special;
use crate::json::is_ws_char;
use crate::json::lemma_bool_roundtrip;
use crate::json::lemma_flat2;
use crate::json::lemma_flat3;
use crate::json::lemma_flat4;
use crate::json::lemma_flat6;
use crate::json::lemma_flat7;
use crate::json::lemma_flat9;
use crate::json::lemma_field_prefix;
use crate::json::lemma_i32_roundtrip;
use crate::json::lemma_opt_bool_roundtrip;
use crate::json::lemma_opt_str_roundtrip;
use crate::json::lemma_opt_u64_roundtrip;
use crate::json::lemma_string_roundtrip;
use crate::json::lemma_tok_prefix;
use crate::json::lemma_u64_roundtrip;
use crate::json::lemma_ws_plain;
use crate::json::opt_str_view;
use crate::json::p_bool;
use crate::json::p_field;
use crate::json::p_i32;
use crate::json::p_opt_bool;
use crate::json::p_opt_str;
use crate::json::p_opt_u64;
use crate::json::p_string;
use crate::json::p_u64;
use crate::json::push_char;
use crate::json::quoted;
use crate::json::tok;
use crate::json::ws;
use crate::json::x_bool;
use crate::json::x_field;
use crate::json::x_i32;
use crate::json::x_opt_bool;
use crate::json::x_opt_str;
use crate::json::x_opt_u64;
use crate::json::x_string;
use crate::json::x_tok;
use crate::json::x_u64;
use crate::json::x_ws;
use crate::protocol::Message;
use crate::state::ClientRole;
use crate::state::GameState;

verus! {

// ---------------------------------------------------------------------
// The mathematical form of the wire messages: text as character
// sequences, everything else as itself.
// ---------------------------------------------------------------------

pub struct SpecGameState {
    pub game_inning: i32,
    pub top: bool,
    pub first_base: bool,
    pub second_base: bool,
    pub third_base: bool,
    pub ball_cnt: i32,
    pub strike_cnt: i32,
    pub out_cnt: i32,
    pub score_top: i32,
    pub score_bottom: i32,
    pub game_title: Seq<char>,
    pub team_top: Seq<char>,
    pub team_bottom: Seq<char>,
    pub last_inning: i32,
}

pub enum SpecMessage {
    Handshake { client_type: Seq<char>, master_token: Option<Seq<char>> },
    RoleAssignment {
        role: ClientRole,
        client_id: u64,
        master_client_id: Option<u64>,
        master_token: Option<Seq<char>>,
    },
    RoleChanged {
        new_role: ClientRole,
        client_id: u64,
        master_client_id: Option<u64>,
        master_token: Option<Seq<char>>,
        clear_token: Option<bool>,
    },
    GameStateUpdate { board_data: SpecGameState },
    GameStateBroadcast { board_data: SpecGameState },
    ReleaseMaster,
}

impl View for GameState {
    type V = SpecGameState;

    open spec fn view(&self) -> SpecGameState {
        SpecGameState {
            game_inning: self.game_inning,
            top: self.top,
            first_base: self.first_base,
            second_base: self.second_base,
            third_base: self.third_base,
            ball_cnt: self.ball_cnt,
            strike_cnt: self.strike_cnt,
            out_cnt: self.out_cnt,
            score_top: self.score_top,
            score_bottom: self.score_bottom,
            game_title: self.game_title@,
            team_top: self.team_top@,
            team_bottom: self.team_bottom@,
            last_inning: self.last_inning,
        }
    }
}

impl View for Message {
    type V = SpecMessage;

    open spec fn view(&self) -> SpecMessage {
        match self {
            Message::Handshake { client_type, master_token } => SpecMessage::Handshake {
                client_type: client_type@,
                master_token: opt_str_view(*master_token),
            },
            Message::RoleAssignment { role, client_id, master_client_id, master_token } => SpecMessage::RoleAssignment {
                role: *role,
                client_id: *client_id,
                master_client_id: *master_client_id,
                master_token: opt_str_view(*master_token),
            },
            Message::RoleChanged {
                new_role,
                client_id,
                master_client_id,
                master_token,
                clear_token,
            } => SpecMessage::RoleChanged {
                new_role: *new_role,
                client_id: *client_id,
                master_client_id: *master_client_id,
                master_token: opt_str_view(*master_token),
                clear_token: *clear_token,
            },
            Message::GameStateUpdate { board_data } => SpecMessage::GameStateUpdate {
                board_data: board_data@,
            },
            Message::GameStateBroadcast { board_data } => SpecMessage::GameStateBroadcast {
                board_data: board_data@,
            },
            Message::ReleaseMaster => SpecMessage::ReleaseMaster,
        }
    }
}

// ---------------------------------------------------------------------
// What the encoder emits.
// ---------------------------------------------------------------------

pub open spec fn enc_role(r: ClientRole) -> Seq<char> {
    match r {
        ClientRole::Master => quoted("master"@),
        ClientRole::Slave => quoted("slave"@),
        ClientRole::Viewer => quoted("viewer"@),
    }
}

pub open spec fn enc_gs_head(g: SpecGameState) -> Seq<char> {
    enc_field('{', "\"game_inning\""@, dec_i32(g.game_inning as int)) + enc_field(
        ',',
        "\"top\""@,
        enc_bool(g.top),
    ) + enc_field(',', "\"first_base\""@, enc_bool(g.first_base)) + enc_field(
        ',',
        "\"second_base\""@,
        enc_bool(g.second_base),
    ) + enc_field(',', "\"third_base\""@, enc_bool(g.third_base)) + enc_field(
        ',',
        "\"ball_cnt\""@,
        dec_i32(g.ball_cnt as int),
    ) + enc_field(',', "\"strike_cnt\""@, dec_i32(g.strike_cnt as int))
}

pub open spec fn enc_gs(g: SpecGameState) -> Seq<char> {
    enc_gs_head(g) + enc_field(',', "\"out_cnt\""@, dec_i32(g.out_cnt as int)) + enc_field(
        ',',
        "\"score_top\""@,
        dec_i32(g.score_top as int),
    ) + enc_field(',', "\"score_bottom\""@, dec_i32(g.score_bottom as int)) + enc_field(
        ',',
        "\"game_title\""@,
        quoted(g.game_title),
    ) + enc_field(',', "\"team_top\""@, quoted(g.team_top)) + enc_field(
        ',',
        "\"team_bottom\""@,
        quoted(g.team_bottom),
    ) + enc_field(',', "\"last_inning\""@, dec_i32(g.last_inning as int)) + seq!['}']
}

/// The canonical text of each message: the `type` tag first, then the
/// fields in their fixed order, without whitespace.
pub open spec fn enc_msg(m: SpecMessage) -> Seq<char> {
    match m {
        SpecMessage::Handshake { client_type, master_token } => enc_field(
            '{',
            "\"type\""@,
            quoted("handshake"@),
        ) + enc_field(',', "\"clientType\""@, quoted(client_type)) + enc_field(
            ',',
            "\"masterToken\""@,
            enc_opt_str(master_token),
        ) + seq!['}'],
        SpecMessage::RoleAssignment { role, client_id, master_client_id, master_token } => enc_field(
            '{',
            "\"type\""@,
            quoted("role_assignment"@),
        ) + enc_field(',', "\"role\""@, enc_role(role)) + enc_field(
            ',',
            "\"clientId\""@,
            dec_u64(client_id as nat),
        ) + enc_field(',', "\"masterClientId\""@, enc_opt_u64(master_client_id)) + enc_field(
            ',',
            "\"masterToken\""@,
            enc_opt_str(master_token),
        ) + seq!['}'],
        SpecMessage::RoleChanged {
            new_role,
            client_id,
            master_client_id,
            master_token,
            clear_token,
        } => enc_field('{', "\"type\""@, quoted("role_changed"@)) + enc_field(
            ',',
            "\"newRole\""@,
            enc_role(new_role),
        ) + enc_field(',', "\"clientId\""@, dec_u64(client_id as nat)) + enc_field(
            ',',
            "\"masterClientId\""@,
            enc_opt_u64(master_client_id),
        ) + enc_field(',', "\"masterToken\""@, enc_opt_str(master_token)) + enc_field(
            ',',
            "\"clearToken\""@,
            enc_opt_bool(clear_token),
        ) + seq!['}'],
        SpecMessage::GameStateUpdate { board_data } => enc_field(
            '{',
            "\"type\""@,
            quoted("game_state_update"@),
        ) + enc_field(',', "\"boardData\""@, enc_gs(board_data)) + seq!['}'],
        SpecMessage::GameStateBroadcast { board_data } => enc_field(
            '{',
            "\"type\""@,
            quoted("game_state"@),
        ) + enc_field(',', "\"boardData\""@, enc_gs(board_data)) + seq!['}'],
        SpecMessage::ReleaseMaster => enc_field('{', "\"type\""@, quoted("release_master"@))
            + seq!['}'],
    }
}

// ---------------------------------------------------------------------
// What the decoder accepts: the same shapes, with whitespace between
// tokens, and the handshake's token field allowed to be absent.
// ---------------------------------------------------------------------

pub open spec fn p_str_field(s: Seq<char>, lead: char, name: Seq<char>) -> Option<
    (Seq<char>, Seq<char>),
> {
    match p_field(s, lead, name) {
        None => None,
        Some(s1) => p_string(s1),
    }
}

pub open spec fn p_i32_field(s: Seq<char>, lead: char, name: Seq<char>) -> Option<
    (i32, Seq<char>),
> {
    match p_field(s, lead, name) {
        None => None,
        Some(s1) => p_i32(s1),
    }
}

pub open spec fn p_bool_field(s: Seq<char>, lead: char, name: Seq<char>) -> Option<
    (bool, Seq<char>),
> {
    match p_field(s, lead, name) {
        None => None,
        Some(s1) => p_bool(s1),
    }
}

pub open spec fn p_role(s: Seq<char>) -> Option<(ClientRole, Seq<char>)> {
    match p_string(s) {
        None => None,
        Some((sv, r)) => if sv == "master"@ {
            Some((ClientRole::Master, r))
        } else if sv == "slave"@ {
            Some((ClientRole::Slave, r))
        } else if sv == "viewer"@ {
            Some((ClientRole::Viewer, r))
        } else {
            None
        },
    }
}

pub open spec fn p_gs(s: Seq<char>) -> Option<(SpecGameState, Seq<char>)> {
    match p_i32_field(s, '{', "\"game_inning\""@) {
        None => None,
        Some((game_inning, s)) => match p_bool_field(s, ',', "\"top\""@) {
            None => None,
            Some((top, s)) => match p_bool_field(s, ',', "\"first_base\""@) {
                None => None,
                Some((first_base, s)) => match p_bool_field(s, ',', "\"second_base\""@) {
                    None => None,
                    Some((second_base, s)) => match p_bool_field(s, ',', "\"third_base\""@) {
                        None => None,
                        Some((third_base, s)) => match p_i32_field(s, ',', "\"ball_cnt\""@) {
                            None => None,
                            Some((ball_cnt, s)) => match p_i32_field(s, ',', "\"strike_cnt\""@) {
                                None => None,
                                Some((strike_cnt, s)) => match p_i32_field(
                                    s,
                                    ',',
                                    "\"out_cnt\""@,
                                ) {
                                    None => None,
                                    Some((out_cnt, s)) => match p_i32_field(
                                        s,
                                        ',',
                                        "\"score_top\""@,
                                    ) {
                                        None => None,
                                        Some((score_top, s)) => match p_i32_field(
                                            s,
                                            ',',
                                            "\"score_bottom\""@,
                                        ) {
                                            None => None,
                                            Some((score_bottom, s)) => match p_str_field(
                                                s,
                                                ',',
                                                "\"game_title\""@,
                                            ) {
                                                None => None,
                                                Some((game_title, s)) => match p_str_field(
                                                    s,
                                                    ',',
                                                    "\"team_top\""@,
                                                ) {
                                                    None => None,
                                                    Some((team_top, s)) => match p_str_field(
                                                        s,
                                                        ',',
                                                        "\"team_bottom\""@,
                                                    ) {
                                                        None => None,
                                                        Some((team_bottom, s)) => match p_i32_field(
                                                            s,
                                                            ',',
                                                            "\"last_inning\""@,
                                                        ) {
                                                            None => None,
                                                            Some((last_inning, s)) => match tok(
                                                                s,
                                                                '}',
                                                            ) {
                                                                None => None,
                                                                Some(s) => Some(
                                                                    (
                                                                        SpecGameState {
                                                                            game_inning,
                                                                            top,
                                                                            first_base,
                                                                            second_base,
                                                                            third_base,
                                                                            ball_cnt,
                                                                            strike_cnt,
                                                                            out_cnt,
                                                                            score_top,
                                                                            score_bottom,
                                                                            game_title,
                                                                            team_top,
                                                                            team_bottom,
                                                                            last_inning,
                                                                        },
                                                                        s,
                                                                    ),
                                                                ),
                                                            },
                                                        },
                                                    },
                                                },
                                            },
                                        },
                                    },
                                },
                            },
                        },
                    },
                },
            },
        },
    }
}

pub open spec fn p_handshake_body(s: Seq<char>) -> Option<(SpecMessage, Seq<char>)> {
    match p_str_field(s, ',', "\"clientType\""@) {
        None => None,
        Some((client_type, s1)) => match tok(s1, '}') {
            Some(r) => Some((SpecMessage::Handshake { client_type, master_token: None }, r)),
            None => match p_field(s1, ',', "\"masterToken\""@) {
                None => None,
                Some(s2) => match p_opt_str(s2) {
                    None => None,
                    Some((master_token, s3)) => match tok(s3, '}') {
                        None => None,
                        Some(r) => Some(
                            (SpecMessage::Handshake { client_type, master_token }, r),
                        ),
                    },
                },
            },
        },
    }
}

pub open spec fn p_role_assignment_body(s: Seq<char>) -> Option<(SpecMessage, Seq<char>)> {
    match p_field(s, ',', "\"role\""@) {
        None => None,
        Some(s1) => match p_role(s1) {
            None => None,
            Some((role, s2)) => match p_field(s2, ',', "\"clientId\""@) {
                None => None,
                Some(s3) => match p_u64(s3) {
                    None => None,
                    Some((client_id, s4)) => match p_field(s4, ',', "\"masterClientId\""@) {
                        None => None,
                        Some(s5) => match p_opt_u64(s5) {
                            None => None,
                            Some((master_client_id, s6)) => match p_field(
                                s6,
                                ',',
                                "\"masterToken\""@,
                            ) {
                                None => None,
                                Some(s7) => match p_opt_str(s7) {
                                    None => None,
                                    Some((master_token, s8)) => match tok(s8, '}') {
                                        None => None,
                                        Some(r) => Some(
                                            (
                                                SpecMessage::RoleAssignment {
                                                    role,
                                                    client_id,
                                                    master_client_id,
                                                    master_token,
                                                },
                                                r,
                                            ),
                                        ),
                                    },
                                },
                            },
                        },
                    },
                },
            },
        },
    }
}

pub open spec fn p_role_changed_body(s: Seq<char>) -> Option<(SpecMessage, Seq<char>)> {
    match p_field(s, ',', "\"newRole\""@) {
        None => None,
        Some(s1) => match p_role(s1) {
            None => None,
            Some((new_role, s2)) => match p_field(s2, ',', "\"clientId\""@) {
                None => None,
                Some(s3) => match p_u64(s3) {
                    None => None,
                    Some((client_id, s4)) => match p_field(s4, ',', "\"masterClientId\""@) {
                        None => None,
                        Some(s5) => match p_opt_u64(s5) {
                            None => None,
                            Some((master_client_id, s6)) => match p_field(
                                s6,
                                ',',
                                "\"masterToken\""@,
                            ) {
                                None => None,
                                Some(s7) => match p_opt_str(s7) {
                                    None => None,
                                    Some((master_token, s8)) => match p_field(
                                        s8,
                                        ',',
                                        "\"clearToken\""@,
                                    ) {
                                        None => None,
                                        Some(s9) => match p_opt_bool(s9) {
                                            None => None,
                                            Some((clear_token, s10)) => match tok(s10, '}') {
                                                None => None,
                                                Some(r) => Some(
                                                    (
                                                        SpecMessage::RoleChanged {
                                                            new_role,
                                                            client_id,
                                                            master_client_id,
                                                            master_token,
                                                            clear_token,
                                                        },
                                                        r,
                                                    ),
                                                ),
                                            },
                                        },
                                    },
                                },
                            },
                        },
                    },
                },
            },
        },
    }
}

pub open spec fn p_board_body(s: Seq<char>, broadcast: bool) -> Option<(SpecMessage, Seq<char>)> {
    match p_field(s, ',', "\"boardData\""@) {
        None => None,
        Some(s1) => match p_gs(s1) {
            None => None,
            Some((board_data, s2)) => match tok(s2, '}') {
                None => None,
                Some(r) => Some(
                    (
                        if broadcast {
                            SpecMessage::GameStateBroadcast { board_data }
                        } else {
                            SpecMessage::GameStateUpdate { board_data }
                        },
                        r,
                    ),
                ),
            },
        },
    }
}

pub open spec fn p_msg(s: Seq<char>) -> Option<(SpecMessage, Seq<char>)> {
    match p_str_field(s, '{', "\"type\""@) {
        None => None,
        Some((tag, s1)) => if tag == "handshake"@ {
            p_handshake_body(s1)
        } else if tag == "role_assignment"@ {
            p_role_assignment_body(s1)
        } else if tag == "role_changed"@ {
            p_role_changed_body(s1)
        } else if tag == "game_state_update"@ {
            p_board_body(s1, false)
        } else if tag == "game_state"@ {
            p_board_body(s1, true)
        } else if tag == "release_master"@ {
            match tok(s1, '}') {
                None => None,
                Some(r) => Some((SpecMessage::ReleaseMaster, r)),
            }
        } else {
            None
        },
    }
}

/// The value a whole inbound text denotes, if any: one message and
/// nothing but trailing whitespace after it.
pub open spec fn spec_decode(s: Seq<char>) -> Option<SpecMessage> {
    match p_msg(s) {
        None => None,
        Some((m, rest)) => if ws(rest).len() == 0 {
            Some(m)
        } else {
            None
        },
    }
}

// ---------------------------------------------------------------------
// The executable encoder.
// ---------------------------------------------------------------------

fn append_field_start(out: &mut String, lead: char, name: &str)
    ensures
        final(out)@ == old(out)@ + seq![lead] + name@ + seq![':'],
{
    push_char(out, lead);
    out.append(name);
    push_char(out, ':');
    proof {
        assert((old(out)@.push(lead) + name@).push(':') =~= old(out)@ + seq![lead] + name@
            + seq![':']);
    }
}

fn append_role(out: &mut String, r: &ClientRole)
    ensures
        final(out)@ == old(out)@ + enc_role(*r),
{
    match r {
        ClientRole::Master => {
            proof {
                reveal_strlit("master");
                assert forall|k: int| 0 <= k < ("master")@.len() implies !is_esc_special(
                    #[trigger] ("master")@[k],
                ) by {}
            }
            append_plain_quoted(out, "master");
        },
        ClientRole::Slave => {
            proof {
                reveal_strlit("slave");
                assert forall|k: int| 0 <= k < ("slave")@.len() implies !is_esc_special(
                    #[trigger] ("slave")@[k],
                ) by {}
            }
            append_plain_quoted(out, "slave");
        },
        ClientRole::Viewer => {
            proof {
                reveal_strlit("viewer");
                assert forall|k: int| 0 <= k < ("viewer")@.len() implies !is_esc_special(
                    #[trigger] ("viewer")@[k],
                ) by {}
            }
            append_plain_quoted(out, "viewer");
        },
    }
}

fn append_i32_field(out: &mut String, lead: char, name: &str, x: i32)
    ensures
        final(out)@ == old(out)@ + enc_field(lead, name@, dec_i32(x as int)),
{
    append_field_start(out, lead, name);
    append_i32(out, x);
    proof {
        assert(out@ =~= old(out)@ + enc_field(lead, name@, dec_i32(x as int)));
    }
}

fn append_bool_field(out: &mut String, lead: char, name: &str, b: bool)
    ensures
        final(out)@ == old(out)@ + enc_field(lead, name@, enc_bool(b)),
{
    append_field_start(out, lead, name);
    append_bool(out, b);
    proof {
        assert(out@ =~= old(out)@ + enc_field(lead, name@, enc_bool(b)));
    }
}

fn append_str_field(out: &mut String, lead: char, name: &str, s: &String)
    ensures
        final(out)@ == old(out)@ + enc_field(lead, name@, quoted(s@)),
{
    append_field_start(out, lead, name);
    append_quoted(out, s);
    proof {
        assert(out@ =~= old(out)@ + enc_field(lead, name@, quoted(s@)));
    }
}

#[verifier::rlimit(100)]
fn append_gs_head(out: &mut String, g: &GameState)
    ensures
        final(out)@ == old(out)@ + enc_gs_head(g@),
{
    append_i32_field(out, '{', "\"game_inning\"", g.game_inning);
    append_bool_field(out, ',', "\"top\"", g.top);
    append_bool_field(out, ',', "\"first_base\"", g.first_base);
    append_bool_field(out, ',', "\"second_base\"", g.second_base);
    append_bool_field(out, ',', "\"third_base\"", g.third_base);
    append_i32_field(out, ',', "\"ball_cnt\"", g.ball_cnt);
    append_i32_field(out, ',', "\"strike_cnt\"", g.strike_cnt);
    proof {
        assert(out@ =~= old(out)@ + enc_gs_head(g@));
    }
}

#[verifier::rlimit(100)]
fn append_gs(out: &mut String, g: &GameState)
    ensures
        final(out)@ == old(out)@ + enc_gs(g@),
{
    append_gs_head(out, g);
    append_i32_field(out, ',', "\"out_cnt\"", g.out_cnt);
    append_i32_field(out, ',', "\"score_top\"", g.score_top);
    append_i32_field(out, ',', "\"score_bottom\"", g.score_bottom);
    append_str_field(out, ',', "\"game_title\"", &g.game_title);
    append_str_field(out, ',', "\"team_top\"", &g.team_top);
    append_str_field(out, ',', "\"team_bottom\"", &g.team_bottom);
    append_i32_field(out, ',', "\"last_inning\"", g.last_inning);
    push_char(out, '}');
    proof {
        assert(out@ =~= old(out)@ + enc_gs(g@));
    }
}

/// The canonical wire text of a message.
#[verifier::rlimit(100)]
pub fn encode_message(m: &Message) -> (out: String)
    ensures
        out@ == enc_msg(m@),
{
    let mut out = String::new();
    match m {
        Message::Handshake { client_type, master_token } => {
            append_field_start(&mut out, '{', "\"type\"");
            proof {
                reveal_strlit("handshake");
                assert forall|k: int| 0 <= k < ("handshake")@.len() implies !is_esc_special(
                    #[trigger] ("handshake")@[k],
                ) by {}
            }
            append_plain_quoted(&mut out, "handshake");
            append_field_start(&mut out, ',', "\"clientType\"");
            append_quoted(&mut out, client_type);
            append_field_start(&mut out, ',', "\"masterToken\"");
            append_opt_str(&mut out, master_token);
            push_char(&mut out, '}');
            proof {
                assert(out@ =~= enc_msg(m@));
            }
        },
        Message::RoleAssignment { role, client_id, master_client_id, master_token } => {
            append_field_start(&mut out, '{', "\"type\"");
            proof {
                reveal_strlit("role_assignment");
                assert forall|k: int| 0 <= k < ("role_assignment")@.len() implies !is_esc_special(
                    #[trigger] ("role_assignment")@[k],
                ) by {}
            }
            append_plain_quoted(&mut out, "role_assignment");
            append_field_start(&mut out, ',', "\"role\"");
            append_role(&mut out, role);
            append_field_start(&mut out, ',', "\"clientId\"");
            append_u64(&mut out, *client_id);
            append_field_start(&mut out, ',', "\"masterClientId\"");
            append_opt_u64(&mut out, *master_client_id);
            append_field_start(&mut out, ',', "\"masterToken\"");
            append_opt_str(&mut out, master_token);
            push_char(&mut out, '}');
            proof {
                assert(out@ =~= enc_msg(m@));
            }
        },
        Message::RoleChanged { new_role, client_id, master_client_id, master_token, clear_token } => {
            append_field_start(&mut out, '{', "\"type\"");
            proof {
                reveal_strlit("role_changed");
                assert forall|k: int| 0 <= k < ("role_changed")@.len() implies !is_esc_special(
                    #[trigger] ("role_changed")@[k],
                ) by {}
            }
            append_plain_quoted(&mut out, "role_changed");
            append_field_start(&mut out, ',', "\"newRole\"");
            append_role(&mut out, new_role);
            append_field_start(&mut out, ',', "\"clientId\"");
            append_u64(&mut out, *client_id);
            append_field_start(&mut out, ',', "\"masterClientId\"");
            append_opt_u64(&mut out, *master_client_id);
            append_field_start(&mut out, ',', "\"masterToken\"");
            append_opt_str(&mut out, master_token);
            append_field_start(&mut out, ',', "\"clearToken\"");
            append_opt_bool(&mut out, *clear_token);
            push_char(&mut out, '}');
            proof {
                assert(out@ =~= enc_msg(m@));
            }
        },
        Message::GameStateUpdate { board_data } => {
            append_field_start(&mut out, '{', "\"type\"");
            proof {
                reveal_strlit("game_state_update");
                assert forall|k: int| 0 <= k < ("game_state_update")@.len() implies !is_esc_special(
                    #[trigger] ("game_state_update")@[k],
                ) by {}
            }
            append_plain_quoted(&mut out, "game_state_update");
            append_field_start(&mut out, ',', "\"boardData\"");
            append_gs(&mut out, board_data);
            push_char(&mut out, '}');
            proof {
                assert(out@ =~= enc_msg(m@));
            }
        },
        Message::GameStateBroadcast { board_data } => {
            append_field_start(&mut out, '{', "\"type\"");
            proof {
                reveal_strlit("game_state");
                assert forall|k: int| 0 <= k < ("game_state")@.len() implies !is_esc_special(
                    #[trigger] ("game_state")@[k],
                ) by {}
            }
            append_plain_quoted(&mut out, "game_state");
            append_field_start(&mut out, ',', "\"boardData\"");
            append_gs(&mut out, board_data);
            push_char(&mut out, '}');
            proof {
                assert(out@ =~= enc_msg(m@));
            }
        },
        Message::ReleaseMaster => {
            append_field_start(&mut out, '{', "\"type\"");
            proof {
                reveal_strlit("release_master");
                assert forall|k: int| 0 <= k < ("release_master")@.len() implies !is_esc_special(
                    #[trigger] ("release_master")@[k],
                ) by {}
            }
            append_plain_quoted(&mut out, "release_master");
            push_char(&mut out, '}');
            proof {
                assert(out@ =~= enc_msg(m@));
            }
        },
    }
    out
}

// ---------------------------------------------------------------------
// The executable decoder.
// ---------------------------------------------------------------------

fn x_str_field(v: &Vec<char>, i: usize, lead: char, name: &str) -> (r: Option<(String, usize)>)
    requires
        i <= v@.len(),
    ensures
        match r {
            Some(p) => i <= p.1 <= v@.len() && p_str_field(v@.skip(i as int), lead, name@)
                == Some((p.0@, v@.skip(p.1 as int))),
            None => p_str_field(v@.skip(i as int), lead, name@) is None,
        },
{
    match x_field(v, i, lead, name) {
        None => None,
        Some(j) => x_string(v, j),
    }
}

fn x_i32_field(v: &Vec<char>, i: usize, lead: char, name: &str) -> (r: Option<(i32, usize)>)
    requires
        i <= v@.len(),
    ensures
        match r {
            Some(p) => i <= p.1 <= v@.len() && p_i32_field(v@.skip(i as int), lead, name@)
                == Some((p.0, v@.skip(p.1 as int))),
            None => p_i32_field(v@.skip(i as int), lead, name@) is None,
        },
{
    match x_field(v, i, lead, name) {
        None => None,
        Some(j) => x_i32(v, j),
    }
}

fn x_bool_field(v: &Vec<char>, i: usize, lead: char, name: &str) -> (r: Option<(bool, usize)>)
    requires
        i <= v@.len(),
    ensures
        match r {
            Some(p) => i <= p.1 <= v@.len() && p_bool_field(v@.skip(i as int), lead, name@)
                == Some((p.0, v@.skip(p.1 as int))),
            None => p_bool_field(v@.skip(i as int), lead, name@) is None,
        },
{
    match x_field(v, i, lead, name) {
        None => None,
        Some(j) => x_bool(v, j),
    }
}

fn x_role(v: &Vec<char>, i: usize) -> (r: Option<(ClientRole, usize)>)
    requires
        i <= v@.len(),
    ensures
        match r {
            Some(p) => i <= p.1 <= v@.len() && p_role(v@.skip(i as int)) == Some(
                (p.0, v@.skip(p.1 as int)),
            ),
            None => p_role(v@.skip(i as int)) is None,
        },
{
    match x_string(v, i) {
        None => None,
        Some((sv, j)) => {
            let master = String::from_str("master");
            if sv.eq(&master) {
                Some((ClientRole::Master, j))
            } else {
                let slave = String::from_str("slave");
                if sv.eq(&slave) {
                    Some((ClientRole::Slave, j))
                } else {
                    let viewer = String::from_str("viewer");
                    if sv.eq(&viewer) {
                        Some((ClientRole::Viewer, j))
                    } else {
                        None
                    }
                }
            }
        },
    }
}

#[verifier::rlimit(100)]
fn x_gs(v: &Vec<char>, i: usize) -> (r: Option<(GameState, usize)>)
    requires
        i <= v@.len(),
    ensures
        match r {
            Some(p) => i <= p.1 <= v@.len() && p_gs(v@.skip(i as int)) == Some(
                (p.0@, v@.skip(p.1 as int)),
            ),
            None => p_gs(v@.skip(i as int)) is None,
        },
{
    let (game_inning, j1) = match x_i32_field(v, i, '{', "\"game_inning\"") {
        None => {
            return None;
        },
        Some(p) => p,
    };
    let (top, j2) = match x_bool_field(v, j1, ',', "\"top\"") {
        None => {
            return None;
        },
        Some(p) => p,
    };
    let (first_base, j3) = match x_bool_field(v, j2, ',', "\"first_base\"") {
        None => {
            return None;
        },
        Some(p) => p,
    };
    let (second_base, j4) = match x_bool_field(v, j3, ',', "\"second_base\"") {
        None => {
            return None;
        },
        Some(p) => p,
    };
    let (third_base, j5) = match x_bool_field(v, j4, ',', "\"third_base\"") {
        None => {
            return None;
        },
        Some(p) => p,
    };
    let (ball_cnt, j6) = match x_i32_field(v, j5, ',', "\"ball_cnt\"") {
        None => {
            return None;
        },
        Some(p) => p,
    };
    let (strike_cnt, j7) = match x_i32_field(v, j6, ',', "\"strike_cnt\"") {
        None => {
            return None;
        },
        Some(p) => p,
    };
    let (out_cnt, j8) = match x_i32_field(v, j7, ',', "\"out_cnt\"") {
        None => {
            return None;
        },
        Some(p) => p,
    };
    let (score_top, j9) = match x_i32_field(v, j8, ',', "\"score_top\"") {
        None => {
            return None;
        },
        Some(p) => p,
    };
    let (score_bottom, j10) = match x_i32_field(v, j9, ',', "\"score_bottom\"") {
        None => {
            return None;
        },
        Some(p) => p,
    };
    let (game_title, j11) = match x_str_field(v, j10, ',', "\"game_title\"") {
        None => {
            return None;
        },
        Some(p) => p,
    };
    let (team_top, j12) = match x_str_field(v, j11, ',', "\"team_top\"") {
        None => {
            return None;
        },
        Some(p) => p,
    };
    let (team_bottom, j13) = match x_str_field(v, j12, ',', "\"team_bottom\"") {
        None => {
            return None;
        },
        Some(p) => p,
    };
    let (last_inning, j14) = match x_i32_field(v, j13, ',', "\"last_inning\"") {
        None => {
            return None;
        },
        Some(p) => p,
    };
    let j15 = match x_tok(v, j14, '}') {
        None => {
            return None;
        },
        Some(j) => j,
    };
    let gs = GameState {
        game_inning,
        top,
        first_base,
        second_base,
        third_base,
        ball_cnt,
        strike_cnt,
        out_cnt,
        score_top,
        score_bottom,
        game_title,
        team_top,
        team_bottom,
        last_inning,
    };
    Some((gs, j15))
}

fn x_handshake_body(v: &Vec<char>, i: usize) -> (r: Option<(Message, usize)>)
    requires
        i <= v@.len(),
    ensures
        match r {
            Some(p) => i <= p.1 <= v@.len() && p_handshake_body(v@.skip(i as int)) == Some(
                (p.0@, v@.skip(p.1 as int)),
            ),
            None => p_handshake_body(v@.skip(i as int)) is None,
        },
{
    let (client_type, j1) = match x_str_field(v, i, ',', "\"clientType\"") {
        None => {
            return None;
        },
        Some(p) => p,
    };
    match x_tok(v, j1, '}') {
        Some(j2) => Some((Message::Handshake { client_type, master_token: None }, j2)),
        None => {
            let j2 = match x_field(v, j1, ',', "\"masterToken\"") {
                None => {
                    return None;
                },
                Some(j) => j,
            };
            let (master_token, j3) = match x_opt_str(v, j2) {
                None => {
                    return None;
                },
                Some(p) => p,
            };
            let j4 = match x_tok(v, j3, '}') {
                None => {
                    return None;
                },
                Some(j) => j,
            };
            Some((Message::Handshake { client_type, master_token }, j4))
        },
    }
}

fn x_role_assignment_body(v: &Vec<char>, i: usize) -> (r: Option<(Message, usize)>)
    requires
        i <= v@.len(),
    ensures
        match r {
            Some(p) => i <= p.1 <= v@.len() && p_role_assignment_body(v@.skip(i as int)) == Some(
                (p.0@, v@.skip(p.1 as int)),
            ),
            None => p_role_assignment_body(v@.skip(i as int)) is None,
        },
{
    let j1 = match x_field(v, i, ',', "\"role\"") {
        None => {
            return None;
        },
        Some(j) => j,
    };
    let (role, j2) = match x_role(v, j1) {
        None => {
            return None;
        },
        Some(p) => p,
    };
    let j3 = match x_field(v, j2, ',', "\"clientId\"") {
        None => {
            return None;
        },
        Some(j) => j,
    };
    let (client_id, j4) = match x_u64(v, j3) {
        None => {
            return None;
        },
        Some(p) => p,
    };
    let j5 = match x_field(v, j4, ',', "\"masterClientId\"") {
        None => {
            return None;
        },
        Some(j) => j,
    };
    let (master_client_id, j6) = match x_opt_u64(v, j5) {
        None => {
            return None;
        },
        Some(p) => p,
    };
    let j7 = match x_field(v, j6, ',', "\"masterToken\"") {
        None => {
            return None;
        },
        Some(j) => j,
    };
    let (master_token, j8) = match x_opt_str(v, j7) {
        None => {
            return None;
        },
        Some(p) => p,
    };
    let j9 = match x_tok(v, j8, '}') {
        None => {
            return None;
        },
        Some(j) => j,
    };
    Some((Message::RoleAssignment { role, client_id, master_client_id, master_token }, j9))
}

fn x_role_changed_body(v: &Vec<char>, i: usize) -> (r: Option<(Message, usize)>)
    requires
        i <= v@.len(),
    ensures
        match r {
            Some(p) => i <= p.1 <= v@.len() && p_role_changed_body(v@.skip(i as int)) == Some(
                (p.0@, v@.skip(p.1 as int)),
            ),
            None => p_role_changed_body(v@.skip(i as int)) is None,
        },
{
    let j1 = match x_field(v, i, ',', "\"newRole\"") {
        None => {
            return None;
        },
        Some(j) => j,
    };
    let (new_role, j2) = match x_role(v, j1) {
        None => {
            return None;
        },
        Some(p) => p,
    };
    let j3 = match x_field(v, j2, ',', "\"clientId\"") {
        None => {
            return None;
        },
        Some(j) => j,
    };
    let (client_id, j4) = match x_u64(v, j3) {
        None => {
            return None;
        },
        Some(p) => p,
    };
    let j5 = match x_field(v, j4, ',', "\"masterClientId\"") {
        None => {
            return None;
        },
        Some(j) => j,
    };
    let (master_client_id, j6) = match x_opt_u64(v, j5) {
        None => {
            return None;
        },
        Some(p) => p,
    };
    let j7 = match x_field(v, j6, ',', "\"masterToken\"") {
        None => {
            return None;
        },
        Some(j) => j,
    };
    let (master_token, j8) = match x_opt_str(v, j7) {
        None => {
            return None;
        },
        Some(p) => p,
    };
    let j9 = match x_field(v, j8, ',', "\"clearToken\"") {
        None => {
            return None;
        },
        Some(j) => j,
    };
    let (clear_token, j10) = match x_opt_bool(v, j9) {
        None => {
            return None;
        },
        Some(p) => p,
    };
    let j11 = match x_tok(v, j10, '}') {
        None => {
            return None;
        },
        Some(j) => j,
    };
    Some(
        (
            Message::RoleChanged {
                new_role,
                client_id,
                master_client_id,
                master_token,
                clear_token,
            },
            j11,
        ),
    )
}

fn x_board_body(v: &Vec<char>, i: usize, broadcast: bool) -> (r: Option<(Message, usize)>)
    requires
        i <= v@.len(),
    ensures
        match r {
            Some(p) => i <= p.1 <= v@.len() && p_board_body(v@.skip(i as int), broadcast)
                == Some((p.0@, v@.skip(p.1 as int))),
            None => p_board_body(v@.skip(i as int), broadcast) is None,
        },
{
    let j1 = match x_field(v, i, ',', "\"boardData\"") {
        None => {
            return None;
        },
        Some(j) => j,
    };
    let (board_data, j2) = match x_gs(v, j1) {
        None => {
            return None;
        },
        Some(p) => p,
    };
    let j3 = match x_tok(v, j2, '}') {
        None => {
            return None;
        },
        Some(j) => j,
    };
    if broadcast {
        Some((Message::GameStateBroadcast { board_data }, j3))
    } else {
        Some((Message::GameStateUpdate { board_data }, j3))
    }
}

#[verifier::rlimit(100)]
fn x_msg(v: &Vec<char>, i: usize) -> (r: Option<(Message, usize)>)
    requires
        i <= v@.len(),
    ensures
        match r {
            Some(p) => i <= p.1 <= v@.len() && p_msg(v@.skip(i as int)) == Some(
                (p.0@, v@.skip(p.1 as int)),
            ),
            None => p_msg(v@.skip(i as int)) is None,
        },
{
    let (tag, j1) = match x_str_field(v, i, '{', "\"type\"") {
        None => {
            return None;
        },
        Some(p) => p,
    };
    let handshake = String::from_str("handshake");
    if tag.eq(&handshake) {
        return x_handshake_body(v, j1);
    }
    let role_assignment = String::from_str("role_assignment");
    if tag.eq(&role_assignment) {
        return x_role_assignment_body(v, j1);
    }
    let role_changed = String::from_str("role_changed");
    if tag.eq(&role_changed) {
        return x_role_changed_body(v, j1);
    }
    let game_state_update = String::from_str("game_state_update");
    if tag.eq(&game_state_update) {
        return x_board_body(v, j1, false);
    }
    let game_state = String::from_str("game_state");
    if tag.eq(&game_state) {
        return x_board_body(v, j1, true);
    }
    let release_master = String::from_str("release_master");
    if tag.eq(&release_master) {
        return match x_tok(v, j1, '}') {
            None => None,
            Some(j2) => Some((Message::ReleaseMaster, j2)),
        };
    }
    None
}

// ---------------------------------------------------------------------
// Round trip: decoding what the encoder emitted gives the message back.
// ---------------------------------------------------------------------

proof fn lemma_rt_i32_field(lead: char, name: Seq<char>, x: i32, rest: Seq<char>)
    requires
        !is_ws_char(lead),
        name.len() > 0,
        !is_ws_char(name[0]),
        rest.len() > 0,
        !is_digit(rest[0]),
    ensures
        p_i32_field(enc_field(lead, name, dec_i32(x as int)) + rest, lead, name) == Some(
            (x, rest),
        ),
{
    lemma_field_prefix(lead, name, dec_i32(x as int), rest);
    lemma_i32_roundtrip(x, rest);
}

proof fn lemma_rt_bool_field(lead: char, name: Seq<char>, b: bool, rest: Seq<char>)
    requires
        !is_ws_char(lead),
        name.len() > 0,
        !is_ws_char(name[0]),
    ensures
        p_bool_field(enc_field(lead, name, enc_bool(b)) + rest, lead, name) == Some((b, rest)),
{
    lemma_field_prefix(lead, name, enc_bool(b), rest);
    lemma_bool_roundtrip(b, rest);
}

proof fn lemma_rt_str_field(lead: char, name: Seq<char>, sv: Seq<char>, rest: Seq<char>)
    requires
        !is_ws_char(lead),
        name.len() > 0,
        !is_ws_char(name[0]),
    ensures
        p_str_field(enc_field(lead, name, quoted(sv)) + rest, lead, name) == Some((sv, rest)),
{
    lemma_field_prefix(lead, name, quoted(sv), rest);
    lemma_string_roundtrip(sv, rest);
}

proof fn lemma_rt_role(r: ClientRole, rest: Seq<char>)
    ensures
        p_role(enc_role(r) + rest) == Some((r, rest)),
{
    reveal_strlit("master");
    reveal_strlit("slave");
    reveal_strlit("viewer");
    match r {
        ClientRole::Master => {
            lemma_string_roundtrip("master"@, rest);
        },
        ClientRole::Slave => {
            lemma_string_roundtrip("slave"@, rest);
        },
        ClientRole::Viewer => {
            lemma_string_roundtrip("viewer"@, rest);
        },
    }
}

#[verifier::rlimit(100)]
proof fn lemma_gs_flatten(g: SpecGameState, rest: Seq<char>)
    ensures
        ({
            let e1 = enc_field('{', "\"game_inning\""@, dec_i32(g.game_inning as int));
            let e2 = enc_field(',', "\"top\""@, enc_bool(g.top));
            let e3 = enc_field(',', "\"first_base\""@, enc_bool(g.first_base));
            let e4 = enc_field(',', "\"second_base\""@, enc_bool(g.second_base));
            let e5 = enc_field(',', "\"third_base\""@, enc_bool(g.third_base));
            let e6 = enc_field(',', "\"ball_cnt\""@, dec_i32(g.ball_cnt as int));
            let e7 = enc_field(',', "\"strike_cnt\""@, dec_i32(g.strike_cnt as int));
            let e8 = enc_field(',', "\"out_cnt\""@, dec_i32(g.out_cnt as int));
            let e9 = enc_field(',', "\"score_top\""@, dec_i32(g.score_top as int));
            let e10 = enc_field(',', "\"score_bottom\""@, dec_i32(g.score_bottom as int));
            let e11 = enc_field(',', "\"game_title\""@, quoted(g.game_title));
            let e12 = enc_field(',', "\"team_top\""@, quoted(g.team_top));
            let e13 = enc_field(',', "\"team_bottom\""@, quoted(g.team_bottom));
            let e14 = enc_field(',', "\"last_inning\""@, dec_i32(g.last_inning as int));
            enc_gs(g) + rest == e1 + (e2 + (e3 + (e4 + (e5 + (e6 + (e7 + (e8 + (e9 + (e10 + (e11
                + (e12 + (e13 + (e14 + (seq!['}'] + rest))))))))))))))
        }),
{
    let e1 = enc_field('{', "\"game_inning\""@, dec_i32(g.game_inning as int));
    let e2 = enc_field(',', "\"top\""@, enc_bool(g.top));
    let e3 = enc_field(',', "\"first_base\""@, enc_bool(g.first_base));
    let e4 = enc_field(',', "\"second_base\""@, enc_bool(g.second_base));
    let e5 = enc_field(',', "\"third_base\""@, enc_bool(g.third_base));
    let e6 = enc_field(',', "\"ball_cnt\""@, dec_i32(g.ball_cnt as int));
    let e7 = enc_field(',', "\"strike_cnt\""@, dec_i32(g.strike_cnt as int));
    let e8 = enc_field(',', "\"out_cnt\""@, dec_i32(g.out_cnt as int));
    let e9 = enc_field(',', "\"score_top\""@, dec_i32(g.score_top as int));
    let e10 = enc_field(',', "\"score_bottom\""@, dec_i32(g.score_bottom as int));
    let e11 = enc_field(',', "\"game_title\""@, quoted(g.game_title));
    let e12 = enc_field(',', "\"team_top\""@, quoted(g.team_top));
    let e13 = enc_field(',', "\"team_bottom\""@, quoted(g.team_bottom));
    let e14 = enc_field(',', "\"last_inning\""@, dec_i32(g.last_inning as int));
    let h = enc_gs_head(g);
    let close = seq!['}'];
    assert(h == ((((((e1 + e2) + e3) + e4) + e5) + e6) + e7));
    assert(enc_gs(g) == ((((((((h + e8) + e9) + e10) + e11) + e12) + e13) + e14) + close));
    lemma_flat9(h, e8, e9, e10, e11, e12, e13, e14, close, rest);
    let t = e8 + (e9 + (e10 + (e11 + (e12 + (e13 + (e14 + (close + rest)))))));
    lemma_flat7(e1, e2, e3, e4, e5, e6, e7, t);
}

#[verifier::rlimit(100)]
proof fn lemma_gs_roundtrip(g: SpecGameState, rest: Seq<char>)
    ensures
        p_gs(enc_gs(g) + rest) == Some((g, rest)),
{
    reveal_strlit("\"game_inning\"");
    reveal_strlit("\"top\"");
    reveal_strlit("\"first_base\"");
    reveal_strlit("\"second_base\"");
    reveal_strlit("\"third_base\"");
    reveal_strlit("\"ball_cnt\"");
    reveal_strlit("\"strike_cnt\"");
    reveal_strlit("\"out_cnt\"");
    reveal_strlit("\"score_top\"");
    reveal_strlit("\"score_bottom\"");
    reveal_strlit("\"game_title\"");
    reveal_strlit("\"team_top\"");
    reveal_strlit("\"team_bottom\"");
    reveal_strlit("\"last_inning\"");
    let e1 = enc_field('{', "\"game_inning\""@, dec_i32(g.game_inning as int));
    let e2 = enc_field(',', "\"top\""@, enc_bool(g.top));
    let e3 = enc_field(',', "\"first_base\""@, enc_bool(g.first_base));
    let e4 = enc_field(',', "\"second_base\""@, enc_bool(g.second_base));
    let e5 = enc_field(',', "\"third_base\""@, enc_bool(g.third_base));
    let e6 = enc_field(',', "\"ball_cnt\""@, dec_i32(g.ball_cnt as int));
    let e7 = enc_field(',', "\"strike_cnt\""@, dec_i32(g.strike_cnt as int));
    let e8 = enc_field(',', "\"out_cnt\""@, dec_i32(g.out_cnt as int));
    let e9 = enc_field(',', "\"score_top\""@, dec_i32(g.score_top as int));
    let e10 = enc_field(',', "\"score_bottom\""@, dec_i32(g.score_bottom as int));
    let e11 = enc_field(',', "\"game_title\""@, quoted(g.game_title));
    let e12 = enc_field(',', "\"team_top\""@, quoted(g.team_top));
    let e13 = enc_field(',', "\"team_bottom\""@, quoted(g.team_bottom));
    let e14 = enc_field(',', "\"last_inning\""@, dec_i32(g.last_inning as int));
    let r14 = seq!['}'] + rest;
    let r13 = e14 + r14;
    let r12 = e13 + r13;
    let r11 = e12 + r12;
    let r10 = e11 + r11;
    let r9 = e10 + r10;
    let r8 = e9 + r9;
    let r7 = e8 + r8;
    let r6 = e7 + r7;
    let r5 = e6 + r6;
    let r4 = e5 + r5;
    let r3 = e4 + r4;
    let r2 = e3 + r3;
    let r1 = e2 + r2;
    let s = enc_gs(g) + rest;
    lemma_gs_flatten(g, rest);
    assert(s == e1 + r1);
    lemma_rt_i32_field('{', "\"game_inning\""@, g.game_inning, r1);
    lemma_rt_bool_field(',', "\"top\""@, g.top, r2);
    lemma_rt_bool_field(',', "\"first_base\""@, g.first_base, r3);
    lemma_rt_bool_field(',', "\"second_base\""@, g.second_base, r4);
    lemma_rt_bool_field(',', "\"third_base\""@, g.third_base, r5);
    lemma_rt_i32_field(',', "\"ball_cnt\""@, g.ball_cnt, r6);
    lemma_rt_i32_field(',', "\"strike_cnt\""@, g.strike_cnt, r7);
    lemma_rt_i32_field(',', "\"out_cnt\""@, g.out_cnt, r8);
    lemma_rt_i32_field(',', "\"score_top\""@, g.score_top, r9);
    lemma_rt_i32_field(',', "\"score_bottom\""@, g.score_bottom, r10);
    lemma_rt_str_field(',', "\"game_title\""@, g.game_title, r11);
    lemma_rt_str_field(',', "\"team_top\""@, g.team_top, r12);
    lemma_rt_str_field(',', "\"team_bottom\""@, g.team_bottom, r13);
    lemma_rt_i32_field(',', "\"last_inning\""@, g.last_inning, r14);
    lemma_tok_prefix('}', rest);
    assert(p_gs(s) == Some((g, rest)));
}

proof fn lemma_tag_field(tag: Seq<char>, rest: Seq<char>)
    ensures
        p_str_field(enc_field('{', "\"type\""@, quoted(tag)) + rest, '{', "\"type\""@) == Some(
            (tag, rest),
        ),
{
    reveal_strlit("\"type\"");
    lemma_rt_str_field('{', "\"type\""@, tag, rest);
}

#[verifier::rlimit(100)]
proof fn lemma_hs_roundtrip(client_type: Seq<char>, master_token: Option<Seq<char>>, rest: Seq<
    char,
>)
    ensures
        p_msg(enc_msg(SpecMessage::Handshake { client_type, master_token }) + rest) == Some(
            (SpecMessage::Handshake { client_type, master_token }, rest),
        ),
{
    reveal_strlit("handshake");
    reveal_strlit("\"type\"");
    reveal_strlit("\"clientType\"");
    reveal_strlit("\"masterToken\"");
    let m = SpecMessage::Handshake { client_type, master_token };
    let s = enc_msg(m) + rest;
    let e0 = enc_field('{', "\"type\""@, quoted("handshake"@));
    let e1 = enc_field(',', "\"clientType\""@, quoted(client_type));
    let e2 = enc_field(',', "\"masterToken\""@, enc_opt_str(master_token));
    let r2 = seq!['}'] + rest;
    let r1 = e2 + r2;
    let r0 = e1 + r1;
    assert(enc_msg(m) == (((e0 + e1) + e2) + seq!['}']));
    lemma_flat4(e0, e1, e2, seq!['}'], rest);
    assert(s == e0 + r0);
    lemma_tag_field("handshake"@, r0);
    lemma_rt_str_field(',', "\"clientType\""@, client_type, r1);
    assert(tok(r1, '}') is None) by {
        lemma_ws_plain(r1);
    }
    lemma_field_prefix(',', "\"masterToken\""@, enc_opt_str(master_token), r2);
    lemma_opt_str_roundtrip(master_token, r2);
    lemma_tok_prefix('}', rest);
    assert(p_msg(s) == Some((m, rest)));
}

#[verifier::rlimit(100)]
proof fn lemma_ra_roundtrip(
    role: ClientRole,
    client_id: u64,
    master_client_id: Option<u64>,
    master_token: Option<Seq<char>>,
    rest: Seq<char>,
)
    ensures
        p_msg(
            enc_msg(
                SpecMessage::RoleAssignment { role, client_id, master_client_id, master_token },
            ) + rest,
        ) == Some(
            (
                SpecMessage::RoleAssignment { role, client_id, master_client_id, master_token },
                rest,
            ),
        ),
{
    reveal_strlit("handshake");
    reveal_strlit("role_assignment");
    reveal_strlit("\"type\"");
    reveal_strlit("\"role\"");
    reveal_strlit("\"clientId\"");
    reveal_strlit("\"masterClientId\"");
    reveal_strlit("\"masterToken\"");
    let m = SpecMessage::RoleAssignment { role, client_id, master_client_id, master_token };
    let s = enc_msg(m) + rest;
    let e0 = enc_field('{', "\"type\""@, quoted("role_assignment"@));
    let e1 = enc_field(',', "\"role\""@, enc_role(role));
    let e2 = enc_field(',', "\"clientId\""@, dec_u64(client_id as nat));
    let e3 = enc_field(',', "\"masterClientId\""@, enc_opt_u64(master_client_id));
    let e4 = enc_field(',', "\"masterToken\""@, enc_opt_str(master_token));
    let r4 = seq!['}'] + rest;
    let r3 = e4 + r4;
    let r2 = e3 + r3;
    let r1 = e2 + r2;
    let r0 = e1 + r1;
    assert(enc_msg(m) == (((((e0 + e1) + e2) + e3) + e4) + seq!['}']));
    lemma_flat6(e0, e1, e2, e3, e4, seq!['}'], rest);
    assert(s == e0 + r0);
    lemma_tag_field("role_assignment"@, r0);
    lemma_field_prefix(',', "\"role\""@, enc_role(role), r1);
    lemma_rt_role(role, r1);
    lemma_field_prefix(',', "\"clientId\""@, dec_u64(client_id as nat), r2);
    lemma_u64_roundtrip(client_id, r2);
    lemma_field_prefix(',', "\"masterClientId\""@, enc_opt_u64(master_client_id), r3);
    lemma_opt_u64_roundtrip(master_client_id, r3);
    lemma_field_prefix(',', "\"masterToken\""@, enc_opt_str(master_token), r4);
    lemma_opt_str_roundtrip(master_token, r4);
    lemma_tok_prefix('}', rest);
    assert(p_msg(s) == Some((m, rest)));
}

#[verifier::rlimit(100)]
proof fn lemma_rc_roundtrip(
    new_role: ClientRole,
    client_id: u64,
    master_client_id: Option<u64>,
    master_token: Option<Seq<char>>,
    clear_token: Option<bool>,
    rest: Seq<char>,
)
    ensures
        p_msg(
            enc_msg(
                SpecMessage::RoleChanged {
                    new_role,
                    client_id,
                    master_client_id,
                    master_token,
                    clear_token,
                },
            ) + rest,
        ) == Some(
            (
                SpecMessage::RoleChanged {
                    new_role,
                    client_id,
                    master_client_id,
                    master_token,
                    clear_token,
                },
                rest,
            ),
        ),
{
    reveal_strlit("handshake");
    reveal_strlit("role_assignment");
    reveal_strlit("role_changed");
    reveal_strlit("\"type\"");
    reveal_strlit("\"newRole\"");
    reveal_strlit("\"clientId\"");
    reveal_strlit("\"masterClientId\"");
    reveal_strlit("\"masterToken\"");
    reveal_strlit("\"clearToken\"");
    let m = SpecMessage::RoleChanged {
        new_role,
        client_id,
        master_client_id,
        master_token,
        clear_token,
    };
    let s = enc_msg(m) + rest;
    let e0 = enc_field('{', "\"type\""@, quoted("role_changed"@));
    let e1 = enc_field(',', "\"newRole\""@, enc_role(new_role));
    let e2 = enc_field(',', "\"clientId\""@, dec_u64(client_id as nat));
    let e3 = enc_field(',', "\"masterClientId\""@, enc_opt_u64(master_client_id));
    let e4 = enc_field(',', "\"masterToken\""@, enc_opt_str(master_token));
    let e5 = enc_field(',', "\"clearToken\""@, enc_opt_bool(clear_token));
    let r5 = seq!['}'] + rest;
    let r4 = e5 + r5;
    let r3 = e4 + r4;
    let r2 = e3 + r3;
    let r1 = e2 + r2;
    let r0 = e1 + r1;
    assert(enc_msg(m) == ((((((e0 + e1) + e2) + e3) + e4) + e5) + seq!['}']));
    lemma_flat7(e0, e1, e2, e3, e4, e5, seq!['}'], rest);
    assert(s == e0 + r0);
    lemma_tag_field("role_changed"@, r0);
    lemma_field_prefix(',', "\"newRole\""@, enc_role(new_role), r1);
    lemma_rt_role(new_role, r1);
    lemma_field_prefix(',', "\"clientId\""@, dec_u64(client_id as nat), r2);
    lemma_u64_roundtrip(client_id, r2);
    lemma_field_prefix(',', "\"masterClientId\""@, enc_opt_u64(master_client_id), r3);
    lemma_opt_u64_roundtrip(master_client_id, r3);
    lemma_field_prefix(',', "\"masterToken\""@, enc_opt_str(master_token), r4);
    lemma_opt_str_roundtrip(master_token, r4);
    lemma_field_prefix(',', "\"clearToken\""@, enc_opt_bool(clear_token), r5);
    lemma_opt_bool_roundtrip(clear_token, r5);
    lemma_tok_prefix('}', rest);
    assert(p_msg(s) == Some((m, rest)));
}

#[verifier::rlimit(100)]
proof fn lemma_board_roundtrip(board_data: SpecGameState, broadcast: bool, rest: Seq<char>)
    ensures
        ({
            let m = if broadcast {
                SpecMessage::GameStateBroadcast { board_data }
            } else {
                SpecMessage::GameStateUpdate { board_data }
            };
            p_msg(enc_msg(m) + rest) == Some((m, rest))
        }),
{
    reveal_strlit("handshake");
    reveal_strlit("role_assignment");
    reveal_strlit("role_changed");
    reveal_strlit("game_state_update");
    reveal_strlit("game_state");
    reveal_strlit("\"type\"");
    reveal_strlit("\"boardData\"");
    let m = if broadcast {
        SpecMessage::GameStateBroadcast { board_data }
    } else {
        SpecMessage::GameStateUpdate { board_data }
    };
    let s = enc_msg(m) + rest;
    let tag = if broadcast {
        "game_state"@
    } else {
        "game_state_update"@
    };
    let e0 = enc_field('{', "\"type\""@, quoted(tag));
    let e1 = enc_field(',', "\"boardData\""@, enc_gs(board_data));
    let r1 = seq!['}'] + rest;
    let r0 = e1 + r1;
    assert(enc_msg(m) == ((e0 + e1) + seq!['}']));
    lemma_flat3(e0, e1, seq!['}'], rest);
    assert(s == e0 + r0);
    lemma_tag_field(tag, r0);
    lemma_field_prefix(',', "\"boardData\""@, enc_gs(board_data), r1);
    lemma_gs_roundtrip(board_data, r1);
    lemma_tok_prefix('}', rest);
    assert(p_msg(s) == Some((m, rest)));
}

#[verifier::rlimit(100)]
proof fn lemma_rm_roundtrip(rest: Seq<char>)
    ensures
        p_msg(enc_msg(SpecMessage::ReleaseMaster) + rest) == Some(
            (SpecMessage::ReleaseMaster, rest),
        ),
{
    reveal_strlit("handshake");
    reveal_strlit("role_assignment");
    reveal_strlit("role_changed");
    reveal_strlit("game_state_update");
    reveal_strlit("game_state");
    reveal_strlit("release_master");
    reveal_strlit("\"type\"");
    let m = SpecMessage::ReleaseMaster;
    let s = enc_msg(m) + rest;
    let e0 = enc_field('{', "\"type\""@, quoted("release_master"@));
    let r0 = seq!['}'] + rest;
    assert(enc_msg(m) == (e0 + seq!['}']));
    lemma_flat2(e0, seq!['}'], rest);
    assert(s == e0 + r0);
    lemma_tag_field("release_master"@, r0);
    lemma_tok_prefix('}', rest);
    assert(p_msg(s) == Some((m, rest)));
}

proof fn lemma_msg_roundtrip(m: SpecMessage, rest: Seq<char>)
    ensures
        p_msg(enc_msg(m) + rest) == Some((m, rest)),
{
    match m {
        SpecMessage::Handshake { client_type, master_token } => {
            lemma_hs_roundtrip(client_type, master_token, rest);
        },
        SpecMessage::RoleAssignment { role, client_id, master_client_id, master_token } => {
            lemma_ra_roundtrip(role, client_id, master_client_id, master_token, rest);
        },
        SpecMessage::RoleChanged {
            new_role,
            client_id,
            master_client_id,
            master_token,
            clear_token,
        } => {
            lemma_rc_roundtrip(
                new_role,
                client_id,
                master_client_id,
                master_token,
                clear_token,
                rest,
            );
        },
        SpecMessage::GameStateUpdate { board_data } => {
            lemma_board_roundtrip(board_data, false, rest);
        },
        SpecMessage::GameStateBroadcast { board_data } => {
            lemma_board_roundtrip(board_data, true, rest);
        },
        SpecMessage::ReleaseMaster => {
            lemma_rm_roundtrip(rest);
        },
    }
}

/// Every protocol message decodes from its own encoding to an equal
/// value.
pub proof fn lemma_message_round_trip(m: SpecMessage)
    ensures
        spec_decode(enc_msg(m)) == Some(m),
{
    lemma_msg_roundtrip(m, Seq::empty());
    assert(enc_msg(m) + Seq::<char>::empty() =~= enc_msg(m));
}

/// The message a whole inbound text denotes: `None` for anything
/// malformed, unknown, or trailed by more than whitespace.
pub fn decode_message(s: &str) -> (r: Option<Message>)
    ensures
        match r {
            Some(m) => spec_decode(s@) == Some(m@),
            None => spec_decode(s@) is None,
        },
{
    let v = chars_of(s);
    proof {
        assert(v@.skip(0) =~= s@);
    }
    match x_msg(&v, 0) {
        None => None,
        Some((m, j)) => {
            let j2 = x_ws(&v, j);
            if j2 == v.len() {
                Some(m)
            } else {
                proof {
                    assert(ws(v@.skip(j as int)).len() == v@.len() - j2);
                }
                None
            }
        },
    }
}

} // verus!
