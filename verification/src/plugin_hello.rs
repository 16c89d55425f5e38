use vstd::prelude::*;
use vstd::string::StringExecFns;

verus! {

/// What a plugin asks the server to do.
#[derive(Clone, Debug)]
pub enum Action {
    Print(String),
    PlayerSendMessage(u64, String),
}

/// How the server goes on with a player who joins.
#[derive(Clone, Copy, Debug, PartialEq, Eq, Structural)]
pub enum PlayerJoinResult {
    CloseConnection,
    /// Let the player in.
    Proceed,
}

/// The name of the player that this plugin turns away.
pub open spec fn banned_name() -> Seq<char> {
    "Cheater123"@
}

/// The greeting sent to a joining player.
pub open spec fn welcome_text(player_name: Seq<char>) -> Seq<char> {
    "Welcome "@ + player_name + " on our server"@
}

/// Greets a joining player with a message, and turns the player away when
/// the name is the banned one.
pub fn on_player_join(player_id: u64, player_name: &str) -> (r: (Vec<Action>, PlayerJoinResult))
    ensures
        r.0@.len() == 1,
        r.0@[0] matches Action::PlayerSendMessage(id, msg) && id == player_id && msg@ == welcome_text(player_name@),
        r.1 == (if player_name@ == banned_name() {
            PlayerJoinResult::CloseConnection
        } else {
            PlayerJoinResult::Proceed
        }),
{
    let mut msg = String::from_str("Welcome ");
    msg.append(player_name);
    msg.append(" on our server");
    let actions = vec![Action::PlayerSendMessage(player_id, msg)];
    let name = String::from_str(player_name);
    let banned = String::from_str("Cheater123");
    let result = if name == banned {
        PlayerJoinResult::CloseConnection
    } else {
        PlayerJoinResult::Proceed
    };
    (actions, result)
}

} // verus!
