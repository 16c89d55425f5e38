use veloren_logic::plugin_hello::{on_player_join, Action, PlayerJoinResult};

#[test]
fn greets_and_admits_players() {
    let (actions, result) = on_player_join(4, "Alice");
    assert_eq!(result, PlayerJoinResult::Proceed);
    assert_eq!(actions.len(), 1);
    match &actions[0] {
        Action::PlayerSendMessage(id, msg) => {
            assert_eq!(*id, 4);
            assert_eq!(msg, "Welcome Alice on our server");
        },
        _ => panic!("expected a message"),
    }
}

#[test]
fn turns_the_cheater_away() {
    let (actions, result) = on_player_join(9, "Cheater123");
    assert_eq!(result, PlayerJoinResult::CloseConnection);
    assert!(matches!(&actions[0], Action::PlayerSendMessage(9, m) if m == "Welcome Cheater123 on our server"));
    assert_eq!(on_player_join(9, "cheater123").1, PlayerJoinResult::Proceed);
}
