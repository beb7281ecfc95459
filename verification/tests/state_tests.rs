use gamey::bot::{BotKind, YBotRegistry};
use gamey::state::{session_id_string, AppState};

#[test]
fn test_new_state() {
    let registry = YBotRegistry::new();
    let state = AppState::new(registry);
    assert!(state.bots().names().is_empty());
}

#[test]
fn test_state_with_bot() {
    let registry = YBotRegistry::new().with_bot(BotKind::Random);
    let state = AppState::new(registry);
    assert!(state.bots().names().contains(&"random_bot".to_string()));
}

#[test]
fn test_state_clone() {
    let registry = YBotRegistry::new().with_bot(BotKind::Random);
    let state = AppState::new(registry);
    let cloned = state.clone();
    // Both should reference the same underlying data
    assert_eq!(state.bots().names(), cloned.bots().names());
}

#[test]
fn test_bots_arc_clone() {
    let registry = YBotRegistry::new().with_bot(BotKind::Random);
    let state = AppState::new(registry);
    let bots1 = state.bots();
    let bots2 = state.bots();
    // Both should expose the same registry
    assert_eq!(bots1.names(), bots2.names());
}

#[test]
fn test_session_id_format() {
    assert_eq!(session_id_string(1), "session-1");
    assert_eq!(session_id_string(42), "session-42");
    assert_eq!(session_id_string(1000), "session-1000");
}

#[test]
fn test_new_game_id_is_monotone() {
    let mut state = AppState::new(YBotRegistry::new());
    assert_eq!(state.new_game_id(), "session-1");
    assert_eq!(state.new_game_id(), "session-2");
    assert_eq!(state.new_game_id(), "session-3");
}
