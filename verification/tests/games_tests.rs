use gamey::bot::{BotKind, YBotRegistry};
use gamey::engine::{Coordinates, GameY, Movement, PlayerId};
use gamey::games::{
    create_game, default_board_size, get_game, play_move, resign_game, validate_coordinates,
    ApiVersionParams, CoordinatesError, CreateGameRequest, GameError, GameMode, GameParams,
    MoveRequest,
};
use gamey::state::{AppState, GameSession};

fn new_state() -> AppState {
    AppState::new(
        YBotRegistry::new()
            .with_bot(BotKind::Random)
            .with_bot(BotKind::BiasedRandom),
    )
}

fn av() -> ApiVersionParams {
    ApiVersionParams {
        api_version: "v1".to_string(),
    }
}

fn gp(game_id: &str) -> GameParams {
    GameParams {
        api_version: "v1".to_string(),
        game_id: game_id.to_string(),
    }
}

fn count_pieces(yen: &str) -> usize {
    yen.chars().filter(|c| *c != '.').count()
}

#[test]
fn test_validate_coordinates_ok() {
    let coords = Coordinates::new(2, 0, 0);
    assert!(validate_coordinates(&coords, 3).is_ok());
}

#[test]
fn test_validate_coordinates_wrong_sum() {
    let coords = Coordinates::new(1, 1, 1);
    assert!(validate_coordinates(&coords, 3).is_err());
}

#[test]
fn test_validate_coordinates_out_of_range() {
    let coords = Coordinates::new(3, 0, 0);
    assert!(validate_coordinates(&coords, 3).is_err());
}

#[test]
fn test_validate_coordinates_reasons() {
    assert_eq!(
        validate_coordinates(&Coordinates::new(3, 0, 0), 3),
        Err(CoordinatesError::OutOfRange)
    );
    assert_eq!(
        validate_coordinates(&Coordinates::new(1, 1, 1), 3),
        Err(CoordinatesError::WrongSum)
    );
    assert_eq!(
        validate_coordinates(&Coordinates::new(0, 0, 0), 0),
        Err(CoordinatesError::ZeroBoardSize)
    );
}

#[test]
fn test_default_board_size() {
    assert_eq!(default_board_size(), 7);
}

#[test]
fn test_create_session_snapshot() {
    // A fresh session of any accepted size starts ongoing, with player 0
    // to move and no winner.
    for size in [1u32, 2, 7] {
        let mut state = new_state();
        let resp = create_game(
            &mut state,
            &av(),
            CreateGameRequest {
                size,
                mode: GameMode::HumanVsBot,
                bot_id: None,
            },
        )
        .unwrap();
        assert_eq!(resp.game_id, "session-1");
        assert_eq!(resp.api_version, "v1");
        assert_eq!(resp.mode, GameMode::HumanVsBot);
        assert_eq!(resp.bot_id, Some("random_bot".to_string()));
        assert!(!resp.game_over);
        assert_eq!(resp.next_player, Some(0));
        assert_eq!(resp.winner, None);
        assert_eq!(count_pieces(&resp.yen), 0);
    }
}

#[test]
fn test_create_session_ids_are_sequential() {
    let mut state = new_state();
    let request = CreateGameRequest {
        size: 3,
        mode: GameMode::HumanVsHuman,
        bot_id: None,
    };
    let r1 = create_game(&mut state, &av(), request.clone()).unwrap();
    let r2 = create_game(&mut state, &av(), request).unwrap();
    assert_eq!(r1.game_id, "session-1");
    assert_eq!(r2.game_id, "session-2");
}

#[test]
fn test_create_invalid_board_size() {
    let mut state = new_state();
    let err = create_game(
        &mut state,
        &av(),
        CreateGameRequest {
            size: 0,
            mode: GameMode::HumanVsBot,
            bot_id: None,
        },
    )
    .unwrap_err();
    assert_eq!(err, GameError::InvalidBoardSize);
}

#[test]
fn test_create_bot_mode_conflict() {
    let mut state = new_state();
    let err = create_game(
        &mut state,
        &av(),
        CreateGameRequest {
            size: 3,
            mode: GameMode::HumanVsHuman,
            bot_id: Some("random_bot".to_string()),
        },
    )
    .unwrap_err();
    assert_eq!(err, GameError::BotModeConflict);
}

#[test]
fn test_create_unknown_bot() {
    let mut state = new_state();
    let err = create_game(
        &mut state,
        &av(),
        CreateGameRequest {
            size: 3,
            mode: GameMode::HumanVsBot,
            bot_id: Some("no_such_bot".to_string()),
        },
    )
    .unwrap_err();
    assert_eq!(err, GameError::UnknownBot);

    // With an empty registry even the default identifier is unknown.
    let mut empty = AppState::new(YBotRegistry::new());
    let err = create_game(
        &mut empty,
        &av(),
        CreateGameRequest {
            size: 3,
            mode: GameMode::HumanVsBot,
            bot_id: None,
        },
    )
    .unwrap_err();
    assert_eq!(err, GameError::UnknownBot);
}

#[test]
fn test_get_session_not_found() {
    let state = new_state();
    let err = get_game(&state, &gp("session-1")).unwrap_err();
    assert_eq!(err, GameError::SessionNotFound);
}

#[test]
fn test_get_session_idempotent() {
    let mut state = new_state();
    create_game(
        &mut state,
        &av(),
        CreateGameRequest {
            size: 4,
            mode: GameMode::HumanVsBot,
            bot_id: Some("biased_random_bot".to_string()),
        },
    )
    .unwrap();
    let r1 = get_game(&state, &gp("session-1")).unwrap();
    let r2 = get_game(&state, &gp("session-1")).unwrap();
    assert_eq!(r1.api_version, r2.api_version);
    assert_eq!(r1.game_id, r2.game_id);
    assert_eq!(r1.mode, r2.mode);
    assert_eq!(r1.bot_id, r2.bot_id);
    assert_eq!(r1.yen, r2.yen);
    assert_eq!(r1.game_over, r2.game_over);
    assert_eq!(r1.next_player, r2.next_player);
    assert_eq!(r1.winner, r2.winner);
}

#[test]
fn test_play_move_invalid_coordinates_leaves_session_unchanged() {
    let mut state = new_state();
    create_game(
        &mut state,
        &av(),
        CreateGameRequest {
            size: 3,
            mode: GameMode::HumanVsHuman,
            bot_id: None,
        },
    )
    .unwrap();
    let before = get_game(&state, &gp("session-1")).unwrap();

    let err = play_move(
        &mut state,
        &gp("session-1"),
        MoveRequest {
            coords: Coordinates::new(1, 1, 1),
        },
    )
    .unwrap_err();
    assert_eq!(
        err,
        GameError::InvalidCoordinates {
            reason: CoordinatesError::WrongSum
        }
    );

    let err = play_move(
        &mut state,
        &gp("session-1"),
        MoveRequest {
            coords: Coordinates::new(3, 0, 0),
        },
    )
    .unwrap_err();
    assert_eq!(
        err,
        GameError::InvalidCoordinates {
            reason: CoordinatesError::OutOfRange
        }
    );

    let after = get_game(&state, &gp("session-1")).unwrap();
    assert_eq!(before.yen, after.yen);
    assert_eq!(before.next_player, after.next_player);
    assert_eq!(before.game_over, after.game_over);
}

#[test]
fn test_play_move_bot_mode_returns_turn_to_human() {
    // One successful move in bot-mode commits the human's and the bot's
    // placements; an unfinished session is again waiting on player 0.
    let mut state = new_state();
    create_game(
        &mut state,
        &av(),
        CreateGameRequest {
            size: 5,
            mode: GameMode::HumanVsBot,
            bot_id: Some("random_bot".to_string()),
        },
    )
    .unwrap();
    let resp = play_move(
        &mut state,
        &gp("session-1"),
        MoveRequest {
            coords: Coordinates::new(4, 0, 0),
        },
    )
    .unwrap();
    assert_eq!(count_pieces(&resp.yen), 2);
    if !resp.game_over {
        assert_eq!(resp.next_player, Some(0));
    }

    // Keep playing whatever cell is still free; the invariant holds after
    // every successful move.
    let mut pieces = 2;
    loop {
        let snapshot = get_game(&state, &gp("session-1")).unwrap();
        if snapshot.game_over {
            break;
        }
        let free = snapshot.yen.find('.').unwrap();
        let coords = Coordinates::from_index(free as u32, 5);
        let resp = play_move(
            &mut state,
            &gp("session-1"),
            MoveRequest { coords },
        )
        .unwrap();
        assert!(count_pieces(&resp.yen) == pieces + 1 || count_pieces(&resp.yen) == pieces + 2);
        pieces = count_pieces(&resp.yen);
        if !resp.game_over {
            assert_eq!(resp.next_player, Some(0));
        }
    }
}

#[test]
fn test_scenario_full_board_human_vs_human() {
    let mut state = new_state();
    create_game(
        &mut state,
        &av(),
        CreateGameRequest {
            size: 2,
            mode: GameMode::HumanVsHuman,
            bot_id: None,
        },
    )
    .unwrap();
    for coords in [
        Coordinates::new(1, 0, 0),
        Coordinates::new(0, 1, 0),
        Coordinates::new(0, 0, 1),
    ] {
        play_move(&mut state, &gp("session-1"), MoveRequest { coords }).unwrap();
    }
    let snapshot = get_game(&state, &gp("session-1")).unwrap();
    assert!(snapshot.game_over);
    assert_eq!(snapshot.next_player, None);
    assert!(snapshot.winner.is_some());
}

#[test]
fn test_resign_bot_mode_attributes_to_human() {
    // Resignation in bot-mode is always attributed to player 0, so the
    // bot — player 1 — wins, whoever was about to move.
    let mut state = new_state();
    create_game(
        &mut state,
        &av(),
        CreateGameRequest {
            size: 4,
            mode: GameMode::HumanVsBot,
            bot_id: Some("random_bot".to_string()),
        },
    )
    .unwrap();
    play_move(
        &mut state,
        &gp("session-1"),
        MoveRequest {
            coords: Coordinates::new(3, 0, 0),
        },
    )
    .unwrap();
    let resp = resign_game(&mut state, &gp("session-1")).unwrap();
    assert!(resp.game_over);
    assert_eq!(resp.winner, Some(1));
    assert_eq!(resp.next_player, None);
}

#[test]
fn test_resign_human_mode_attributes_to_current_player() {
    let mut state = new_state();
    create_game(
        &mut state,
        &av(),
        CreateGameRequest {
            size: 3,
            mode: GameMode::HumanVsHuman,
            bot_id: None,
        },
    )
    .unwrap();
    // Player 0 moves; then it is player 1's turn, and player 1 resigns.
    play_move(
        &mut state,
        &gp("session-1"),
        MoveRequest {
            coords: Coordinates::new(2, 0, 0),
        },
    )
    .unwrap();
    let resp = resign_game(&mut state, &gp("session-1")).unwrap();
    assert!(resp.game_over);
    assert_eq!(resp.winner, Some(0));
}

#[test]
fn test_wrong_player_turn() {
    // A bot-mode session whose engine reports player 1 to move refuses a
    // human move.
    let mut state = new_state();
    let mut game = GameY::new(3);
    game.add_move(Movement::Placement {
        player: PlayerId::new(0),
        coords: Coordinates::new(2, 0, 0),
    })
    .unwrap();
    state.games.push((
        "session-1".to_string(),
        GameSession {
            game,
            bot_id: Some("random_bot".to_string()),
        },
    ));
    state.next_game_id = 2;
    let err = play_move(
        &mut state,
        &gp("session-1"),
        MoveRequest {
            coords: Coordinates::new(0, 2, 0),
        },
    )
    .unwrap_err();
    assert_eq!(err, GameError::WrongPlayerTurn);
}

#[test]
fn test_move_rejected_on_occupied_cell() {
    let mut state = new_state();
    create_game(
        &mut state,
        &av(),
        CreateGameRequest {
            size: 3,
            mode: GameMode::HumanVsHuman,
            bot_id: None,
        },
    )
    .unwrap();
    let coords = Coordinates::new(2, 0, 0);
    play_move(&mut state, &gp("session-1"), MoveRequest { coords }).unwrap();
    let err = play_move(&mut state, &gp("session-1"), MoveRequest { coords }).unwrap_err();
    assert!(matches!(err, GameError::MoveRejected { .. }));
}

#[test]
fn test_mutations_on_unknown_session() {
    let mut state = new_state();
    let err = play_move(
        &mut state,
        &gp("session-9"),
        MoveRequest {
            coords: Coordinates::new(0, 0, 0),
        },
    )
    .unwrap_err();
    assert_eq!(err, GameError::SessionNotFound);
    let err = resign_game(&mut state, &gp("session-9")).unwrap_err();
    assert_eq!(err, GameError::SessionNotFound);
}

#[test]
fn test_game_already_finished() {
    let mut state = new_state();
    create_game(
        &mut state,
        &av(),
        CreateGameRequest {
            size: 3,
            mode: GameMode::HumanVsHuman,
            bot_id: None,
        },
    )
    .unwrap();
    resign_game(&mut state, &gp("session-1")).unwrap();
    let err = play_move(
        &mut state,
        &gp("session-1"),
        MoveRequest {
            coords: Coordinates::new(2, 0, 0),
        },
    )
    .unwrap_err();
    assert_eq!(err, GameError::GameAlreadyFinished);
    let err = resign_game(&mut state, &gp("session-1")).unwrap_err();
    assert_eq!(err, GameError::GameAlreadyFinished);
}

#[test]
fn test_successful_moves_match_piece_count() {
    // Every successful human-vs-human move commits exactly one piece;
    // failed calls commit none.
    let mut state = new_state();
    create_game(
        &mut state,
        &av(),
        CreateGameRequest {
            size: 3,
            mode: GameMode::HumanVsHuman,
            bot_id: None,
        },
    )
    .unwrap();
    let attempts = [
        Coordinates::new(2, 0, 0),
        Coordinates::new(2, 0, 0),
        Coordinates::new(1, 1, 1),
        Coordinates::new(0, 2, 0),
        Coordinates::new(0, 0, 2),
        Coordinates::new(0, 2, 0),
        Coordinates::new(1, 1, 0),
    ];
    let mut successes = 0;
    for coords in attempts {
        if play_move(&mut state, &gp("session-1"), MoveRequest { coords }).is_ok() {
            successes += 1;
        }
    }
    let snapshot = get_game(&state, &gp("session-1")).unwrap();
    assert_eq!(count_pieces(&snapshot.yen), successes);
    assert_eq!(successes, 4);
}

#[test]
fn test_yen_encoding() {
    let mut state = new_state();
    let resp = create_game(
        &mut state,
        &av(),
        CreateGameRequest {
            size: 2,
            mode: GameMode::HumanVsHuman,
            bot_id: None,
        },
    )
    .unwrap();
    assert_eq!(resp.yen, "...");
    let resp = play_move(
        &mut state,
        &gp("session-1"),
        MoveRequest {
            coords: Coordinates::new(1, 0, 0),
        },
    )
    .unwrap();
    // Cell (1, 0, 0) is the last cell in row-major order on a size-2 board.
    assert_eq!(resp.yen, "..0");
    let resp = play_move(
        &mut state,
        &gp("session-1"),
        MoveRequest {
            coords: Coordinates::new(0, 1, 0),
        },
    )
    .unwrap();
    assert_eq!(resp.yen, ".10");
}
