use gamey::bot::{BiasedRandomBot, BotKind, YBotRegistry};
use gamey::engine::{Coordinates, GameY, Movement, PlayerId};

#[test]
fn test_biased_random_bot_name() {
    let bot = BiasedRandomBot;
    assert_eq!(bot.name(), "biased_random_bot");
}

#[test]
fn test_biased_random_bot_returns_move_on_empty_board() {
    let bot = BiasedRandomBot;
    let game = GameY::new(5);

    let chosen_move = bot.choose_move(&game);
    assert!(chosen_move.is_some());
}

#[test]
fn test_biased_random_bot_returns_valid_coordinates() {
    let bot = BiasedRandomBot;
    let game = GameY::new(5);

    let coords = bot.choose_move(&game).unwrap();
    let index = coords.to_index(game.board_size());

    // Index should be within the valid range for a size-5 board
    // Total cells = (5 * 6) / 2 = 15
    assert!(index < 15);
}

#[test]
fn test_biased_random_bot_returns_none_on_full_board() {
    let bot = BiasedRandomBot;
    let mut game = GameY::new(2);

    // Fill the board (size 2 has 3 cells)
    let moves = vec![
        Movement::Placement {
            player: PlayerId::new(0),
            coords: Coordinates::new(1, 0, 0),
        },
        Movement::Placement {
            player: PlayerId::new(1),
            coords: Coordinates::new(0, 1, 0),
        },
        Movement::Placement {
            player: PlayerId::new(0),
            coords: Coordinates::new(0, 0, 1),
        },
    ];

    for mv in moves {
        game.add_move(mv).unwrap();
    }

    // Board is now full
    assert!(game.available_cells().is_empty());
    let chosen_move = bot.choose_move(&game);
    assert!(chosen_move.is_none());
}

#[test]
fn test_biased_random_bot_chooses_from_available_cells() {
    let bot = BiasedRandomBot;
    let mut game = GameY::new(3);

    // Make some moves to reduce available cells
    game.add_move(Movement::Placement {
        player: PlayerId::new(0),
        coords: Coordinates::new(2, 0, 0),
    })
    .unwrap();

    let coords = bot.choose_move(&game).unwrap();
    let index = coords.to_index(game.board_size());

    // The chosen index should be in the available cells
    assert!(game.available_cells().contains(&index));
}

#[test]
fn test_cell_weight_prefers_edges() {
    // Corner cells (touching 2 sides) should have higher weight than center cells
    let board_size = 5;

    // Corner: touches two sides
    let corner = Coordinates::new(0, 0, 4);
    let corner_weight = BiasedRandomBot::cell_weight(&corner, board_size);

    // Edge: touches one side
    let edge = Coordinates::new(0, 2, 2);
    let edge_weight = BiasedRandomBot::cell_weight(&edge, board_size);

    assert!(
        corner_weight > edge_weight,
        "Corners should be weighted higher than edges"
    );
}

#[test]
fn test_cell_weight_avoids_center() {
    let board_size = 5;

    // Center-ish cell
    let center = Coordinates::new(2, 2, 0);
    let center_weight = BiasedRandomBot::cell_weight(&center, board_size);

    // Edge cell
    let edge = Coordinates::new(0, 2, 2);
    let edge_weight = BiasedRandomBot::cell_weight(&edge, board_size);

    assert!(
        edge_weight >= center_weight,
        "Edges should not be lower weight than center"
    );
}

#[test]
fn test_biased_random_bot_multiple_calls_return_valid_moves() {
    let bot = BiasedRandomBot;
    let game = GameY::new(7);

    // Call choose_move multiple times to exercise the weighted randomness
    for _ in 0..10 {
        let coords = bot.choose_move(&game).unwrap();
        let index = coords.to_index(game.board_size());

        // Total cells for size 7 = (7 * 8) / 2 = 28
        assert!(index < 28);
        assert!(game.available_cells().contains(&index));
    }
}

#[test]
fn test_cell_weight_exact_values() {
    // Corner of a size-5 board: two sides touched, not central.
    assert_eq!(
        BiasedRandomBot::cell_weight(&Coordinates::new(0, 0, 4), 5),
        60
    );
    // Side cell of a size-5 board: one side touched.
    assert_eq!(
        BiasedRandomBot::cell_weight(&Coordinates::new(0, 2, 2), 5),
        30
    );
    // Interior central cell of a size-9 board: no side touched,
    // max - min = 1 < 9 / 4, so the base weight 20 is scaled by 0.7.
    assert_eq!(
        BiasedRandomBot::cell_weight(&Coordinates::new(3, 3, 2), 9),
        14
    );
    // Interior but not central: size 7, (1, 2, 3) touches no side and
    // max - min = 2 >= 7 / 4.
    assert_eq!(
        BiasedRandomBot::cell_weight(&Coordinates::new(1, 2, 3), 7),
        20
    );
}

#[test]
fn test_weighted_selection_frequencies() {
    // On an empty size-2 board all three cells are corners with equal
    // weight, so each should be drawn about a third of the time.
    let bot = BiasedRandomBot;
    let game = GameY::new(2);
    let trials = 3000;
    let mut counts = [0usize; 3];
    for _ in 0..trials {
        let coords = bot.choose_move(&game).unwrap();
        let index = coords.to_index(game.board_size()) as usize;
        assert!(index < 3);
        counts[index] += 1;
    }
    for &c in counts.iter() {
        // Expected 1000; a tolerance of 20 standard deviations.
        assert!(c > 800 && c < 1200, "skewed selection frequency");
    }
}

#[test]
fn test_registry_find_and_names() {
    let registry = YBotRegistry::new()
        .with_bot(BotKind::Random)
        .with_bot(BotKind::BiasedRandom);
    assert!(registry.find(&"random_bot".to_string()).is_some());
    assert!(registry.find(&"biased_random_bot".to_string()).is_some());
    assert!(registry.find(&"no_such_bot".to_string()).is_none());
    assert_eq!(
        registry.names(),
        vec!["random_bot".to_string(), "biased_random_bot".to_string()]
    );
}

#[test]
fn test_coordinates_index_round_trip() {
    let n = 5;
    for index in 0..15u32 {
        let coords = Coordinates::from_index(index, n);
        assert_eq!(coords.x() + coords.y() + coords.z(), n - 1);
        assert_eq!(coords.to_index(n), index);
    }
}
