use tic_tac_toe::board::{Board, PlaceError};
use tic_tac_toe::game::{Game, Step};
use tic_tac_toe::players::{Player2, PlayerKind};

fn two_players() -> (Player2, Player2) {
    (
        Player2 {
            sign: 'O',
            kind: PlayerKind::Human,
        },
        Player2 {
            sign: 'X',
            kind: PlayerKind::Heuristic,
        },
    )
}

#[test]
fn next_turn_switches_current_player() {
    let players = (
        Player2 {
            sign: 'O',
            kind: PlayerKind::Human,
        },
        Player2 {
            sign: 'X',
            kind: PlayerKind::Human,
        },
    );
    let game = Game::new(players);
    let initial_player = game.current_player;

    let game_after_turn = game.next_turn();
    let players_are_same = initial_player == game_after_turn.current_player;
    assert_eq!(players_are_same, false)
}

#[test]
fn new_game_starts_empty_with_the_first_player() {
    let game = Game::new(two_players());
    assert_eq!(game.board.grid, [['-'; 3]; 3]);
    assert_eq!(game.current_player.sign, 'O');
    assert_eq!(game.current_player.kind, PlayerKind::Human);
    assert_eq!(game.players.1.sign, 'X');
    assert_eq!(game.is_over, false);
}

#[test]
fn next_turn_switches_back_and_forth() {
    let game = Game::new(two_players());
    let second = game.next_turn();
    assert_eq!(second.current_player.sign, 'X');
    assert_eq!(second.current_player.kind, PlayerKind::Heuristic);
    let third = second.next_turn();
    assert_eq!(third.current_player.sign, 'O');
    assert_eq!(third.is_over, false);
}

#[test]
fn next_turn_ends_a_won_or_full_game() {
    let mut won = Game::new(two_players());
    won.board = Board {
        grid: [['O', 'O', 'O'], ['X', 'X', '-'], ['-', '-', '-']],
    };
    assert_eq!(won.next_turn().is_over, true);
    let mut full = Game::new(two_players());
    full.board = Board {
        grid: [['X', 'O', 'X'], ['X', 'O', 'O'], ['O', 'X', 'X']],
    };
    assert_eq!(full.next_turn().is_over, true);
}

#[test]
fn players_are_equal_by_their_sign() {
    let human = Player2 {
        sign: 'O',
        kind: PlayerKind::Human,
    };
    let robot = Player2 {
        sign: 'O',
        kind: PlayerKind::Heuristic,
    };
    let other = Player2 {
        sign: 'X',
        kind: PlayerKind::Human,
    };
    assert!(human == robot);
    assert!(human != other);
}

#[test]
fn place_choice_places_the_mark_and_passes_the_turn() {
    let game = Game::new(two_players());
    let next = game.place_choice((1, 2)).unwrap();
    assert_eq!(
        next.board.grid,
        [['-', '-', '-'], ['-', '-', '-'], ['-', 'O', '-']]
    );
    assert_eq!(next.current_player.sign, 'X');
    assert_eq!(next.is_over, false);
    assert_eq!(game.board.grid, [['-'; 3]; 3]);
}

#[test]
fn place_choice_refuses_what_the_board_refuses() {
    let game = Game::new(two_players());
    assert_eq!(
        game.place_choice((0, 3)).unwrap_err(),
        PlaceError::OutOfBounds
    );
    let next = game.place_choice((0, 0)).unwrap();
    assert_eq!(
        next.place_choice((0, 0)).unwrap_err(),
        PlaceError::CellOccupied
    );
}

#[test]
fn place_choice_ends_the_game_on_a_win() {
    let mut game = Game::new(two_players());
    game.board = Board {
        grid: [['O', 'O', '-'], ['X', 'X', '-'], ['-', '-', '-']],
    };
    let next = game.place_choice((2, 0)).unwrap();
    assert_eq!(next.is_over, true);
    assert_eq!(next.get_final_message(), "Player O won!");
}

#[test]
fn final_message_names_the_player_who_moved_last() {
    let mut game = Game::new(two_players());
    game.board = Board {
        grid: [['X', 'X', 'X'], ['O', 'O', '-'], ['-', '-', '-']],
    };
    assert_eq!(game.get_final_message(), "Player X won!");
    let after = game.next_turn();
    assert_eq!(after.get_final_message(), "Player O won!");
}

#[test]
fn final_message_of_a_tie() {
    let mut game = Game::new(two_players());
    game.board = Board {
        grid: [['X', 'O', 'X'], ['X', 'O', 'O'], ['O', 'X', 'X']],
    };
    assert_eq!(game.get_final_message(), "It's a tie!");
}

#[test]
fn play_game_with_game_over_does_not_panic() {
    let players = (
        Player2 {
            sign: 'O',
            kind: PlayerKind::Human,
        },
        Player2 {
            sign: 'X',
            kind: PlayerKind::Human,
        },
    );
    let mut game = Game::new(players);
    game.is_over = true;

    game.play();
}

#[test]
fn play_asks_the_current_player_until_the_game_is_over() {
    let game = Game::new(two_players());
    match game.play() {
        Step::Ask(player) => {
            assert_eq!(player.sign, 'O');
            assert_eq!(player.kind, PlayerKind::Human);
        }
        Step::Finish(_) => panic!("the game has only begun"),
    }
    match game.next_turn().play() {
        Step::Ask(player) => {
            assert_eq!(player.sign, 'X');
            assert_eq!(player.kind, PlayerKind::Heuristic);
        }
        Step::Finish(_) => panic!("the game has only begun"),
    }
    let mut over = game;
    over.is_over = true;
    match over.play() {
        Step::Finish(text) => assert_eq!(text, "It's a tie!"),
        Step::Ask(_) => panic!("the game is over"),
    }
}
