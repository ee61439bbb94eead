use pawn_fight::{Board, BoardError, Piece, Token, TokenStates};

fn ready() -> Token {
    Token { time: 0, state: TokenStates::Ready, wait_time: 1000 }
}

fn with(state: TokenStates) -> Token {
    Token { time: 0, state, wait_time: 1000 }
}

fn board(pieces: Vec<(i32, (i32, i32), Token)>) -> Board {
    Board::from_placements(2, 10, &pieces).unwrap()
}

fn cooled(player: i32) -> Option<Piece> {
    Some(Piece { player, token: Token { time: 0, state: TokenStates::Wait, wait_time: 4000 } })
}

#[test]
fn new_board_has_two_players_on_opposite_edges() {
    let b = Board::new(2).unwrap();
    assert_eq!(b.size(), 10);
    assert_eq!(b.num_players(), 2);
    assert_eq!(b.players_remaining(), 2);
    let fresh = Token::new();
    for row in 0..10 {
        for col in 0..10 {
            let want = if (3..7).contains(&row) && col == 0 {
                Some(Piece { player: 0, token: fresh })
            } else if (3..7).contains(&row) && col == 9 {
                Some(Piece { player: 1, token: fresh })
            } else {
                None
            };
            assert_eq!(b.occupant((col, row)), want);
        }
    }
    assert_eq!(b.pieces().len(), 8);
}

#[test]
fn other_player_counts_are_rejected() {
    for np in [-1, 0, 1, 3, 4] {
        assert_eq!(Board::new(np).err(), Some(BoardError::UnsupportedPlayerCount));
    }
}

#[test]
fn board_sizes_outside_the_layout_are_rejected() {
    assert_eq!(Board::with_size(2, 3).err(), Some(BoardError::UnsupportedBoardSize));
    assert_eq!(Board::with_size(2, 1001).err(), Some(BoardError::UnsupportedBoardSize));
    assert_eq!(Board::with_size(3, 3).err(), Some(BoardError::UnsupportedPlayerCount));
    let small = Board::with_size(2, 4).unwrap();
    assert_eq!(small.token_at(0, (0, 0)), Some(Token::new()));
    assert_eq!(small.token_at(1, (3, 3)), Some(Token::new()));
    let odd = Board::with_size(2, 7).unwrap();
    assert_eq!(odd.token_at(0, (0, 1)), Some(Token::new()));
    assert_eq!(odd.token_at(0, (0, 4)), Some(Token::new()));
    assert_eq!(odd.occupant((0, 5)), None);
}

#[test]
fn bad_placements_are_rejected() {
    let twice = vec![(0, (1, 1), ready()), (1, (1, 1), ready())];
    assert_eq!(Board::from_placements(2, 10, &twice).err(), Some(BoardError::InvalidPlacement));
    let off_board = vec![(0, (10, 1), ready())];
    assert_eq!(Board::from_placements(2, 10, &off_board).err(), Some(BoardError::InvalidPlacement));
    let unknown_player = vec![(2, (1, 1), ready())];
    assert_eq!(Board::from_placements(2, 10, &unknown_player).err(), Some(BoardError::InvalidPlacement));
    let dead = vec![(0, (1, 1), with(TokenStates::Dead))];
    assert_eq!(Board::from_placements(2, 10, &dead).err(), Some(BoardError::InvalidPlacement));
    assert_eq!(Board::from_placements(1, 10, &vec![]).err(), Some(BoardError::UnsupportedPlayerCount));
    assert_eq!(Board::from_placements(2, 2, &vec![]).err(), Some(BoardError::UnsupportedBoardSize));
}

#[test]
fn placements_are_where_they_were_put() {
    let b = board(vec![(0, (2, 7), ready()), (1, (8, 1), with(TokenStates::Prep))]);
    assert_eq!(b.occupant((2, 7)), Some(Piece { player: 0, token: ready() }));
    assert_eq!(b.token_at(1, (8, 1)), Some(with(TokenStates::Prep)));
    assert_eq!(b.token_at(0, (8, 1)), None);
    assert_eq!(b.pieces(), vec![(1, (8, 1), with(TokenStates::Prep)), (0, (2, 7), ready())]);
}

#[test]
fn scenario_step_onto_empty_cell() {
    let mut b = board(vec![(0, (0, 3), ready())]);
    assert!(b.check_and_move_token(0, (0, 3), (1, 3)));
    assert_eq!(b.occupant((1, 3)), cooled(0));
    assert_eq!(b.occupant((0, 3)), None);
}

#[test]
fn scenario_step_from_the_starting_layout() {
    let mut b = Board::new(2).unwrap();
    b.update(1000);
    b.update(10_000);
    assert_eq!(b.token_at(0, (0, 3)).map(|t| t.state), Some(TokenStates::Ready));
    assert!(b.check_and_move_token(0, (0, 3), (1, 3)));
    assert_eq!(b.occupant((1, 3)), cooled(0));
    assert_eq!(b.occupant((0, 3)), None);
}

#[test]
fn scenario_diagonal_capture() {
    for victim in [TokenStates::Wait, TokenStates::Prep, TokenStates::Ready] {
        let mut b = board(vec![(0, (2, 2), ready()), (1, (3, 3), with(victim))]);
        assert!(b.check_and_move_token(0, (2, 2), (3, 3)));
        assert_eq!(b.occupant((3, 3)), cooled(0));
        assert_eq!(b.token_at(1, (3, 3)), None);
        assert_eq!(b.occupant((2, 2)), None);
        assert_eq!(b.players_remaining(), 1);
    }
}

#[test]
fn scenario_two_cells_straight_is_refused() {
    let mut b = board(vec![(0, (2, 2), ready()), (1, (7, 7), ready())]);
    let before = b.pieces();
    assert!(!b.check_and_move_token(0, (2, 2), (4, 2)));
    assert_eq!(b.pieces(), before);
}

#[test]
fn tokens_that_are_not_ready_never_move() {
    for state in [TokenStates::Wait, TokenStates::Prep] {
        let mut b = board(vec![(0, (2, 2), with(state)), (1, (3, 3), ready())]);
        let before = b.pieces();
        assert!(!b.check_and_move_token(0, (2, 2), (2, 3)));
        assert!(!b.check_and_move_token(0, (2, 2), (3, 3)));
        assert_eq!(b.pieces(), before);
    }
}

#[test]
fn same_cell_request_changes_nothing() {
    let mut b = board(vec![(0, (2, 2), ready()), (1, (3, 3), ready())]);
    let before = b.pieces();
    for p in [0, 1, 2] {
        for c in [(2, 2), (3, 3), (5, 5), (-1, 0)] {
            assert!(!b.check_and_move_token(p, c, c));
        }
    }
    assert_eq!(b.pieces(), before);
}

#[test]
fn illegal_requests_change_nothing() {
    let mut b = board(vec![
        (0, (2, 2), ready()),
        (0, (3, 2), ready()),
        (0, (1, 1), ready()),
        (1, (3, 3), ready()),
        (1, (9, 9), ready()),
    ]);
    let before = b.pieces();
    // onto an occupied orthogonal neighbour
    assert!(!b.check_and_move_token(0, (2, 2), (3, 2)));
    assert!(!b.check_and_move_token(1, (3, 3), (3, 2)));
    // diagonal onto an empty cell
    assert!(!b.check_and_move_token(0, (2, 2), (1, 3)));
    // diagonal onto the player's own token
    assert!(!b.check_and_move_token(0, (2, 2), (1, 1)));
    // a token of another player
    assert!(!b.check_and_move_token(1, (2, 2), (2, 1)));
    // off the board
    assert!(!b.check_and_move_token(1, (9, 9), (10, 9)));
    assert!(!b.check_and_move_token(1, (9, 9), (10, 10)));
    assert!(!b.check_and_move_token(0, (-1, 0), (0, 0)));
    assert!(!b.check_and_move_token(0, (i32::MAX, i32::MIN), (i32::MIN, i32::MAX)));
    assert!(!b.check_and_move_token(0, (2, 2), (i32::MIN, i32::MAX)));
    // an empty cell
    assert!(!b.check_and_move_token(0, (5, 5), (5, 6)));
    assert_eq!(b.pieces(), before);
}

#[test]
fn capture_of_a_diagonal_enemy_from_the_other_side() {
    let mut b = board(vec![(0, (4, 4), ready()), (1, (3, 5), ready()), (1, (9, 9), ready())]);
    assert!(b.check_and_move_token(1, (3, 5), (4, 4)));
    assert_eq!(b.occupant((4, 4)), cooled(1));
    assert_eq!(b.occupant((3, 5)), None);
    assert_eq!(b.players_remaining(), 1);
}

#[test]
fn a_moved_token_must_cool_down_before_moving_again() {
    let mut b = board(vec![(0, (2, 2), ready())]);
    assert!(b.check_and_move_token(0, (2, 2), (2, 3)));
    assert!(!b.check_and_move_token(0, (2, 3), (2, 4)));
    b.update(4000);
    assert_eq!(b.token_at(0, (2, 3)).map(|t| t.state), Some(TokenStates::Prep));
    assert!(!b.check_and_move_token(0, (2, 3), (2, 4)));
    b.update(10_000);
    assert!(b.check_and_move_token(0, (2, 3), (2, 4)));
}

#[test]
fn board_update_advances_every_token() {
    let mut b = board(vec![(0, (0, 0), with(TokenStates::Wait)), (1, (5, 5), Token { time: 9000, state: TokenStates::Ready, wait_time: 1000 })]);
    b.update(1000);
    assert_eq!(b.token_at(0, (0, 0)), Some(with(TokenStates::Prep)));
    assert_eq!(b.token_at(1, (5, 5)), Some(with(TokenStates::Prep)));
    b.update(500);
    assert_eq!(b.token_at(0, (0, 0)), Some(Token { time: 500, state: TokenStates::Prep, wait_time: 1000 }));
}

#[test]
fn distances() {
    assert_eq!(Board::manhattan((0, 0), (0, 0)), 0);
    assert_eq!(Board::manhattan((2, 2), (4, 2)), 2);
    assert_eq!(Board::manhattan((5, 1), (2, 7)), 9);
    assert_eq!(Board::manhattan((-3, 4), (2, -1)), 10);
    assert!(Board::is_diagonal((2, 2), (3, 3)));
    assert!(Board::is_diagonal((2, 2), (1, 3)));
    assert!(!Board::is_diagonal((2, 2), (4, 4)));
    assert!(!Board::is_diagonal((2, 2), (2, 3)));
    assert!(!Board::is_diagonal((i32::MIN, 0), (i32::MAX, 1)));
}
