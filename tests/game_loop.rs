use pawn_fight::{Board, Game, InputTypes, Key, Piece, Token, TokenStates};

fn ready() -> Token {
    Token { time: 0, state: TokenStates::Ready, wait_time: 1000 }
}

fn waiting() -> Token {
    Token { time: 0, state: TokenStates::Wait, wait_time: 1000 }
}

fn cooled(player: i32) -> Option<Piece> {
    Some(Piece { player, token: Token { time: 0, state: TokenStates::Wait, wait_time: 4000 } })
}

#[test]
fn new_game_routes_input_by_kind() {
    let mut g = Game::new();
    assert_eq!(g.players_remaining(), 2);
    assert_eq!(g.players().len(), 2);
    assert_eq!(g.players()[0].input_type(), InputTypes::Mouse);
    assert_eq!(g.players()[1].input_type(), InputTypes::Keyboard);
    g.handle_mouse_click((0, 3));
    g.handle_key_press(Key::Right);
    assert_eq!(g.players()[0].selection(), Some((0, 3)));
    assert_eq!(g.players()[0].cursor(), None);
    assert_eq!(g.players()[1].selection(), None);
    assert_eq!(g.players()[1].cursor(), Some((6, 5)));
}

#[test]
fn game_ticks_the_board() {
    let mut g = Game::new();
    assert!(!g.update(1000));
    assert_eq!(g.board().token_at(0, (0, 3)).map(|t| t.state), Some(TokenStates::Prep));
    assert!(!g.update(10_000));
    assert_eq!(g.board().token_at(1, (9, 6)).map(|t| t.state), Some(TokenStates::Ready));
    g.handle_mouse_click((0, 3));
    g.handle_mouse_click((1, 3));
    assert!(!g.update(0));
    assert_eq!(g.board().occupant((1, 3)), cooled(0));
    assert_eq!(g.players()[0].pending_move(), None);
}

#[test]
fn scenario_earlier_player_clears_the_way_in_the_same_tick() {
    // Player 1's token on (4, 4) aims at (3, 3), where its own token stands.
    // Player 0 captures that token first; player 1 then captures the capturer.
    let b = Board::from_placements(2, 10, &vec![(0, (2, 2), ready()), (1, (3, 3), waiting()), (1, (4, 4), ready())])
        .unwrap();
    let mut g = Game::from_board(b);
    g.handle_mouse_click((2, 2));
    g.handle_mouse_click((3, 3));
    for key in [Key::Left, Key::Up, Key::Return, Key::Left, Key::Up, Key::Return] {
        g.handle_key_press(key);
    }
    assert_eq!(g.players()[0].pending_move(), Some(((2, 2), (3, 3))));
    assert_eq!(g.players()[1].pending_move(), Some(((4, 4), (3, 3))));
    assert!(!g.update(0));
    assert_eq!(g.board().occupant((3, 3)), cooled(1));
    assert_eq!(g.board().occupant((2, 2)), None);
    assert_eq!(g.board().occupant((4, 4)), None);
    assert_eq!(g.players()[0].pending_move(), None);
    assert_eq!(g.players()[1].pending_move(), None);
    assert_eq!(g.players_remaining(), 1);
    assert!(g.update(0));
}

#[test]
fn the_same_requests_in_the_other_order_only_let_the_capture_through() {
    let mut b = Board::from_placements(2, 10, &vec![(0, (2, 2), ready()), (1, (3, 3), waiting()), (1, (4, 4), ready())])
        .unwrap();
    assert!(!b.check_and_move_token(1, (4, 4), (3, 3)));
    assert!(b.check_and_move_token(0, (2, 2), (3, 3)));
    assert_eq!(b.occupant((3, 3)), cooled(0));
    assert_eq!(b.occupant((4, 4)), Some(Piece { player: 1, token: ready() }));
}

#[test]
fn rejected_requests_are_discarded() {
    let mut g = Game::new();
    g.handle_mouse_click((0, 3));
    g.handle_mouse_click((1, 3));
    assert!(!g.update(0));
    assert_eq!(g.players()[0].pending_move(), None);
    assert_eq!(g.board().token_at(0, (0, 3)), Some(waiting()));
    assert_eq!(g.board().occupant((1, 3)), None);
}

#[test]
fn after_the_last_capture_nothing_moves_any_more() {
    let b = Board::from_placements(2, 10, &vec![(0, (2, 2), ready()), (0, (7, 7), ready()), (1, (3, 3), waiting())])
        .unwrap();
    let mut g = Game::from_board(b);
    assert_eq!(g.players_remaining(), 2);
    g.handle_mouse_click((2, 2));
    g.handle_mouse_click((3, 3));
    assert!(!g.update(0));
    assert_eq!(g.players_remaining(), 1);
    g.handle_mouse_click((7, 7));
    g.handle_mouse_click((7, 8));
    assert!(g.update(50_000));
    assert_eq!(g.board().occupant((7, 7)), Some(Piece { player: 0, token: ready() }));
    assert_eq!(g.board().occupant((7, 8)), None);
    assert_eq!(g.board().occupant((3, 3)), cooled(0));
    assert!(g.update(1));
    assert_eq!(g.board().occupant((7, 7)), Some(Piece { player: 0, token: ready() }));
}
