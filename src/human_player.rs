use vstd::prelude::*;

use crate::board::{Board, BoardState, Pos, BOARD_SIZE, MAX_BOARD_SIZE};

verus! {

/// How a resolver receives its input; fixed when it is built.
#[derive(Clone, Copy, Debug, PartialEq, Eq, Structural)]
pub enum InputTypes {
    /// Clicks on cells.
    Mouse,
    /// Arrow keys move a cursor, `Return` confirms.
    Keyboard,
}

/// Phase of a keyboard resolver.
#[derive(Clone, Copy, Debug, PartialEq, Eq, Structural)]
pub enum KeyboardStates {
    /// No origin chosen yet.
    Moving,
    /// An origin is chosen; the next confirm names the destination.
    Selected,
}

/// A discrete key event as the resolver sees it.
#[derive(Clone, Copy, Debug, PartialEq, Eq, Structural)]
pub enum Key {
    Left,
    Right,
    Up,
    Down,
    Return,
    /// Any key the resolver does not react to.
    Other,
}

/// What a resolver holds: its owner, its input kind, the chosen origin, the
/// keyboard cursor and phase, and the move request waiting to be applied.
pub struct ResolverState {
    pub player: i32,
    pub input_type: InputTypes,
    pub board_size: int,
    pub selection: Option<Pos>,
    pub cursor: Option<Pos>,
    pub phase: KeyboardStates,
    pub pending: Option<(Pos, Pos)>,
}

pub open spec fn on_grid(size: int, x: int, y: int) -> bool {
    0 <= x < size && 0 <= y < size
}

/// The cursor after shifting it by (`dx`, `dy`); a shift off the board is refused.
pub open spec fn shift(size: int, cur: Pos, dx: int, dy: int) -> Pos {
    if on_grid(size, cur.0 + dx, cur.1 + dy) {
        ((cur.0 + dx) as i32, (cur.1 + dy) as i32)
    } else {
        cur
    }
}

/// Where the keyboard cursor starts: the centre of the board.
pub open spec fn center(size: int) -> Pos {
    ((size / 2) as i32, (size / 2) as i32)
}

impl ResolverState {
    /// A click on `c`. With no origin chosen, or on the chosen origin itself,
    /// `c` becomes the origin; otherwise the move from the origin to `c` is
    /// requested and the origin is cleared. Only a mouse resolver reacts.
    pub open spec fn clicked(self, c: Pos) -> ResolverState {
        if self.input_type != InputTypes::Mouse {
            self
        } else {
            match self.selection {
                Some(o) => if o != c {
                    ResolverState { pending: Some((o, c)), selection: None, ..self }
                } else {
                    ResolverState { selection: Some(c), ..self }
                },
                None => ResolverState { selection: Some(c), ..self },
            }
        }
    }

    /// A key press. The cursor starts at the centre of the board; arrows
    /// shift it within the board; `Return` first fixes the origin, then, on
    /// a different cell, requests the move there. Only a keyboard resolver reacts.
    pub open spec fn pressed(self, key: Key) -> ResolverState {
        if self.input_type != InputTypes::Keyboard {
            self
        } else {
            let cur = match self.cursor {
                Some(c) => c,
                None => center(self.board_size),
            };
            let s = ResolverState { cursor: Some(cur), ..self };
            match key {
                Key::Right => ResolverState { cursor: Some(shift(self.board_size, cur, 1, 0)), ..s },
                Key::Left => ResolverState { cursor: Some(shift(self.board_size, cur, -1, 0)), ..s },
                Key::Down => ResolverState { cursor: Some(shift(self.board_size, cur, 0, 1)), ..s },
                Key::Up => ResolverState { cursor: Some(shift(self.board_size, cur, 0, -1)), ..s },
                Key::Return => match self.phase {
                    KeyboardStates::Moving => ResolverState {
                        selection: Some(cur),
                        phase: KeyboardStates::Selected,
                        ..s
                    },
                    KeyboardStates::Selected => match self.selection {
                        Some(o) => if o != cur {
                            ResolverState {
                                pending: Some((o, cur)),
                                selection: None,
                                phase: KeyboardStates::Moving,
                                ..s
                            }
                        } else {
                            s
                        },
                        None => s,
                    },
                },
                Key::Other => s,
            }
        }
    }

    /// The board after this resolver's pending request, if any, is applied.
    pub open spec fn apply_to(self, m: BoardState) -> BoardState {
        match self.pending {
            Some(mv) => m.after_move(self.player as int, mv.0, mv.1),
            None => m,
        }
    }

    /// The resolver once its pending request has been handed over.
    pub open spec fn drained(self) -> ResolverState {
        ResolverState { pending: None, ..self }
    }
}

/// A human participant: turns clicks or key presses into move requests for its player.
pub struct HumanPlayer {
    selection: Option<Pos>,
    moving_selection: Option<Pos>,
    player_num: i32,
    move_buffer: Option<(Pos, Pos)>,
    input_type: InputTypes,
    kb_state: KeyboardStates,
    board_size: i32,
}

impl View for HumanPlayer {
    type V = ResolverState;

    closed spec fn view(&self) -> ResolverState {
        ResolverState {
            player: self.player_num,
            input_type: self.input_type,
            board_size: self.board_size as int,
            selection: self.selection,
            cursor: self.moving_selection,
            phase: self.kb_state,
            pending: self.move_buffer,
        }
    }
}

impl HumanPlayer {
    #[verifier::type_invariant]
    spec fn board_size_ok(&self) -> bool {
        1 <= self.board_size <= MAX_BOARD_SIZE
    }

    /// A resolver for player `p` on the standard board.
    pub fn new(p: i32, it: InputTypes) -> (r: HumanPlayer)
        ensures
            r@ == (ResolverState {
                player: p,
                input_type: it,
                board_size: BOARD_SIZE as int,
                selection: None,
                cursor: None,
                phase: KeyboardStates::Moving,
                pending: None,
            }),
    {
        HumanPlayer::with_board_size(p, it, BOARD_SIZE)
    }

    /// A resolver for player `p` on a board of side `size`.
    pub fn with_board_size(p: i32, it: InputTypes, size: i32) -> (r: HumanPlayer)
        requires
            1 <= size <= MAX_BOARD_SIZE,
        ensures
            r@ == (ResolverState {
                player: p,
                input_type: it,
                board_size: size as int,
                selection: None,
                cursor: None,
                phase: KeyboardStates::Moving,
                pending: None,
            }),
    {
        HumanPlayer {
            selection: None,
            moving_selection: None,
            player_num: p,
            move_buffer: None,
            input_type: it,
            kb_state: KeyboardStates::Moving,
            board_size: size,
        }
    }

    pub fn handle_mouse_click(&mut self, click_pos: Pos)
        ensures
            final(self)@ == old(self)@.clicked(click_pos),
    {
        if self.input_type != InputTypes::Mouse {
            return;
        }
        proof {
            use_type_invariant(&*self);
        }
        match self.selection {
            Some(origin) => {
                if !self.is_selection(click_pos) {
                    self.move_buffer = Some((origin, click_pos));
                    self.selection = None;
                    return;
                }
            },
            None => {},
        }
        self.selection = Some(click_pos);
    }

    pub fn handle_key_press(&mut self, key: Key)
        ensures
            final(self)@ == old(self)@.pressed(key),
    {
        if self.input_type != InputTypes::Keyboard {
            return;
        }
        proof {
            use_type_invariant(&*self);
        }
        let pos = match self.moving_selection {
            Some(s) => s,
            None => (self.board_size / 2, self.board_size / 2),
        };
        self.moving_selection = Some(pos);
        match key {
            Key::Right => {
                if pos.0 < i32::MAX && self.in_bounds((pos.0 + 1, pos.1)) {
                    self.moving_selection = Some((pos.0 + 1, pos.1));
                }
            },
            Key::Left => {
                if pos.0 > i32::MIN && self.in_bounds((pos.0 - 1, pos.1)) {
                    self.moving_selection = Some((pos.0 - 1, pos.1));
                }
            },
            Key::Down => {
                if pos.1 < i32::MAX && self.in_bounds((pos.0, pos.1 + 1)) {
                    self.moving_selection = Some((pos.0, pos.1 + 1));
                }
            },
            Key::Up => {
                if pos.1 > i32::MIN && self.in_bounds((pos.0, pos.1 - 1)) {
                    self.moving_selection = Some((pos.0, pos.1 - 1));
                }
            },
            Key::Return => match self.kb_state {
                KeyboardStates::Moving => {
                    self.selection = Some(pos);
                    self.kb_state = KeyboardStates::Selected;
                },
                KeyboardStates::Selected => {
                    if let Some(origin) = self.selection {
                        if !self.is_selection(pos) {
                            self.move_buffer = Some((origin, pos));
                            self.selection = None;
                            self.kb_state = KeyboardStates::Moving;
                        }
                    }
                },
            },
            Key::Other => {},
        }
    }

    /// Whether `pos` is the chosen origin.
    fn is_selection(&self, pos: Pos) -> (r: bool)
        ensures
            r == (self.selection == Some(pos)),
    {
        match self.selection {
            Some(p) => p.0 == pos.0 && p.1 == pos.1,
            None => false,
        }
    }

    fn in_bounds(&self, pos: Pos) -> (r: bool)
        ensures
            r == on_grid(self.board_size as int, pos.0 as int, pos.1 as int),
    {
        0 <= pos.0 && pos.0 < self.board_size && 0 <= pos.1 && pos.1 < self.board_size
    }

    /// Hands the pending move request, if any, to the board and forgets it,
    /// whether or not the board accepted it.
    pub fn update(&mut self, board: &mut Board)
        requires
            old(board).wf(),
        ensures
            final(board).wf(),
            final(board)@ == old(self)@.apply_to(old(board)@),
            final(self)@ == old(self)@.drained(),
    {
        proof {
            use_type_invariant(&*self);
        }
        match self.move_buffer {
            Some(m) => {
                board.check_and_move_token(self.player_num, m.0, m.1);
                self.move_buffer = None;
            },
            None => {},
        }
    }

    pub fn player_num(&self) -> (r: i32)
        ensures
            r == self@.player,
    {
        self.player_num
    }

    pub fn input_type(&self) -> (r: InputTypes)
        ensures
            r == self@.input_type,
    {
        self.input_type
    }

    /// The chosen origin, if any.
    pub fn selection(&self) -> (r: Option<Pos>)
        ensures
            r == self@.selection,
    {
        self.selection
    }

    /// The keyboard cursor, once a key has been pressed.
    pub fn cursor(&self) -> (r: Option<Pos>)
        ensures
            r == self@.cursor,
    {
        self.moving_selection
    }

    pub fn kb_state(&self) -> (r: KeyboardStates)
        ensures
            r == self@.phase,
    {
        self.kb_state
    }

    /// The move request waiting to be applied, as (origin, destination).
    pub fn pending_move(&self) -> (r: Option<(Pos, Pos)>)
        ensures
            r == self@.pending,
    {
        self.move_buffer
    }
}

} // verus!
