use vstd::prelude::*;

use crate::board::{initial_state, Board, BoardState, Pos, BOARD_SIZE, NUM_PLAYERS};
use crate::human_player::{HumanPlayer, InputTypes, Key, KeyboardStates, ResolverState};

verus! {

/// A game: the board and one resolver per player, in player order.
pub struct GameState {
    pub board: BoardState,
    pub players: Seq<ResolverState>,
}

/// The board after the pending requests of `ps` are applied one after the
/// other, in the order of `ps`. A request's legality is judged on the board
/// that the earlier requests left.
pub open spec fn apply_requests(m: BoardState, ps: Seq<ResolverState>) -> BoardState
    decreases ps.len(),
{
    if ps.len() == 0 {
        m
    } else {
        ps.last().apply_to(apply_requests(m, ps.drop_last()))
    }
}

pub open spec fn fresh_resolver(p: i32, it: InputTypes, size: int) -> ResolverState {
    ResolverState {
        player: p,
        input_type: it,
        board_size: size,
        selection: None,
        cursor: None,
        phase: KeyboardStates::Moving,
        pending: None,
    }
}

/// Player 0 plays with the mouse, player 1 with the keyboard.
pub open spec fn standard_resolvers(size: int) -> Seq<ResolverState> {
    seq![fresh_resolver(0, InputTypes::Mouse, size), fresh_resolver(1, InputTypes::Keyboard, size)]
}

impl GameState {
    /// One tick of `dt` milliseconds. Once a single player owns tokens the game
    /// is won and nothing changes any more. Otherwise every resolver's pending
    /// request goes to the board in ascending player order and is discarded,
    /// applied or not; then every token's timer advances.
    pub open spec fn step(self, dt: int) -> GameState {
        if self.board.players_left() == 1 {
            self
        } else {
            GameState {
                board: apply_requests(self.board, self.players).ticked(dt),
                players: self.players.map_values(|s: ResolverState| s.drained()),
            }
        }
    }

    pub open spec fn clicked(self, c: Pos) -> GameState {
        GameState { players: self.players.map_values(|s: ResolverState| s.clicked(c)), ..self }
    }

    pub open spec fn pressed(self, key: Key) -> GameState {
        GameState { players: self.players.map_values(|s: ResolverState| s.pressed(key)), ..self }
    }
}

/// Once a single player owns tokens, the game is over: a tick changes
/// nothing, so no later move request is applied.
pub proof fn lemma_won_game_is_frozen(g: GameState, dt: int)
    requires
        g.board.players_left() == 1,
    ensures
        g.step(dt) == g,
{
}

/// Drives a game: routes input to the resolvers and applies their requests each tick.
pub struct Game {
    board: Board,
    players: Vec<HumanPlayer>,
}

impl View for Game {
    type V = GameState;

    closed spec fn view(&self) -> GameState {
        GameState { board: self.board@, players: self.players@.map_values(|h: HumanPlayer| h@) }
    }
}

impl Game {
    pub open spec fn wf(&self) -> bool {
        self@.board.wf()
    }

    /// A game on the standard board, player 0 on the mouse, player 1 on the keyboard.
    pub fn new() -> (r: Game)
        ensures
            r.wf(),
            r@ == (GameState {
                board: initial_state(BOARD_SIZE as int),
                players: standard_resolvers(BOARD_SIZE as int),
            }),
    {
        Game::from_board(Board::layout(BOARD_SIZE))
    }

    /// A game on the given board, player 0 on the mouse, player 1 on the keyboard.
    pub fn from_board(board: Board) -> (r: Game)
        requires
            board.wf(),
        ensures
            r.wf(),
            r@ == (GameState { board: board@, players: standard_resolvers(board@.size) }),
    {
        let size = board.size();
        let mut players: Vec<HumanPlayer> = Vec::with_capacity(NUM_PLAYERS as usize);
        players.push(HumanPlayer::with_board_size(0, InputTypes::Mouse, size));
        players.push(HumanPlayer::with_board_size(1, InputTypes::Keyboard, size));
        let g = Game { board, players };
        proof {
            assert(g@.players =~= standard_resolvers(board@.size));
        }
        g
    }

    /// A click on cell `c`, offered to every resolver; mouse resolvers take it.
    pub fn handle_mouse_click(&mut self, c: Pos)
        ensures
            final(self)@ == old(self)@.clicked(c),
    {
        let ghost start = self@;
        let mut i: usize = 0;
        while i < self.players.len()
            invariant
                0 <= i <= self.players@.len(),
                self.players@.len() == start.players.len(),
                self@.board == start.board,
                forall|j: int| 0 <= j < i ==> (#[trigger] self.players@[j])@ == start.players[j].clicked(c),
                forall|j: int| i <= j < self.players@.len() ==> (#[trigger] self.players@[j])@ == start.players[j],
            decreases self.players@.len() - i,
        {
            self.players[i].handle_mouse_click(c);
            i = i + 1;
        }
        proof {
            assert(self@.players =~= start.clicked(c).players);
        }
    }

    /// A key press, offered to every resolver; keyboard resolvers take it.
    pub fn handle_key_press(&mut self, key: Key)
        ensures
            final(self)@ == old(self)@.pressed(key),
    {
        let ghost start = self@;
        let mut i: usize = 0;
        while i < self.players.len()
            invariant
                0 <= i <= self.players@.len(),
                self.players@.len() == start.players.len(),
                self@.board == start.board,
                forall|j: int| 0 <= j < i ==> (#[trigger] self.players@[j])@ == start.players[j].pressed(key),
                forall|j: int| i <= j < self.players@.len() ==> (#[trigger] self.players@[j])@ == start.players[j],
            decreases self.players@.len() - i,
        {
            self.players[i].handle_key_press(key);
            i = i + 1;
        }
        proof {
            assert(self@.players =~= start.pressed(key).players);
        }
    }

    /// Runs one tick of `dt` milliseconds; returns whether the game is won,
    /// in which case nothing was changed.
    pub fn update(&mut self, dt: u64) -> (r: bool)
        requires
            old(self).wf(),
        ensures
            final(self).wf(),
            r == (old(self)@.board.players_left() == 1),
            final(self)@ == old(self)@.step(dt as int),
    {
        if self.board.players_remaining() == 1 {
            return true;
        }
        let ghost start = self@;
        let mut i: usize = 0;
        while i < self.players.len()
            invariant
                self.wf(),
                0 <= i <= self.players@.len(),
                self.players@.len() == start.players.len(),
                self@.board == apply_requests(start.board, start.players.take(i as int)),
                forall|j: int| 0 <= j < i ==> (#[trigger] self.players@[j])@ == start.players[j].drained(),
                forall|j: int| i <= j < self.players@.len() ==> (#[trigger] self.players@[j])@ == start.players[j],
            decreases self.players@.len() - i,
        {
            proof {
                assert(start.players.take(i + 1).drop_last() =~= start.players.take(i as int));
            }
            self.players[i].update(&mut self.board);
            i = i + 1;
        }
        self.board.update(dt);
        proof {
            assert(start.players.take(start.players.len() as int) =~= start.players);
            assert(self@.players =~= start.step(dt as int).players);
        }
        false
    }

    /// How many players still own a token.
    pub fn players_remaining(&self) -> (r: i32)
        requires
            self.wf(),
        ensures
            r == self@.board.players_left(),
    {
        self.board.players_remaining()
    }

    pub fn board(&self) -> (r: &Board)
        ensures
            r@ == self@.board,
    {
        &self.board
    }

    /// The resolvers, in player order.
    pub fn players(&self) -> (r: &Vec<HumanPlayer>)
        ensures
            r@.map_values(|h: HumanPlayer| h@) == self@.players,
    {
        &self.players
    }
}

} // verus!
