use vstd::prelude::*;

use crate::token::{advanced, cooled, Token, TokenStates, INITIAL_WAIT};

verus! {

/// Side length of the standard board.
pub const BOARD_SIZE: i32 = 10;

/// The largest side length a board may be built with.
pub const MAX_BOARD_SIZE: i32 = 1000;

/// Tokens each player starts with.
pub const MAX_TOKENS: i32 = 4;

/// The only player count that the starting layout is defined for.
pub const NUM_PLAYERS: i32 = 2;

/// A cell of the board as (column, row).
pub type Pos = (i32, i32);

/// A token together with the player that owns it.
#[derive(Clone, Copy, Debug, PartialEq, Eq, Structural)]
pub struct Piece {
    pub player: i32,
    pub token: Token,
}

/// Why a board could not be built.
#[derive(Clone, Copy, Debug, PartialEq, Eq, Structural)]
pub enum BoardError {
    /// The starting layout exists for two players only.
    UnsupportedPlayerCount,
    /// The side must hold the starting row of tokens and stay within `MAX_BOARD_SIZE`.
    UnsupportedBoardSize,
    /// A placement names an unknown player, lies off the board, shares its
    /// cell with another placement, or holds a dead token.
    InvalidPlacement,
}

/// Distance between two integers.
pub open spec fn dist(a: int, b: int) -> int {
    if a >= b { a - b } else { b - a }
}

/// Sum of the column and row distances.
pub open spec fn manhattan_spec(a: Pos, b: Pos) -> int {
    dist(a.0 as int, b.0 as int) + dist(a.1 as int, b.1 as int)
}

/// One column and one row apart.
pub open spec fn diagonal_spec(a: Pos, b: Pos) -> bool {
    dist(a.0 as int, b.0 as int) == 1 && dist(a.1 as int, b.1 as int) == 1
}

pub open spec fn in_grid(size: int, c: Pos) -> bool {
    0 <= c.0 < size && 0 <= c.1 < size
}

/// The token that every piece of the starting layout holds.
pub open spec fn fresh_token() -> Token {
    Token { time: 0, state: TokenStates::Wait, wait_time: INITIAL_WAIT }
}

/// The starting layout restricted to the first `n` tokens of each player:
/// player 0 on column 0, player 1 on the last column, both on the rows
/// `off..off + n` where `off` centres the full row of `MAX_TOKENS`.
pub open spec fn start_piece_upto(size: int, n: int, c: Pos) -> Option<Piece> {
    let off = (size - MAX_TOKENS) / 2;
    if !in_grid(size, c) || !(off <= c.1 < off + n) {
        None
    } else if c.0 == 0 {
        Some(Piece { player: 0, token: fresh_token() })
    } else if c.0 == size - 1 {
        Some(Piece { player: 1, token: fresh_token() })
    } else {
        None
    }
}

pub open spec fn start_piece(size: int, c: Pos) -> Option<Piece> {
    start_piece_upto(size, MAX_TOKENS as int, c)
}

pub open spec fn grid_of(size: int, f: spec_fn(Pos) -> Option<Piece>) -> Seq<Seq<Option<Piece>>> {
    Seq::new(size as nat, |r: int| Seq::new(size as nat, |k: int| f((k as i32, r as i32))))
}

/// The board as it is set up for a game on a `size` by `size` grid.
pub open spec fn initial_state(size: int) -> BoardState {
    BoardState { size, num_players: NUM_PLAYERS as int, cells: grid_of(size, |c: Pos| start_piece(size, c)) }
}

pub open spec fn size_ok(size: int) -> bool {
    MAX_TOKENS <= size <= MAX_BOARD_SIZE
}

/// Each placement names a player of `0..np`, a cell of the grid and a live
/// token, and no two placements share a cell.
pub open spec fn placements_ok(np: int, size: int, pl: Seq<(i32, Pos, Token)>) -> bool {
    &&& forall|k: int| 0 <= k < pl.len() ==> {
        let e = #[trigger] pl[k];
        0 <= e.0 < np && in_grid(size, e.1) && e.2.state != TokenStates::Dead
    }
    &&& forall|k1: int, k2: int| 0 <= k1 < k2 < pl.len() ==> #[trigger] pl[k1].1 != #[trigger] pl[k2].1
}

/// The board holds exactly the pieces of `pl`.
pub open spec fn holds_placements(m: BoardState, pl: Seq<(i32, Pos, Token)>) -> bool {
    &&& forall|k: int| 0 <= k < pl.len() ==> m.at((#[trigger] pl[k]).1) == Some(Piece { player: pl[k].0, token: pl[k].2 })
    &&& forall|c: Pos| (#[trigger] m.at(c)) is Some ==> exists|k: int| 0 <= k < pl.len() && (#[trigger] pl[k]).1 == c
}

/// The players that a board of `np` players may be built for.
pub open spec fn players_ok(np: int) -> bool {
    np == NUM_PLAYERS
}

/// The board as a grid of rows: `cells[row][column]` is the piece on that cell, if any.
/// A cell holds at most one piece, so no two players ever share a cell.
pub struct BoardState {
    pub size: int,
    pub num_players: int,
    pub cells: Seq<Seq<Option<Piece>>>,
}

impl BoardState {
    pub open spec fn contains(self, c: Pos) -> bool {
        0 <= c.0 < self.size && 0 <= c.1 < self.size
    }

    /// The piece on `c`; cells off the board are empty.
    pub open spec fn at(self, c: Pos) -> Option<Piece> {
        if self.contains(c) {
            self.cells[c.1 as int][c.0 as int]
        } else {
            None
        }
    }

    /// Player `p`'s layer: the token that `p` has on `c`, if any.
    pub open spec fn token_of(self, p: int, c: Pos) -> Option<Token> {
        match self.at(c) {
            Some(x) => if x.player == p { Some(x.token) } else { None },
            None => None,
        }
    }

    pub open spec fn wf(self) -> bool {
        &&& self.num_players == NUM_PLAYERS
        &&& MAX_TOKENS <= self.size <= MAX_BOARD_SIZE
        &&& self.cells.len() == self.size
        &&& forall|r: int| 0 <= r < self.size ==> #[trigger] self.cells[r].len() == self.size
        &&& forall|r: int, k: int|
            0 <= r < self.size && 0 <= k < self.size && (#[trigger] self.cells[r][k]) is Some ==> {
                let x = self.cells[r][k]->Some_0;
                0 <= x.player < self.num_players && x.token.state != TokenStates::Dead
            }
    }

    /// A live `Ready` token of `p` stands on `from`.
    pub open spec fn ready_at(self, p: int, from: Pos) -> bool {
        match self.token_of(p, from) {
            Some(t) => t.state == TokenStates::Ready,
            None => false,
        }
    }

    /// A regular move: one cell orthogonally onto an empty cell.
    pub open spec fn can_step(self, p: int, from: Pos, to: Pos) -> bool {
        &&& self.ready_at(p, from)
        &&& self.contains(to)
        &&& self.at(to) is None
        &&& manhattan_spec(from, to) == 1
    }

    /// A capture: one cell diagonally onto a cell that another player holds.
    pub open spec fn can_capture(self, p: int, from: Pos, to: Pos) -> bool {
        &&& self.ready_at(p, from)
        &&& self.at(to) is Some
        &&& self.at(to)->Some_0.player != p
        &&& diagonal_spec(from, to)
    }

    pub open spec fn legal(self, p: int, from: Pos, to: Pos) -> bool {
        self.can_step(p, from, to) || self.can_capture(p, from, to)
    }

    /// The board with `v` written on cell `c`.
    pub open spec fn put(self, c: Pos, v: Option<Piece>) -> BoardState {
        BoardState {
            cells: self.cells.update(c.1 as int, self.cells[c.1 as int].update(c.0 as int, v)),
            ..self
        }
    }

    /// The mover leaves `from` and lands on `to`, which it takes whatever stood
    /// there; it then serves the move cooldown.
    pub open spec fn relocate(self, p: int, from: Pos, to: Pos) -> BoardState {
        let mover = Piece { player: p as i32, token: cooled(self.at(from)->Some_0.token) };
        self.put(from, None).put(to, Some(mover))
    }

    /// What a move request does: the move if it is legal, nothing otherwise.
    pub open spec fn after_move(self, p: int, from: Pos, to: Pos) -> BoardState {
        if self.legal(p, from, to) {
            self.relocate(p, from, to)
        } else {
            self
        }
    }
}

pub open spec fn tick_cell(v: Option<Piece>, dt: int) -> Option<Piece> {
    match v {
        Some(x) => Some(Piece { player: x.player, token: advanced(x.token, dt) }),
        None => None,
    }
}

pub open spec fn tick_row(row: Seq<Option<Piece>>, dt: int) -> Seq<Option<Piece>> {
    row.map_values(|v: Option<Piece>| tick_cell(v, dt))
}

impl BoardState {
    /// Every token on the board after `dt` more milliseconds.
    pub open spec fn ticked(self, dt: int) -> BoardState {
        BoardState {
            cells: self.cells.map_values(|row: Seq<Option<Piece>>| tick_row(row, dt)),
            ..self
        }
    }

    /// `p` still owns a token somewhere on the board.
    pub open spec fn has_tokens(self, p: int) -> bool {
        exists|c: Pos| #[trigger] self.token_of(p, c) is Some
    }

    /// How many of the players `0..k` still own a token.
    pub open spec fn count_players(self, k: int) -> int
        decreases k,
    {
        if k <= 0 {
            0
        } else {
            self.count_players(k - 1) + if self.has_tokens(k - 1) { 1int } else { 0int }
        }
    }

    pub open spec fn players_left(self) -> int {
        self.count_players(self.num_players)
    }
}

/// The pieces of row `r` among its first `k` columns, left to right, as
/// (player, cell, token).
pub open spec fn row_listing(m: BoardState, r: int, k: int) -> Seq<(i32, Pos, Token)>
    decreases k,
{
    if k <= 0 {
        Seq::empty()
    } else {
        row_listing(m, r, k - 1) + match m.cells[r][k - 1] {
            Some(x) => seq![(x.player, ((k - 1) as i32, r as i32), x.token)],
            None => Seq::empty(),
        }
    }
}

/// The pieces of the first `r` rows, row by row.
pub open spec fn rows_listing(m: BoardState, r: int) -> Seq<(i32, Pos, Token)>
    decreases r,
{
    if r <= 0 {
        Seq::empty()
    } else {
        rows_listing(m, r - 1) + row_listing(m, r - 1, m.size)
    }
}

/// No cell ever holds tokens of two players: whatever the board, two layers
/// that both have a token on `c` are the same player's.
pub proof fn lemma_one_player_per_cell(m: BoardState, c: Pos, p1: int, p2: int)
    requires
        m.token_of(p1, c) is Some,
        m.token_of(p2, c) is Some,
    ensures
        p1 == p2,
{
}

/// A move request, legal or not, leaves a valid board valid.
pub proof fn lemma_move_keeps_board_valid(m: BoardState, p: int, from: Pos, to: Pos)
    requires
        m.wf(),
    ensures
        m.after_move(p, from, to).wf(),
{
    if m.legal(p, from, to) {
        let r = m.after_move(p, from, to);
        let mid = m.put(from, None);
        assert forall|row: int, k: int|
            0 <= row < r.size && 0 <= k < r.size && (#[trigger] r.cells[row][k]) is Some implies {
                let x = r.cells[row][k]->Some_0;
                0 <= x.player < r.num_players && x.token.state != TokenStates::Dead
            } by {
            if row == to.1 && k == to.0 {
                assert(m.at(from) is Some);
            } else {
                assert(r.cells[row][k] == mid.cells[row][k]);
                if !(row == from.1 && k == from.0) {
                    assert(mid.cells[row][k] == m.cells[row][k]);
                }
            }
        }
        assert forall|row: int| 0 <= row < r.size implies #[trigger] r.cells[row].len() == r.size by {
            assert(m.cells[row].len() == m.size);
        }
    }
}

/// Letting time pass leaves a valid board valid.
pub proof fn lemma_tick_keeps_board_valid(m: BoardState, dt: int)
    requires
        m.wf(),
    ensures
        m.ticked(dt).wf(),
{
    let r = m.ticked(dt);
    assert forall|row: int| 0 <= row < r.size implies #[trigger] r.cells[row].len() == r.size by {
        assert(m.cells[row].len() == m.size);
    }
    assert forall|row: int, k: int|
        0 <= row < r.size && 0 <= k < r.size && (#[trigger] r.cells[row][k]) is Some implies {
            let x = r.cells[row][k]->Some_0;
            0 <= x.player < r.num_players && x.token.state != TokenStates::Dead
        } by {
        assert(m.cells[row].len() == m.size);
        assert(r.cells[row][k] == tick_cell(m.cells[row][k], dt));
    }
}

/// A token that is not `Ready` (waiting, preparing or dead) never moves:
/// a request from its cell changes nothing.
pub proof fn lemma_unready_token_stays(m: BoardState, p: int, from: Pos, to: Pos)
    requires
        m.token_of(p, from) matches Some(t) && t.state != TokenStates::Ready,
    ensures
        !m.legal(p, from, to),
        m.after_move(p, from, to) == m,
{
}

/// A request whose origin and destination coincide never changes the board.
pub proof fn lemma_same_cell_request_is_noop(m: BoardState, p: int, c: Pos)
    ensures
        !m.legal(p, c, c),
        m.after_move(p, c, c) == m,
{
}

/// A freshly set up board has both players in the game.
pub proof fn lemma_initial_players(size: int)
    requires
        size_ok(size),
    ensures
        initial_state(size).players_left() == 2,
{
    let m = initial_state(size);
    let off = (size - MAX_TOKENS) / 2;
    let c0: Pos = (0i32, off as i32);
    let c1: Pos = ((size - 1) as i32, off as i32);
    assert(m.cells[off][0] == start_piece(size, c0));
    assert(m.token_of(0, c0) is Some);
    assert(m.cells[off][size - 1] == start_piece(size, c1));
    assert(m.token_of(1, c1) is Some);
    assert(m.has_tokens(0) && m.has_tokens(1));
    assert(m.count_players(0) == 0);
    assert(m.count_players(1) == 1);
    assert(m.count_players(2) == 2);
}

/// Once one of the two players has lost every token while the other still
/// has one, exactly one player remains.
pub proof fn lemma_last_player_left(m: BoardState, q: int)
    requires
        m.wf(),
        0 <= q < NUM_PLAYERS,
        !m.has_tokens(q),
        m.has_tokens(1 - q),
    ensures
        m.players_left() == 1,
{
    assert(m.count_players(0) == 0);
    assert(m.count_players(1) == if m.has_tokens(0) { 1int } else { 0int });
    assert(m.count_players(2) == m.count_players(1) + if m.has_tokens(1) { 1int } else { 0int });
}

/// The game board. It owns every token; each cell holds at most one piece.
pub struct Board {
    size: i32,
    num_players: i32,
    cells: Vec<Vec<Option<Piece>>>,
}

impl View for Board {
    type V = BoardState;

    closed spec fn view(&self) -> BoardState {
        BoardState {
            size: self.size as int,
            num_players: self.num_players as int,
            cells: Seq::new(self.cells@.len(), |r: int| self.cells@[r]@),
        }
    }
}

impl Board {
    pub open spec fn wf(&self) -> bool {
        self@.wf()
    }

    pub fn manhattan(p1: Pos, p2: Pos) -> (r: i32)
        requires
            manhattan_spec(p1, p2) <= i32::MAX,
        ensures
            r == manhattan_spec(p1, p2),
    {
        let dx: i64 = if p1.0 >= p2.0 { p1.0 as i64 - p2.0 as i64 } else { p2.0 as i64 - p1.0 as i64 };
        let dy: i64 = if p1.1 >= p2.1 { p1.1 as i64 - p2.1 as i64 } else { p2.1 as i64 - p1.1 as i64 };
        (dx + dy) as i32
    }

    pub fn is_diagonal(p1: Pos, p2: Pos) -> (r: bool)
        ensures
            r == diagonal_spec(p1, p2),
    {
        let dx: i64 = if p1.0 >= p2.0 { p1.0 as i64 - p2.0 as i64 } else { p2.0 as i64 - p1.0 as i64 };
        let dy: i64 = if p1.1 >= p2.1 { p1.1 as i64 - p2.1 as i64 } else { p2.1 as i64 - p1.1 as i64 };
        dx == 1 && dy == 1
    }

    fn in_bounds(&self, c: Pos) -> (r: bool)
        ensures
            r == self@.contains(c),
    {
        0 <= c.0 && c.0 < self.size && 0 <= c.1 && c.1 < self.size
    }

    /// The piece on `c`, if any.
    pub fn occupant(&self, c: Pos) -> (r: Option<Piece>)
        requires
            self.wf(),
        ensures
            r == self@.at(c),
    {
        if self.in_bounds(c) {
            self.cells[c.1 as usize][c.0 as usize]
        } else {
            None
        }
    }

    /// Whether `p` may move the token on `from` to `to`, as a step or a capture.
    fn is_legal(&self, p: i32, from: Pos, to: Pos) -> (r: bool)
        requires
            self.wf(),
        ensures
            r == self@.legal(p as int, from, to),
    {
        match self.occupant(from) {
            Some(x) => {
                if x.player != p || x.token.state != TokenStates::Ready {
                    return false;
                }
            },
            None => return false,
        }
        if !self.in_bounds(to) {
            return false;
        }
        match self.occupant(to) {
            None => Board::manhattan(from, to) == 1,
            Some(x) => x.player != p && Board::is_diagonal(from, to),
        }
    }

    /// Takes the piece on `loc` off the board; the captured token comes back dead.
    fn kill_token_at(&mut self, loc: Pos) -> (r: Option<Token>)
        requires
            old(self).wf(),
            old(self)@.contains(loc),
        ensures
            final(self).wf(),
            final(self)@ == old(self)@.put(loc, None),
            r == match old(self)@.at(loc) {
                Some(x) => Some(Token { state: TokenStates::Dead, ..x.token }),
                None => None,
            },
    {
        let row = loc.1 as usize;
        let col = loc.0 as usize;
        let taken = self.cells[row][col];
        self.cells[row][col] = None;
        proof {
            assert(self@.cells =~= old(self)@.put(loc, None).cells);
        }
        match taken {
            Some(x) => {
                let mut t = x.token;
                t.set_state(TokenStates::Dead);
                Some(t)
            },
            None => None,
        }
    }

    /// Moves `p`'s token from `from` to the empty cell `to` and starts its cooldown.
    fn move_token(&mut self, p: i32, from: Pos, to: Pos)
        requires
            old(self).wf(),
            old(self)@.contains(from),
            old(self)@.contains(to),
            from != to,
            old(self)@.token_of(p as int, from) is Some,
        ensures
            final(self).wf(),
            final(self)@ == old(self)@.relocate(p as int, from, to),
    {
        let mut piece = match self.cells[from.1 as usize][from.0 as usize] {
            Some(x) => x,
            None => return,
        };
        piece.token.start_cooldown();
        self.cells[from.1 as usize][from.0 as usize] = None;
        proof {
            assert(self@.cells =~~= old(self)@.put(from, None).cells);
            assert(self@.cells[to.1 as int].len() == self.size);
            assert(self.cells@[to.1 as int]@.len() == self.size);
        }
        self.cells[to.1 as usize][to.0 as usize] = Some(piece);
        proof {
            let want = old(self)@.relocate(p as int, from, to);
            assert(self@.cells =~~= want.cells);
        }
    }

    /// Applies a move request of player `p`: a step onto an empty neighbouring
    /// cell, or a diagonal capture of another player's token. The token on
    /// `from` must be `p`'s and `Ready`. An illegal request changes nothing.
    pub fn check_and_move_token(&mut self, p: i32, from: Pos, to: Pos) -> (r: bool)
        requires
            old(self).wf(),
        ensures
            final(self).wf(),
            r == old(self)@.legal(p as int, from, to),
            r ==> old(self)@.ready_at(p as int, from),
            final(self)@ == old(self)@.after_move(p as int, from, to),
    {
        if self.is_legal(p, from, to) {
            if Board::is_diagonal(from, to) {
                let ghost before = self@;
                self.kill_token_at(to);
                self.move_token(p, from, to);
                proof {
                    assert(self@.cells =~~= before.relocate(p as int, from, to).cells);
                }
            } else {
                self.move_token(p, from, to);
            }
            true
        } else {
            false
        }
    }

    /// A board of side `size` with every cell empty.
    fn empty(size: i32) -> (r: Board)
        requires
            size_ok(size as int),
        ensures
            r.wf(),
            r@.size == size,
            forall|c: Pos| r@.at(c) is None,
    {
        let mut cells: Vec<Vec<Option<Piece>>> = Vec::new();
        let mut i: i32 = 0;
        while i < size
            invariant
                0 <= i <= size,
                cells@.len() == i,
                forall|r: int| 0 <= r < i ==> (#[trigger] cells@[r])@ =~= Seq::new(size as nat, |k: int| None::<Piece>),
            decreases size - i,
        {
            let mut row: Vec<Option<Piece>> = Vec::new();
            let mut j: i32 = 0;
            while j < size
                invariant
                    0 <= j <= size,
                    row@ =~= Seq::new(j as nat, |k: int| None::<Piece>),
                decreases size - j,
            {
                row.push(None);
                j = j + 1;
            }
            cells.push(row);
            i = i + 1;
        }
        Board { size, num_players: NUM_PLAYERS, cells }
    }

    /// Writes `v` on the grid cell `c`.
    fn set_cell(&mut self, c: Pos, v: Option<Piece>)
        requires
            old(self).wf(),
            old(self)@.contains(c),
            v matches Some(x) ==> 0 <= x.player < NUM_PLAYERS && x.token.state != TokenStates::Dead,
        ensures
            final(self).wf(),
            final(self)@ == old(self)@.put(c, v),
    {
        proof {
            assert(self@.cells[c.1 as int].len() == self.size);
            assert(self.cells@[c.1 as int]@.len() == self.size);
        }
        self.cells[c.1 as usize][c.0 as usize] = v;
        proof {
            assert(self@.cells =~~= old(self)@.put(c, v).cells);
        }
    }

    /// The standard board for `np` players: `BOARD_SIZE` cells a side.
    pub fn new(np: i32) -> (r: Result<Board, BoardError>)
        ensures
            !players_ok(np as int) ==> r == Err::<Board, BoardError>(BoardError::UnsupportedPlayerCount),
            players_ok(np as int) ==> (r matches Ok(b) && b.wf() && b@ == initial_state(BOARD_SIZE as int)),
    {
        Board::with_size(np, BOARD_SIZE)
    }

    /// A board of side `size` for `np` players, set up for a game: each
    /// player's `MAX_TOKENS` fresh tokens stand centred on its own edge column.
    pub fn with_size(np: i32, size: i32) -> (r: Result<Board, BoardError>)
        ensures
            !players_ok(np as int) ==> r == Err::<Board, BoardError>(BoardError::UnsupportedPlayerCount),
            players_ok(np as int) && !size_ok(size as int) ==> r == Err::<Board, BoardError>(BoardError::UnsupportedBoardSize),
            players_ok(np as int) && size_ok(size as int) ==> (r matches Ok(b) && b.wf() && b@ == initial_state(size as int)),
    {
        if np != NUM_PLAYERS {
            return Err(BoardError::UnsupportedPlayerCount);
        }
        if size < MAX_TOKENS || size > MAX_BOARD_SIZE {
            return Err(BoardError::UnsupportedBoardSize);
        }
        Ok(Board::layout(size))
    }

    /// The starting layout on a board of side `size`.
    pub(crate) fn layout(size: i32) -> (r: Board)
        requires
            size_ok(size as int),
        ensures
            r.wf(),
            r@ == initial_state(size as int),
    {
        let mut b = Board::empty(size);
        let off: i32 = (size - MAX_TOKENS) / 2;
        let ghost init = initial_state(size as int);
        proof {
            assert forall|c: Pos| b@.at(c) == start_piece_upto(size as int, 0, c) by {}
        }
        let mut j: i32 = 0;
        while j < MAX_TOKENS
            invariant
                0 <= j <= MAX_TOKENS,
                off == (size - MAX_TOKENS) / 2,
                size_ok(size as int),
                b.wf(),
                b@.size == size,
                forall|c: Pos| b@.at(c) == start_piece_upto(size as int, j as int, c),
            decreases MAX_TOKENS - j,
        {
            let ghost before = b@;
            b.set_cell((0, off + j), Some(Piece { player: 0, token: Token::new() }));
            b.set_cell((size - 1, off + j), Some(Piece { player: 1, token: Token::new() }));
            proof {
                assert forall|c: Pos| b@.at(c) == start_piece_upto(size as int, j + 1, c) by {
                    if c != (0i32, (off + j) as i32) && c != ((size - 1) as i32, (off + j) as i32) {
                        assert(b@.at(c) == before.at(c));
                    }
                }
            }
            j = j + 1;
        }
        proof {
            assert(b@.cells =~~= init.cells) by {
                assert forall|r: int, k: int| 0 <= r < size && 0 <= k < size implies b@.cells[r][k] == init.cells[r][k] by {
                    assert(b@.at((k as i32, r as i32)) == start_piece(size as int, (k as i32, r as i32)));
                }
            }
        }
        b
    }

    /// A board of side `size` for `np` players holding exactly the given
    /// pieces, each placement being (player, cell, token).
    pub fn from_placements(np: i32, size: i32, placements: &Vec<(i32, Pos, Token)>) -> (r: Result<Board, BoardError>)
        ensures
            !players_ok(np as int) ==> r == Err::<Board, BoardError>(BoardError::UnsupportedPlayerCount),
            players_ok(np as int) && !size_ok(size as int) ==> r == Err::<Board, BoardError>(BoardError::UnsupportedBoardSize),
            players_ok(np as int) && size_ok(size as int) && !placements_ok(np as int, size as int, placements@)
                ==> r == Err::<Board, BoardError>(BoardError::InvalidPlacement),
            players_ok(np as int) && size_ok(size as int) && placements_ok(np as int, size as int, placements@) ==> (
                r matches Ok(b) && b.wf() && b@.size == size && holds_placements(b@, placements@)),
    {
        if np != NUM_PLAYERS {
            return Err(BoardError::UnsupportedPlayerCount);
        }
        if size < MAX_TOKENS || size > MAX_BOARD_SIZE {
            return Err(BoardError::UnsupportedBoardSize);
        }
        let mut b = Board::empty(size);
        let mut i: usize = 0;
        while i < placements.len()
            invariant
                players_ok(np as int),
                b.wf(),
                b@.size == size,
                0 <= i <= placements@.len(),
                placements_ok(np as int, size as int, placements@.subrange(0, i as int)),
                holds_placements(b@, placements@.subrange(0, i as int)),
            decreases placements@.len() - i,
        {
            let (p, c, t) = placements[i];
            let ghost pre = placements@.subrange(0, i as int);
            let ghost next = placements@.subrange(0, i + 1);
            if p < 0 || p >= np || !b.in_bounds(c) || t.state == TokenStates::Dead {
                proof {
                    assert(placements@[i as int] == next[i as int]);
                }
                return Err(BoardError::InvalidPlacement);
            }
            if b.occupant(c).is_some() {
                proof {
                    let k = choose|k: int| 0 <= k < pre.len() && (#[trigger] pre[k]).1 == c;
                    assert(next[k] == pre[k]);
                    assert(placements@[k] == next[k]);
                    assert(placements@[i as int] == next[i as int]);
                }
                return Err(BoardError::InvalidPlacement);
            }
            let ghost before = b@;
            b.set_cell(c, Some(Piece { player: p, token: t }));
            proof {
                assert forall|k: int| 0 <= k < next.len() implies
                    b@.at((#[trigger] next[k]).1) == Some(Piece { player: next[k].0, token: next[k].2 }) by {
                    if k < i {
                        assert(next[k] == pre[k]);
                        assert(pre[k].1 != c);
                    }
                }
                assert forall|q: Pos| (#[trigger] b@.at(q)) is Some implies exists|k: int| 0 <= k < next.len() && (#[trigger] next[k]).1 == q by {
                    if q == c {
                        assert(next[i as int].1 == q);
                    } else {
                        assert(before.at(q) is Some);
                        let k = choose|k: int| 0 <= k < pre.len() && (#[trigger] pre[k]).1 == q;
                        assert(next[k] == pre[k]);
                    }
                }
                assert forall|k1: int, k2: int| 0 <= k1 < k2 < next.len() implies #[trigger] next[k1].1 != #[trigger] next[k2].1 by {
                    if k2 < i {
                        assert(next[k1] == pre[k1] && next[k2] == pre[k2]);
                    } else {
                        assert(next[k1] == pre[k1]);
                        assert(before.at(pre[k1].1) is Some);
                    }
                }
                assert forall|k: int| 0 <= k < next.len() implies {
                    let e = #[trigger] next[k];
                    0 <= e.0 < np && in_grid(size as int, e.1) && e.2.state != TokenStates::Dead
                } by {
                    if k < i {
                        assert(next[k] == pre[k]);
                    }
                }
            }
            i = i + 1;
        }
        proof {
            assert(placements@.subrange(0, placements@.len() as int) =~= placements@);
        }
        Ok(b)
    }

    /// Side length of the board.
    pub fn size(&self) -> (r: i32)
        ensures
            r == self@.size,
    {
        self.size
    }

    pub fn num_players(&self) -> (r: i32)
        ensures
            r == self@.num_players,
    {
        self.num_players
    }

    /// Player `p`'s token on `c`, if `p` has one there.
    pub fn token_at(&self, p: i32, c: Pos) -> (r: Option<Token>)
        requires
            self.wf(),
        ensures
            r == self@.token_of(p as int, c),
    {
        match self.occupant(c) {
            Some(x) => if x.player == p { Some(x.token) } else { None },
            None => None,
        }
    }

    /// Every piece on the board as (player, cell, token), row by row.
    pub fn pieces(&self) -> (r: Vec<(i32, Pos, Token)>)
        requires
            self.wf(),
        ensures
            r@ == rows_listing(self@, self@.size),
            forall|i: int| 0 <= i < r@.len() ==> self@.at((#[trigger] r@[i]).1) == Some(Piece { player: r@[i].0, token: r@[i].2 }),
    {
        let mut out: Vec<(i32, Pos, Token)> = Vec::new();
        let mut row: i32 = 0;
        while row < self.size
            invariant
                self.wf(),
                0 <= row <= self.size,
                out@ == rows_listing(self@, row as int),
                forall|i: int| 0 <= i < out@.len() ==> self@.at((#[trigger] out@[i]).1) == Some(Piece { player: out@[i].0, token: out@[i].2 }),
            decreases self.size - row,
        {
            let mut col: i32 = 0;
            let ghost base = out@;
            while col < self.size
                invariant
                    self.wf(),
                    0 <= row < self.size,
                    0 <= col <= self.size,
                    base == rows_listing(self@, row as int),
                    out@ == base + row_listing(self@, row as int, col as int),
                    forall|i: int| 0 <= i < out@.len() ==> self@.at((#[trigger] out@[i]).1) == Some(Piece { player: out@[i].0, token: out@[i].2 }),
                decreases self.size - col,
            {
                let ghost pre = out@;
                match self.occupant((col, row)) {
                    Some(x) => {
                        out.push((x.player, (col, row), x.token));
                    },
                    None => {},
                }
                proof {
                    assert(row_listing(self@, row as int, col + 1) == row_listing(self@, row as int, col as int) + match self@.cells[row as int][col as int] {
                        Some(x) => seq![(x.player, (col, row), x.token)],
                        None => Seq::<(i32, Pos, Token)>::empty(),
                    });
                    assert(out@ =~= base + row_listing(self@, row as int, col + 1));
                }
                col = col + 1;
            }
            row = row + 1;
        }
        out
    }

    /// Whether player `p` still owns a token.
    fn owns_token(&self, p: i32) -> (r: bool)
        requires
            self.wf(),
        ensures
            r == self@.has_tokens(p as int),
    {
        let mut row: i32 = 0;
        while row < self.size
            invariant
                self.wf(),
                0 <= row <= self.size,
                forall|c: Pos| 0 <= c.1 < row ==> (#[trigger] self@.token_of(p as int, c)) is None,
            decreases self.size - row,
        {
            let mut col: i32 = 0;
            while col < self.size
                invariant
                    self.wf(),
                    0 <= row < self.size,
                    0 <= col <= self.size,
                    forall|c: Pos| 0 <= c.1 < row ==> (#[trigger] self@.token_of(p as int, c)) is None,
                    forall|c: Pos| c.1 == row && 0 <= c.0 < col ==> (#[trigger] self@.token_of(p as int, c)) is None,
                decreases self.size - col,
            {
                if self.token_at(p, (col, row)).is_some() {
                    return true;
                }
                col = col + 1;
            }
            row = row + 1;
        }
        proof {
            assert forall|c: Pos| (#[trigger] self@.token_of(p as int, c)) is None by {
                if !self@.contains(c) {
                } else if c.1 < row {
                }
            }
        }
        false
    }

    /// How many players still own at least one token.
    pub fn players_remaining(&self) -> (r: i32)
        requires
            self.wf(),
        ensures
            r == self@.players_left(),
    {
        let mut count: i32 = 0;
        let mut p: i32 = 0;
        while p < self.num_players
            invariant
                self.wf(),
                0 <= p <= self.num_players,
                count == self@.count_players(p as int),
                0 <= count <= p,
            decreases self.num_players - p,
        {
            if self.owns_token(p) {
                count = count + 1;
            }
            p = p + 1;
        }
        count
    }

    /// Lets `dt` milliseconds pass for every token on the board.
    pub fn update(&mut self, dt: u64)
        requires
            old(self).wf(),
        ensures
            final(self).wf(),
            final(self)@ == old(self)@.ticked(dt as int),
    {
        let ghost start = self@;
        let mut row: i32 = 0;
        while row < self.size
            invariant
                self.wf(),
                self@.size == start.size,
                self@.num_players == start.num_players,
                0 <= row <= self.size,
                forall|c: Pos| start.contains(c) ==> #[trigger] self@.at(c) == if c.1 < row {
                    tick_cell(start.at(c), dt as int)
                } else {
                    start.at(c)
                },
            decreases self.size - row,
        {
            let mut col: i32 = 0;
            while col < self.size
                invariant
                    self.wf(),
                    self@.size == start.size,
                    self@.num_players == start.num_players,
                    0 <= row < self.size,
                    0 <= col <= self.size,
                    forall|c: Pos| start.contains(c) ==> #[trigger] self@.at(c) == if c.1 < row || (c.1 == row && c.0 < col) {
                        tick_cell(start.at(c), dt as int)
                    } else {
                        start.at(c)
                    },
                decreases self.size - col,
            {
                let ghost before = self@;
                match self.occupant((col, row)) {
                    Some(x) => {
                        let mut t = x.token;
                        t.update(dt);
                        self.set_cell((col, row), Some(Piece { player: x.player, token: t }));
                    },
                    None => {},
                }
                proof {
                    assert forall|c: Pos| start.contains(c) implies #[trigger] self@.at(c) == if c.1 < row || (c.1 == row && c.0 < col + 1) {
                        tick_cell(start.at(c), dt as int)
                    } else {
                        start.at(c)
                    } by {
                        if c != (col, row) {
                            assert(self@.at(c) == before.at(c));
                        }
                    }
                }
                col = col + 1;
            }
            row = row + 1;
        }
        proof {
            let want = start.ticked(dt as int);
            assert(self@.cells =~~= want.cells) by {
                assert forall|r: int, k: int| 0 <= r < start.size && 0 <= k < start.size implies self@.cells[r][k] == want.cells[r][k] by {
                    assert(self@.at((k as i32, r as i32)) == tick_cell(start.at((k as i32, r as i32)), dt as int));
                }
            }
        }
    }
}

} // verus!
