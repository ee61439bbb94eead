use vstd::prelude::*;

verus! {

/// How long a token stays in `Prep`, and in `Ready`, before the timer flips it.
pub const TIMEOUT: u64 = 10000;

/// The wait that a freshly placed token serves before it starts preparing.
pub const INITIAL_WAIT: u64 = 1000;

/// The wait that a token serves after every move it makes.
pub const MOVE_COOLDOWN: u64 = 4000;

/// Lifecycle state of a token. Only a `Ready` token may move.
#[derive(Clone, Copy, Debug, PartialEq, Eq, Structural)]
pub enum TokenStates {
    Wait,
    Prep,
    Ready,
    Dead,
}

/// A player's piece and its readiness timer. Times are in milliseconds.
#[derive(Clone, Copy, Debug, PartialEq, Eq, Structural)]
pub struct Token {
    /// Time spent in the current state.
    pub time: u64,
    pub state: TokenStates,
    /// How long the current `Wait` lasts.
    pub wait_time: u64,
}

/// The elapsed time at which a token in state `s` takes its next natural transition.
pub open spec fn threshold(t: Token) -> int {
    match t.state {
        TokenStates::Wait => t.wait_time as int,
        _ => TIMEOUT as int,
    }
}

/// The state that follows `s` once its time is up.
pub open spec fn next_state(s: TokenStates) -> TokenStates {
    match s {
        TokenStates::Wait => TokenStates::Prep,
        TokenStates::Prep => TokenStates::Ready,
        TokenStates::Ready => TokenStates::Prep,
        TokenStates::Dead => TokenStates::Dead,
    }
}

/// A token after `dt` more milliseconds: at most one natural transition,
/// which resets the elapsed time; a dead token does not change.
pub open spec fn advanced(t: Token, dt: int) -> Token {
    if t.state == TokenStates::Dead {
        t
    } else if t.time + dt >= threshold(t) {
        Token { time: 0, state: next_state(t.state), wait_time: t.wait_time }
    } else {
        Token { time: (t.time + dt) as u64, ..t }
    }
}

/// The token as it is right after a move: waiting out the move cooldown.
pub open spec fn cooled(t: Token) -> Token {
    Token { time: 0, state: TokenStates::Wait, wait_time: MOVE_COOLDOWN }
}

impl Token {
    /// A freshly placed token, serving the short initial wait.
    pub fn new() -> (r: Token)
        ensures
            r == (Token { time: 0, state: TokenStates::Wait, wait_time: INITIAL_WAIT }),
    {
        Token { time: 0, state: TokenStates::Wait, wait_time: INITIAL_WAIT }
    }

    pub fn set_wait_time(&mut self, t: u64)
        ensures
            *final(self) == (Token { wait_time: t, ..*old(self) }),
    {
        self.wait_time = t;
    }

    pub fn set_state(&mut self, s: TokenStates)
        ensures
            *final(self) == (Token { state: s, ..*old(self) }),
    {
        self.state = s;
    }

    pub fn reset_time(&mut self)
        ensures
            *final(self) == (Token { time: 0, ..*old(self) }),
    {
        self.time = 0;
    }

    /// Natural transition: lets `dt` milliseconds pass.
    pub fn update(&mut self, dt: u64)
        ensures
            *final(self) == advanced(*old(self), dt as int),
    {
        if self.state == TokenStates::Dead {
            return;
        }
        let limit: u64 = match self.state {
            TokenStates::Wait => self.wait_time,
            _ => TIMEOUT,
        };
        let now = self.time.saturating_add(dt);
        if now >= limit {
            self.reset_time();
            self.state = match self.state {
                TokenStates::Wait => TokenStates::Prep,
                TokenStates::Prep => TokenStates::Ready,
                _ => TokenStates::Prep,
            };
        } else {
            self.time = now;
        }
    }

    /// Forced transition: whatever its state, the token starts the move cooldown.
    pub fn start_cooldown(&mut self)
        ensures
            *final(self) == cooled(*old(self)),
    {
        self.state = TokenStates::Wait;
        self.set_wait_time(MOVE_COOLDOWN);
        self.reset_time();
    }
}

} // verus!
