use vstd::prelude::*;

use crate::board::Pos;

verus! {

/// What a computer participant holds: its player, a chosen origin and a pending request.
pub struct CpuState {
    pub player: i32,
    pub selection: Option<Pos>,
    pub pending: Option<(Pos, Pos)>,
}

/// A computer participant. It is only a placeholder: it never requests a move.
pub struct CpuPlayer {
    selection: Option<Pos>,
    player_num: i32,
    move_buffer: Option<(Pos, Pos)>,
}

impl View for CpuPlayer {
    type V = CpuState;

    closed spec fn view(&self) -> CpuState {
        CpuState { player: self.player_num, selection: self.selection, pending: self.move_buffer }
    }
}

impl CpuPlayer {
    pub fn new(p: i32) -> (r: CpuPlayer)
        ensures
            r@ == (CpuState { player: p, selection: None, pending: None }),
    {
        CpuPlayer { selection: None, player_num: p, move_buffer: None }
    }

    pub fn player_num(&self) -> (r: i32)
        ensures
            r == self@.player,
    {
        self.player_num
    }

    /// The move request waiting to be applied, as (origin, destination).
    pub fn pending_move(&self) -> (r: Option<(Pos, Pos)>)
        ensures
            r == self@.pending,
    {
        self.move_buffer
    }
}

} // verus!
