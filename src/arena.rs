use vstd::prelude::*;

use crate::types::GameMode;

verus! {

/// The state of one live 1v1 game.
#[derive(Clone, Copy, Debug, PartialEq, Eq, Structural)]
pub struct OneVOneArena {
    pub mode: GameMode,
    pub round: u32,
    pub p1_score: u32,
    pub p2_score: u32,
}

/// The one-byte tag of a game mode in a snapshot.
pub open spec fn mode_tag(m: GameMode) -> u8 {
    match m {
        GameMode::OneVOneNormal => 0,
    }
}

/// The four little-endian bytes of `x`.
pub open spec fn le_bytes(x: u32) -> Seq<u8> {
    seq![
        (x % 256) as u8,
        ((x / 256) % 256) as u8,
        ((x / 65536) % 256) as u8,
        (x / 16777216) as u8,
    ]
}

/// The snapshot of an arena: its mode tag, then round and both scores,
/// each as four little-endian bytes.
pub open spec fn snapshot_of(a: OneVOneArena) -> Seq<u8> {
    seq![mode_tag(a.mode)] + le_bytes(a.round) + le_bytes(a.p1_score) + le_bytes(a.p2_score)
}

/// A game that has not started: round zero, no points.
pub open spec fn fresh_arena() -> OneVOneArena {
    OneVOneArena { mode: GameMode::OneVOneNormal, round: 0, p1_score: 0, p2_score: 0 }
}

fn push_le_bytes(out: &mut Vec<u8>, x: u32)
    ensures
        final(out)@ == old(out)@ + le_bytes(x),
{
    out.push((x % 256) as u8);
    out.push(((x / 256) % 256) as u8);
    out.push(((x / 65536) % 256) as u8);
    out.push((x / 16777216) as u8);
    assert(final(out)@ =~= old(out)@ + le_bytes(x));
}

impl OneVOneArena {
    /// A game that has not started: round zero, no points.
    pub fn new() -> (r: OneVOneArena)
        ensures
            r == fresh_arena(),
    {
        OneVOneArena { mode: GameMode::OneVOneNormal, round: 0, p1_score: 0, p2_score: 0 }
    }

    /// The snapshot sent to both players when the match starts.
    pub fn encode(&self) -> (r: Vec<u8>)
        ensures
            r@ == snapshot_of(*self),
            r@.len() == 13,
    {
        let mut out: Vec<u8> = Vec::new();
        match self.mode {
            GameMode::OneVOneNormal => out.push(0u8),
        }
        push_le_bytes(&mut out, self.round);
        push_le_bytes(&mut out, self.p1_score);
        push_le_bytes(&mut out, self.p2_score);
        assert(out@ =~= snapshot_of(*self));
        out
    }
}

} // verus!
