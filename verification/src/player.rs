//! A player of the match: a running score and the moves thrown in the
//! current round, newest first. The computer player draws its moves from a
//! random source; the human player's moves are handed in by the caller.

use rand::Rng;
use vstd::prelude::*;

use crate::moves::Moves;

verus! {

/// One side of the match. `score` only grows while a match runs; `moves`
/// holds the moves of the current round, most recent at the front, and is
/// cleared once the round is scored.
pub struct Player {
    pub score: i32,
    pub moves: Vec<Moves>,
}

/// Relies on rand's `Rng::gen_range`: it returns a value in the given range
/// and panics only on an empty range, which `1..=3` is not. Nothing more can
/// be promised of a random draw.
#[verifier::external_body]
fn random_selector() -> (r: i32)
    ensures
        1 <= r <= 3,
{
    rand::thread_rng().gen_range(1..=3)
}

/// The move a drawn selector names: 1 is rock, 2 is paper, 3 is scissors.
pub fn move_for_selector(r: i32) -> (m: Moves)
    requires
        1 <= r <= 3,
    ensures
        m == (if r == 1 {
            Moves::Rock
        } else if r == 2 {
            Moves::Paper
        } else {
            Moves::Scissors
        }),
{
    if r == 1 {
        Moves::Rock
    } else if r == 2 {
        Moves::Paper
    } else {
        Moves::Scissors
    }
}

impl Player {
    /// A fresh player: no points yet, no move thrown.
    pub fn new() -> (p: Player)
        ensures
            p.score == 0,
            p.moves@ =~= Seq::<Moves>::empty(),
    {
        Player { score: 0, moves: Vec::new() }
    }

    /// Draw one move uniformly from the three variants. The draw is random,
    /// so no more is promised than what holds of every outcome: the result is
    /// one of the three moves.
    pub fn make_random_move(&self) -> (m: Moves)
        ensures
            m == Moves::Rock || m == Moves::Paper || m == Moves::Scissors,
    {
        let r = random_selector();
        move_for_selector(r)
    }

    /// Put a move at the front of the current round's moves; the score and
    /// the earlier moves stay as they were.
    pub fn add_move(&mut self, play: Moves)
        ensures
            final(self).moves@ =~= seq![play] + old(self).moves@,
            final(self).score == old(self).score,
    {
        self.moves.insert(0, play);
    }

    /// Draw a random move and put it at the front of the round's moves.
    pub fn make_random_play(&mut self)
        ensures
            final(self).moves@.len() == old(self).moves@.len() + 1,
            final(self).moves@.skip(1) =~= old(self).moves@,
            final(self).score == old(self).score,
    {
        let random_move = self.make_random_move();
        self.add_move(random_move);
    }

    /// Draw and record `n` random moves in a row; a non-positive `n` records
    /// none.
    pub fn make_n_generated_moves(&mut self, n: i32)
        ensures
            final(self).moves@.len() == old(self).moves@.len() + (if n >= 0 {
                n as int
            } else {
                0
            }),
            final(self).moves@.skip(final(self).moves@.len() - old(self).moves@.len())
                =~= old(self).moves@,
            final(self).score == old(self).score,
    {
        let ghost start = self.moves@;
        let mut i: i32 = 0;
        while i < n
            invariant
                0 <= i,
                n >= 0 ==> i <= n,
                n < 0 ==> i == 0,
                self.moves@.len() == start.len() + i,
                self.moves@.skip(i as int) =~= start,
                self.score == old(self).score,
            decreases n - i,
        {
            let ghost before = self.moves@;
            self.make_random_play();
            proof {
                assert(self.moves@.skip(1) =~= before);
                assert(self.moves@.skip(i + 1) =~= self.moves@.skip(1).skip(i as int));
            }
            i = i + 1;
        }
    }

    /// Forget the moves of the round just scored; the score stays.
    pub fn clear_moves(&mut self)
        ensures
            final(self).moves@ =~= Seq::<Moves>::empty(),
            final(self).score == old(self).score,
    {
        self.moves.clear();
    }
}

} // verus!
