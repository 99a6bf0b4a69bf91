//! The move alphabet of the game and the fixed rule that scores one round.
//!
//! A round pits two moves against each other. Distinct moves give the winner
//! one point; equal moves are a draw in which both sides gain a point.

use vstd::prelude::*;

verus! {

/// One of the three moves a player can throw in a round.
#[derive(Clone, Copy, Debug, PartialEq, Eq, Structural)]
pub enum Moves {
    Rock,
    Paper,
    Scissors,
}

/// How one round ends, seen from the human player's side.
#[derive(Clone, Copy, Debug, PartialEq, Eq, Structural)]
pub enum RoundResult {
    HumanWin,
    ComputerWin,
    Draw,
}

/// Who is ahead when two cumulative scores are compared.
#[derive(Clone, Copy, Debug, PartialEq, Eq, Structural)]
pub enum Standing {
    HumanLeads,
    ComputerLeads,
    Level,
}

/// The cyclic rule of the game: rock blunts scissors, paper wraps rock,
/// scissors cut paper.
pub open spec fn beats(a: Moves, b: Moves) -> bool {
    ||| (a == Moves::Rock && b == Moves::Scissors)
    ||| (a == Moves::Paper && b == Moves::Rock)
    ||| (a == Moves::Scissors && b == Moves::Paper)
}

/// What the outcome table holds for an ordered pair of moves: the point pair
/// for the pair's owner and opponent when the moves differ, and nothing when
/// they are equal (a lookup miss marks a draw).
pub open spec fn outcome_spec(a: Moves, b: Moves) -> Option<(u8, u8)> {
    if a == b {
        None
    } else if beats(a, b) {
        Some((1u8, 0u8))
    } else {
        Some((0u8, 1u8))
    }
}

/// Points the first player earns from one round, the drawn round included:
/// a draw awards a point to each side.
pub open spec fn first_award(a: Moves, b: Moves) -> int {
    if a == b {
        1
    } else if beats(a, b) {
        1
    } else {
        0
    }
}

/// Points the second player earns from one round.
pub open spec fn second_award(a: Moves, b: Moves) -> int {
    if a == b {
        1
    } else if beats(a, b) {
        0
    } else {
        1
    }
}

/// The result of a round in which the human throws `a` and the computer `b`.
pub open spec fn round_result_spec(a: Moves, b: Moves) -> RoundResult {
    if a == b {
        RoundResult::Draw
    } else if beats(a, b) {
        RoundResult::HumanWin
    } else {
        RoundResult::ComputerWin
    }
}

/// The outcome table is symmetric: whenever a pair of distinct moves awards
/// points one way, the reversed pair awards the same points the other way.
pub proof fn lemma_outcome_swapped(a: Moves, b: Moves)
    requires
        a != b,
    ensures
        outcome_spec(a, b) is Some,
        outcome_spec(b, a) is Some,
        outcome_spec(b, a) == Some(
            ((outcome_spec(a, b)->Some_0).1, (outcome_spec(a, b)->Some_0).0),
        ),
{
}

/// Equal moves draw: the table holds no entry for them, and each side is
/// awarded exactly one point.
pub proof fn lemma_tie_awards_both(a: Moves)
    ensures
        outcome_spec(a, a) is None,
        first_award(a, a) == 1,
        second_award(a, a) == 1,
{
}

/// A drawn round hands out exactly two points in total, one to each side.
pub proof fn lemma_round_awards_two(a: Moves, b: Moves)
    requires
        a == b,
    ensures
        first_award(a, b) + second_award(a, b) == 2,
{
}

/// What one round hands out in total: two points on a draw, one otherwise.
pub proof fn lemma_round_award_total(a: Moves, b: Moves)
    ensures
        first_award(a, b) + second_award(a, b) == (if a == b {
            2int
        } else {
            1int
        }),
{
}

} // verus!
