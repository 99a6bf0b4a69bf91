//! The outcome table, the round evaluator and the match loop.
//!
//! The table maps each ordered pair of distinct moves to the point pair it
//! awards; equal moves are absent on purpose, and that lookup miss marks a
//! drawn round, in which both sides gain a point.

use vstd::prelude::*;

use crate::moves::{
    first_award, outcome_spec, round_result_spec, second_award, Moves, RoundResult, Standing,
};
use crate::player::Player;

verus! {

/// The six rows of the outcome table: every ordered pair of distinct moves
/// with the points it awards to the pair's owner and opponent.
pub open spec fn table_rows() -> Seq<((Moves, Moves), (u8, u8))> {
    seq![
        ((Moves::Rock, Moves::Paper), (0u8, 1u8)),
        ((Moves::Paper, Moves::Rock), (1u8, 0u8)),
        ((Moves::Rock, Moves::Scissors), (1u8, 0u8)),
        ((Moves::Scissors, Moves::Rock), (0u8, 1u8)),
        ((Moves::Paper, Moves::Scissors), (0u8, 1u8)),
        ((Moves::Scissors, Moves::Paper), (1u8, 0u8)),
    ]
}

/// The fixed outcome table. It is built once, holds exactly the six rows of
/// `table_rows`, and is never changed afterwards: the field is private and no
/// method writes it.
pub struct WinConditions {
    rows: Vec<((Moves, Moves), (u8, u8))>,
}

impl WinConditions {
    /// The table holds exactly the six rows, in their fixed order.
    pub closed spec fn wf(&self) -> bool {
        self.rows@ =~= table_rows()
    }

    /// Build the outcome table with all six non-tie ordered pairs.
    pub fn new() -> (t: WinConditions)
        ensures
            t.wf(),
    {
        let mut rows: Vec<((Moves, Moves), (u8, u8))> = Vec::new();
        rows.push(((Moves::Rock, Moves::Paper), (0u8, 1u8)));
        rows.push(((Moves::Paper, Moves::Rock), (1u8, 0u8)));
        rows.push(((Moves::Rock, Moves::Scissors), (1u8, 0u8)));
        rows.push(((Moves::Scissors, Moves::Rock), (0u8, 1u8)));
        rows.push(((Moves::Paper, Moves::Scissors), (0u8, 1u8)));
        rows.push(((Moves::Scissors, Moves::Paper), (1u8, 0u8)));
        WinConditions { rows }
    }
}

/// Look the ordered pair `(move1, move2)` up in the outcome table: the point
/// pair it awards when the moves differ, nothing when they are equal.
pub fn evaluate_move(move1: &Moves, move2: &Moves, win_conditions: &WinConditions) -> (r: Option<
    (u8, u8),
>)
    requires
        win_conditions.wf(),
    ensures
        r == outcome_spec(*move1, *move2),
{
    let m1 = *move1;
    let m2 = *move2;
    let mut idx: usize = 0;
    while idx < win_conditions.rows.len()
        invariant
            win_conditions.wf(),
            idx <= win_conditions.rows@.len(),
            forall|k: int|
                0 <= k < idx ==> (win_conditions.rows@[k].0.0 != m1
                    || win_conditions.rows@[k].0.1 != m2),
            m1 == *move1,
            m2 == *move2,
        decreases win_conditions.rows@.len() - idx,
    {
        let row = win_conditions.rows[idx];
        if row.0.0 == m1 && row.0.1 == m2 {
            proof {
                assert(win_conditions.rows@ =~= table_rows());
            }
            return Some(row.1);
        }
        idx = idx + 1;
    }
    proof {
        assert(win_conditions.rows@ =~= table_rows());
        assert(win_conditions.rows@[0].0 == (Moves::Rock, Moves::Paper));
        assert(win_conditions.rows@[1].0 == (Moves::Paper, Moves::Rock));
        assert(win_conditions.rows@[2].0 == (Moves::Rock, Moves::Scissors));
        assert(win_conditions.rows@[3].0 == (Moves::Scissors, Moves::Rock));
        assert(win_conditions.rows@[4].0 == (Moves::Paper, Moves::Scissors));
        assert(win_conditions.rows@[5].0 == (Moves::Scissors, Moves::Paper));
        assert(m1 == m2);
    }
    None
}

/// Score one round from the most recent move of each player: the winner of a
/// decided round gains a point, a drawn round gives both sides one. The
/// players' move lists are left as they were.
pub fn score_round(user: &mut Player, computer: &mut Player, win_conditions: &WinConditions) -> (r:
    RoundResult)
    requires
        win_conditions.wf(),
        old(user).moves@.len() > 0,
        old(computer).moves@.len() > 0,
        old(user).score < i32::MAX,
        old(computer).score < i32::MAX,
    ensures
        ({
            let um = old(user).moves@[0];
            let cm = old(computer).moves@[0];
            &&& final(user).score == old(user).score + first_award(um, cm)
            &&& final(computer).score == old(computer).score + second_award(um, cm)
            &&& final(user).moves@ == old(user).moves@
            &&& final(computer).moves@ == old(computer).moves@
            &&& r == round_result_spec(um, cm)
        }),
{
    let um = user.moves[0];
    let cm = computer.moves[0];
    match evaluate_move(&um, &cm, win_conditions) {
        Some(points) => {
            if points.0 == 1 {
                user.score = user.score + 1;
                RoundResult::HumanWin
            } else {
                computer.score = computer.score + 1;
                RoundResult::ComputerWin
            }
        },
        None => {
            user.score = user.score + 1;
            computer.score = computer.score + 1;
            RoundResult::Draw
        },
    }
}

/// Who stands ahead when the human's score is `user_score` and the
/// computer's is `computer_score`.
pub open spec fn standing_spec(user_score: i32, computer_score: i32) -> Standing {
    if user_score > computer_score {
        Standing::HumanLeads
    } else if user_score < computer_score {
        Standing::ComputerLeads
    } else {
        Standing::Level
    }
}

/// Compare the two cumulative scores, as the match loop does after every
/// round.
pub fn standing(user_score: i32, computer_score: i32) -> (s: Standing)
    ensures
        s == standing_spec(user_score, computer_score),
{
    if user_score > computer_score {
        Standing::HumanLeads
    } else if user_score < computer_score {
        Standing::ComputerLeads
    } else {
        Standing::Level
    }
}

/// The first player's total over a match in which the two sides throw the
/// paired moves of `us` and `cs`, round by round.
pub open spec fn total_first_award(us: Seq<Moves>, cs: Seq<Moves>) -> int
    decreases us.len(),
{
    if us.len() == 0 || cs.len() == 0 {
        0
    } else {
        first_award(us[0], cs[0]) + total_first_award(us.drop_first(), cs.drop_first())
    }
}

/// The second player's total over the same match.
pub open spec fn total_second_award(us: Seq<Moves>, cs: Seq<Moves>) -> int
    decreases us.len(),
{
    if us.len() == 0 || cs.len() == 0 {
        0
    } else {
        second_award(us[0], cs[0]) + total_second_award(us.drop_first(), cs.drop_first())
    }
}

/// Play a whole match with both sides' moves given in advance, one pair per
/// round, and return the final scores `(human, computer)`. Each player's
/// final score is exactly the sum of that player's per-round awards.
pub fn run_match(user_moves: &Vec<Moves>, computer_moves: &Vec<Moves>) -> (scores: (i32, i32))
    requires
        user_moves@.len() == computer_moves@.len(),
        user_moves@.len() <= i32::MAX,
    ensures
        scores.0 == total_first_award(user_moves@, computer_moves@),
        scores.1 == total_second_award(user_moves@, computer_moves@),
{
    let win_conditions = WinConditions::new();
    let mut user = Player::new();
    let mut computer = Player::new();
    let ghost us = user_moves@;
    let ghost cs = computer_moves@;
    proof {
        assert(us.skip(0) =~= us);
        assert(cs.skip(0) =~= cs);
    }
    let mut i: usize = 0;
    while i < user_moves.len()
        invariant
            us == user_moves@,
            cs == computer_moves@,
            us.len() == cs.len(),
            us.len() <= i32::MAX,
            i <= us.len(),
            win_conditions.wf(),
            user.moves@.len() == 0,
            computer.moves@.len() == 0,
            0 <= user.score <= i,
            0 <= computer.score <= i,
            user.score + total_first_award(us.skip(i as int), cs.skip(i as int))
                == total_first_award(us, cs),
            computer.score + total_second_award(us.skip(i as int), cs.skip(i as int))
                == total_second_award(us, cs),
        decreases us.len() - i,
    {
        user.add_move(user_moves[i]);
        computer.add_move(computer_moves[i]);
        score_round(&mut user, &mut computer, &win_conditions);
        user.clear_moves();
        computer.clear_moves();
        proof {
            let rest_u = us.skip(i as int);
            let rest_c = cs.skip(i as int);
            assert(rest_u.len() > 0 && rest_c.len() > 0);
            assert(rest_u[0] == us[i as int]);
            assert(rest_c[0] == cs[i as int]);
            assert(rest_u.drop_first() =~= us.skip(i + 1));
            assert(rest_c.drop_first() =~= cs.skip(i + 1));
        }
        i = i + 1;
    }
    proof {
        assert(us.skip(us.len() as int).len() == 0);
        assert(cs.skip(cs.len() as int).len() == 0);
    }
    (user.score, computer.score)
}

} // verus!
