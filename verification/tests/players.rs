use rps_cli::moves::Moves;
use rps_cli::player::{move_for_selector, Player};

#[test]
fn selectors_name_the_three_moves() {
    assert_eq!(move_for_selector(1), Moves::Rock);
    assert_eq!(move_for_selector(2), Moves::Paper);
    assert_eq!(move_for_selector(3), Moves::Scissors);
}

#[test]
fn a_new_player_has_nothing() {
    let p = Player::new();
    assert_eq!(p.score, 0);
    assert!(p.moves.is_empty());
}

#[test]
fn added_moves_go_to_the_front() {
    let mut p = Player::new();
    p.add_move(Moves::Rock);
    p.add_move(Moves::Paper);
    assert_eq!(p.moves, vec![Moves::Paper, Moves::Rock]);
}

#[test]
fn clearing_keeps_the_score() {
    let mut p = Player::new();
    p.score = 2;
    p.add_move(Moves::Scissors);
    p.clear_moves();
    assert!(p.moves.is_empty());
    assert_eq!(p.score, 2);
}

#[test]
fn a_random_play_records_one_move() {
    let mut p = Player::new();
    p.add_move(Moves::Rock);
    p.make_random_play();
    assert_eq!(p.moves.len(), 2);
    assert_eq!(p.moves[1], Moves::Rock);
    assert_eq!(p.score, 0);
}

#[test]
fn n_generated_moves_records_n() {
    let mut p = Player::new();
    p.make_n_generated_moves(5);
    assert_eq!(p.moves.len(), 5);
    p.make_n_generated_moves(0);
    assert_eq!(p.moves.len(), 5);
    p.make_n_generated_moves(-3);
    assert_eq!(p.moves.len(), 5);
}

#[test]
fn random_moves_are_roughly_uniform() {
    let p = Player::new();
    let mut counts = [0u32; 3];
    for _ in 0..10000 {
        match p.make_random_move() {
            Moves::Rock => counts[0] += 1,
            Moves::Paper => counts[1] += 1,
            Moves::Scissors => counts[2] += 1,
        }
    }
    // Each variant is expected about 3333 times; six standard deviations of
    // the binomial count are about 280 either way.
    for c in counts.iter() {
        assert!(
            2900 <= *c && *c <= 3800,
            "variant count {} is far from uniform",
            c
        );
    }
}
