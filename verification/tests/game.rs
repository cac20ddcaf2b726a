use blackhat::commit::make_commitment;
use blackhat::game::{join, setup, settle, submit, Game, GameError, Party, PartyId};

fn pid(tag: u8) -> PartyId {
    PartyId { bytes: [tag; 32] }
}

/// A game between creator `1` and player `2`, already set up with the given
/// bet and a commitment to `(max_score, salt)`.
fn fresh(bet: u64, max_score: u64, salt: u64) -> Game {
    let commitment = make_commitment(max_score, salt);
    let (game, stake) = setup(pid(1), pid(2), bet, commitment).unwrap();
    assert_eq!(stake.amount, 9 * bet);
    assert_eq!(stake.from, Party::Creator);
    assert_eq!(stake.to, Party::Escrow);
    game
}

#[test]
fn setup_initializes_record() {
    let commitment = make_commitment(50, 42);
    let (game, stake) = setup(pid(1), pid(2), 100, commitment).unwrap();
    assert_eq!(game.creator.bytes, [1u8; 32]);
    assert_eq!(game.player.bytes, [2u8; 32]);
    assert_eq!(game.bet, 100);
    assert_eq!(game.commitment, commitment);
    assert_eq!(game.user_random, None);
    assert_eq!(game.score, None);
    assert_eq!(game.payout, None);
    assert_eq!(stake.amount, 900);
}

#[test]
fn setup_rejects_stake_overflow() {
    let commitment = make_commitment(50, 42);
    let bet = u64::MAX / 9 + 1;
    assert_eq!(
        setup(pid(1), pid(2), bet, commitment).unwrap_err(),
        GameError::StakeOverflow
    );
}

#[test]
fn setup_accepts_largest_bet() {
    let bet = u64::MAX / 9;
    let game = fresh(bet, 50, 42);
    assert_eq!(game.bet, bet);
}

#[test]
fn scenario_full_round() {
    let mut game = fresh(100, 50, 42);
    let stake = join(&mut game, pid(2), 7).unwrap();
    assert_eq!(stake.amount, 100);
    assert_eq!(stake.from, Party::Player);
    assert_eq!(stake.to, Party::Escrow);
    assert_eq!(game.user_random, Some(7));
    submit(&mut game, pid(2), 20).unwrap();
    assert_eq!(game.score, Some(20));
    let payout = settle(&mut game, pid(1), 50, 42, 20).unwrap();
    assert_eq!(payout.amount, 800);
    assert_eq!(payout.from, Party::Escrow);
    assert_eq!(payout.to, Party::Player);
    assert_eq!(game.payout, Some(800));
}

#[test]
fn scenario_void_score() {
    let mut game = fresh(100, 50, 42);
    join(&mut game, pid(2), 7).unwrap();
    submit(&mut game, pid(2), 60).unwrap();
    let payout = settle(&mut game, pid(1), 50, 42, 60).unwrap();
    assert_eq!(payout.amount, 0);
    assert_eq!(game.payout, Some(0));
}

#[test]
fn scenario_altered_salt_rejected() {
    let mut game = fresh(100, 50, 42);
    join(&mut game, pid(2), 7).unwrap();
    submit(&mut game, pid(2), 20).unwrap();
    let before = game.clone();
    assert_eq!(
        settle(&mut game, pid(1), 50, 43, 20).unwrap_err(),
        GameError::CommitmentMismatch
    );
    assert_eq!(game.payout, None);
    assert_eq!(game.score, before.score);
    assert_eq!(game.commitment, before.commitment);
    let payout = settle(&mut game, pid(1), 50, 42, 20).unwrap();
    assert_eq!(payout.amount, 800);
}

#[test]
fn scenario_altered_max_score_rejected() {
    let mut game = fresh(100, 50, 42);
    join(&mut game, pid(2), 7).unwrap();
    submit(&mut game, pid(2), 20).unwrap();
    assert_eq!(
        settle(&mut game, pid(1), 51, 42, 20).unwrap_err(),
        GameError::CommitmentMismatch
    );
    assert_eq!(game.payout, None);
}

#[test]
fn scenario_second_submit_rejected() {
    let mut game = fresh(100, 50, 42);
    join(&mut game, pid(2), 7).unwrap();
    submit(&mut game, pid(2), 20).unwrap();
    assert_eq!(
        submit(&mut game, pid(2), 5).unwrap_err(),
        GameError::ScoreAlreadySet
    );
    assert_eq!(game.score, Some(20));
}

#[test]
fn second_join_rejected() {
    let mut game = fresh(100, 50, 42);
    join(&mut game, pid(2), 7).unwrap();
    assert_eq!(
        join(&mut game, pid(2), 8).unwrap_err(),
        GameError::RandomAlreadySet
    );
    assert_eq!(game.user_random, Some(7));
}

#[test]
fn join_requires_bound_player() {
    let mut game = fresh(100, 50, 42);
    assert_eq!(
        join(&mut game, pid(3), 7).unwrap_err(),
        GameError::UnauthorizedCaller
    );
    assert_eq!(game.user_random, None);
}

#[test]
fn submit_requires_bound_player() {
    let mut game = fresh(100, 50, 42);
    join(&mut game, pid(2), 7).unwrap();
    assert_eq!(
        submit(&mut game, pid(1), 20).unwrap_err(),
        GameError::UnauthorizedCaller
    );
    assert_eq!(game.score, None);
}

#[test]
fn settle_requires_creator() {
    let mut game = fresh(100, 50, 42);
    join(&mut game, pid(2), 7).unwrap();
    submit(&mut game, pid(2), 20).unwrap();
    assert_eq!(
        settle(&mut game, pid(2), 50, 42, 20).unwrap_err(),
        GameError::UnauthorizedCaller
    );
    assert_eq!(game.payout, None);
}

#[test]
fn settle_requires_submitted_score() {
    let mut game = fresh(100, 50, 42);
    join(&mut game, pid(2), 7).unwrap();
    assert_eq!(
        settle(&mut game, pid(1), 50, 42, 20).unwrap_err(),
        GameError::ScoreNotSubmitted
    );
    assert_eq!(game.payout, None);
}

#[test]
fn settle_is_terminal() {
    let mut game = fresh(100, 50, 42);
    join(&mut game, pid(2), 7).unwrap();
    submit(&mut game, pid(2), 20).unwrap();
    settle(&mut game, pid(1), 50, 42, 20).unwrap();
    assert_eq!(
        settle(&mut game, pid(1), 50, 42, 20).unwrap_err(),
        GameError::AlreadySettled
    );
    assert_eq!(game.payout, Some(800));
}

#[test]
fn settle_rejects_underflowing_score() {
    let mut game = fresh(100, 200, 42);
    join(&mut game, pid(2), 7).unwrap();
    submit(&mut game, pid(2), 150).unwrap();
    assert_eq!(
        settle(&mut game, pid(1), 200, 42, 150).unwrap_err(),
        GameError::ScoreUnderflow
    );
    assert_eq!(game.payout, None);
}

#[test]
fn settle_rejects_overflowing_payout() {
    let bet = u64::MAX / 9;
    let mut game = fresh(bet, 50, 42);
    join(&mut game, pid(2), 7).unwrap();
    submit(&mut game, pid(2), 0).unwrap();
    assert_eq!(
        settle(&mut game, pid(1), 50, 42, 0).unwrap_err(),
        GameError::PayoutOverflow
    );
    assert_eq!(game.payout, None);
}

#[test]
fn payout_formula_exact_values() {
    for (score, expected) in [(0u64, 1000u64), (25, 750), (50, 500)] {
        let mut game = fresh(100, 50, 42);
        join(&mut game, pid(2), 7).unwrap();
        submit(&mut game, pid(2), score).unwrap();
        let payout = settle(&mut game, pid(1), 50, 42, score).unwrap();
        assert_eq!(payout.amount, expected);
    }
}

#[test]
fn payout_floor_division() {
    // (100 - 33) * 5 = 335, floored to 33.
    let mut game = fresh(5, 50, 42);
    join(&mut game, pid(2), 7).unwrap();
    submit(&mut game, pid(2), 33).unwrap();
    let payout = settle(&mut game, pid(1), 50, 42, 33).unwrap();
    assert_eq!(payout.amount, 33);
}

#[test]
fn payout_non_increasing_in_score() {
    let mut last = u64::MAX;
    for score in [0u64, 10, 20, 30, 40, 50] {
        let mut game = fresh(100, 50, 42);
        join(&mut game, pid(2), 7).unwrap();
        submit(&mut game, pid(2), score).unwrap();
        let payout = settle(&mut game, pid(1), 50, 42, score).unwrap();
        assert!(payout.amount <= last);
        last = payout.amount;
    }
}

#[test]
fn escrow_covers_maximum_payout() {
    // Both stakes together hold 10 * bet, the formula's maximum at score 0.
    let bet = 100u64;
    let commitment = make_commitment(50, 42);
    let (mut game, creator_stake) = setup(pid(1), pid(2), bet, commitment).unwrap();
    let player_stake = join(&mut game, pid(2), 7).unwrap();
    submit(&mut game, pid(2), 0).unwrap();
    let payout = settle(&mut game, pid(1), 50, 42, 0).unwrap();
    assert_eq!(creator_stake.amount + player_stake.amount, 1000);
    assert_eq!(payout.amount, 1000);
    assert!(payout.amount <= creator_stake.amount + player_stake.amount);
}

#[test]
fn commitments_differ_for_different_secrets() {
    let base = make_commitment(50, 42);
    assert_ne!(base, make_commitment(50, 43));
    assert_ne!(base, make_commitment(51, 42));
    assert_ne!(base, make_commitment(42, 50));
    assert_eq!(base, make_commitment(50, 42));
}
