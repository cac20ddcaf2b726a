//! The game escrow state machine: data model, transitions and payout rules.
//!
//! A `Game` moves through four states, each entered by exactly one operation:
//! created by `setup`, joined by `join`, scored by `submit`, and finished by
//! `settle`. Every operation either applies in full, returning the transfer
//! the custodial ledger must execute atomically with it, or rejects with a
//! `GameError` and leaves the record unchanged.

use vstd::prelude::*;
use vstd::arithmetic::div_mod::{lemma_div_is_ordered, lemma_div_multiples_vanish};
use crate::commit::{
    bytes32_eq, commit_input, keccak_of, lemma_commit_input_injective, make_commitment,
};

verus! {

/// The identity of a party, as the 32 raw bytes of its ledger address.
#[derive(Clone, Copy, Debug)]
pub struct PartyId {
    pub bytes: [u8; 32],
}

/// The accounts among which the custodial ledger moves value on the state
/// machine's behalf.
#[derive(Clone, Copy, Debug, PartialEq, Eq, Structural)]
pub enum Party {
    /// The party that funds the game and settles it by revealing its secret.
    Creator,
    /// The counterparty that joins, submits a score and receives the payout.
    Player,
    /// The per-game custody account that holds both stakes until settlement.
    Escrow,
}

/// A value transfer the state machine asks the custodial ledger to execute
/// atomically with the transition that produced it.
#[derive(Clone, Copy, Debug, PartialEq, Eq, Structural)]
pub struct TransferRequest {
    pub from: Party,
    pub to: Party,
    pub amount: u64,
}

/// Why a transition was rejected. Every rejection is fatal for that call and
/// leaves the game record exactly as it was.
#[derive(Clone, Copy, Debug, PartialEq, Eq, Structural)]
pub enum GameError {
    /// The caller is not the party this transition is reserved to.
    UnauthorizedCaller,
    /// The player already joined: `user_random` is write-once.
    RandomAlreadySet,
    /// The player already submitted: `score` is write-once.
    ScoreAlreadySet,
    /// Settlement needs a submitted score.
    ScoreNotSubmitted,
    /// The game was already settled and is terminal.
    AlreadySettled,
    /// The revealed pair does not hash back to the commitment: an integrity
    /// failure, never retried, no value moves.
    CommitmentMismatch,
    /// The creator stake `9 * bet` does not fit in 64 bits.
    StakeOverflow,
    /// `100 - score` would underflow: the claimed score exceeds 100 without
    /// exceeding the revealed ceiling.
    ScoreUnderflow,
    /// The payout does not fit in 64 bits.
    PayoutOverflow,
}

/// One wagering session between a creator and a player.
#[derive(Clone, Copy, Debug)]
pub struct Game {
    /// Fixed at creation; the only party that may settle.
    pub creator: PartyId,
    /// Fixed at creation; the only party that may join and submit.
    pub player: PartyId,
    /// Stake unit, fixed at creation.
    pub bet: u64,
    /// Keccak-256 digest of the creator's secret `(max_score, salt)` pair,
    /// fixed at creation.
    pub commitment: [u8; 32],
    /// Player-supplied randomness, written exactly once by `join`.
    pub user_random: Option<u64>,
    /// Settlement result, written exactly once by `settle`.
    pub payout: Option<u64>,
    /// The player's claimed result, written exactly once by `submit`.
    pub score: Option<u64>,
}

/// The stake `setup` locks from the creator.
pub open spec fn creator_stake(bet: u64) -> int {
    9 * bet
}

/// Everything custody holds once both parties have staked: `9 * bet` from the
/// creator and `bet` from the player.
pub open spec fn total_custody(bet: u64) -> int {
    creator_stake(bet) + bet
}

/// Payout owed to the player for a revealed ceiling `max_score` and a claimed
/// `score`, as a mathematical integer: a score above the ceiling is void and
/// pays nothing, otherwise the payout is `(100 - score) * bet / 10` with floor
/// division.
pub open spec fn spec_payout(bet: u64, max_score: u64, score: u64) -> int {
    if score > max_score {
        0
    } else {
        (100 - score) * bet / 10
    }
}

/// The record `setup` creates: both identities and the immutable stake and
/// commitment, with every write-once field still unset.
pub open spec fn fresh_game(creator: PartyId, player: PartyId, bet: u64, commitment: [u8; 32]) -> Game {
    Game { creator, player, bet, commitment, user_random: None, payout: None, score: None }
}

/// The record after a successful `join`.
pub open spec fn joined(g: Game, r: u64) -> Game {
    Game { user_random: Some(r), ..g }
}

/// The record after a successful `submit`.
pub open spec fn scored(g: Game, score: u64) -> Game {
    Game { score: Some(score), ..g }
}

/// The record after a successful `settle`.
pub open spec fn settled(g: Game, payout: u64) -> Game {
    Game { payout: Some(payout), ..g }
}

/// `join` applies exactly when the bound player calls it and has not joined.
pub open spec fn join_allowed(g: Game, caller: PartyId) -> bool {
    caller == g.player && g.user_random is None
}

/// `submit` applies exactly when the bound player calls it and no score is set.
pub open spec fn submit_allowed(g: Game, caller: PartyId) -> bool {
    caller == g.player && g.score is None
}

/// `settle` is open exactly to the creator, after a score was submitted and
/// before any settlement.
pub open spec fn settle_allowed(g: Game, caller: PartyId) -> bool {
    caller == g.creator && g.score is Some && g.payout is None
}

/// The revealed pair hashes back, byte for byte, to the digest captured at
/// creation.
pub open spec fn commitment_matches(g: Game, max_score: u64, salt: u64) -> bool {
    keccak_of(commit_input(max_score, salt)) == g.commitment@
}

/// Starts a session: builds the game record and asks the ledger to lock the
/// creator's stake of `9 * bet` in escrow. An overflowing stake is rejected
/// and nothing is created.
pub fn setup(creator: PartyId, player: PartyId, bet: u64, commitment: [u8; 32]) -> (r: Result<
    (Game, TransferRequest),
    GameError,
>)
    requires
        bet >= 1,
    ensures
        match r {
            Ok(p) => {
                &&& creator_stake(bet) <= u64::MAX
                &&& p.0 == fresh_game(creator, player, bet, commitment)
                &&& p.1 == (TransferRequest {
                    from: Party::Creator,
                    to: Party::Escrow,
                    amount: (9 * bet) as u64,
                })
            },
            Err(e) => {
                &&& e == GameError::StakeOverflow
                &&& creator_stake(bet) > u64::MAX
            },
        },
{
    if bet > u64::MAX / 9 {
        return Err(GameError::StakeOverflow);
    }
    let stake: u64 = 9 * bet;
    let game = Game {
        creator,
        player,
        bet,
        commitment,
        user_random: None,
        payout: None,
        score: None,
    };
    Ok((game, TransferRequest { from: Party::Creator, to: Party::Escrow, amount: stake }))
}

/// The player joins: writes its randomness contribution exactly once and asks
/// the ledger to lock the matching stake of `bet` in escrow. A second join,
/// or one by anybody but the bound player, is rejected unchanged.
pub fn join(game: &mut Game, caller: PartyId, r: u64) -> (res: Result<TransferRequest, GameError>)
    ensures
        match res {
            Ok(t) => {
                &&& join_allowed(*old(game), caller)
                &&& *final(game) == joined(*old(game), r)
                &&& t == (TransferRequest {
                    from: Party::Player,
                    to: Party::Escrow,
                    amount: old(game).bet,
                })
            },
            Err(e) => {
                &&& !join_allowed(*old(game), caller)
                &&& *final(game) == *old(game)
                &&& e == (if caller != old(game).player {
                    GameError::UnauthorizedCaller
                } else {
                    GameError::RandomAlreadySet
                })
            },
        },
{
    if !bytes32_eq(&caller.bytes, &game.player.bytes) {
        proof {
            assert(caller != game.player);
        }
        return Err(GameError::UnauthorizedCaller);
    }
    proof {
        assert(caller.bytes =~= game.player.bytes);
    }
    if game.user_random.is_some() {
        return Err(GameError::RandomAlreadySet);
    }
    game.user_random = Some(r);
    Ok(TransferRequest { from: Party::Player, to: Party::Escrow, amount: game.bet })
}

/// The player submits its claimed result, exactly once. A second submission,
/// or one by anybody but the bound player, is rejected and the stored score
/// keeps the value of the first call.
pub fn submit(game: &mut Game, caller: PartyId, score: u64) -> (res: Result<(), GameError>)
    ensures
        match res {
            Ok(_) => {
                &&& submit_allowed(*old(game), caller)
                &&& *final(game) == scored(*old(game), score)
            },
            Err(e) => {
                &&& !submit_allowed(*old(game), caller)
                &&& *final(game) == *old(game)
                &&& e == (if caller != old(game).player {
                    GameError::UnauthorizedCaller
                } else {
                    GameError::ScoreAlreadySet
                })
            },
        },
{
    if !bytes32_eq(&caller.bytes, &game.player.bytes) {
        proof {
            assert(caller != game.player);
        }
        return Err(GameError::UnauthorizedCaller);
    }
    proof {
        assert(caller.bytes =~= game.player.bytes);
    }
    if game.score.is_some() {
        return Err(GameError::ScoreAlreadySet);
    }
    game.score = Some(score);
    Ok(())
}

/// The creator reveals its secret pair and settles. The digest of the revealed
/// pair must equal the commitment byte for byte, or nothing moves; on success
/// the payout owed by the formula is recorded and its transfer from escrow to
/// the player is requested. Arithmetic that does not fit is rejected, never
/// wrapped.
pub fn settle(game: &mut Game, caller: PartyId, max_score: u64, salt: u64, score: u64) -> (res:
    Result<TransferRequest, GameError>)
    ensures
        match res {
            Ok(t) => {
                &&& settle_allowed(*old(game), caller)
                &&& commitment_matches(*old(game), max_score, salt)
                &&& t.amount == spec_payout(old(game).bet, max_score, score)
                &&& t.from == Party::Escrow
                &&& t.to == Party::Player
                &&& *final(game) == settled(*old(game), t.amount)
            },
            Err(e) => {
                &&& *final(game) == *old(game)
                &&& match e {
                    GameError::UnauthorizedCaller => caller != old(game).creator,
                    GameError::ScoreNotSubmitted => caller == old(game).creator && old(
                        game,
                    ).score is None,
                    GameError::AlreadySettled => caller == old(game).creator && old(
                        game,
                    ).score is Some && old(game).payout is Some,
                    GameError::CommitmentMismatch => settle_allowed(*old(game), caller)
                        && !commitment_matches(*old(game), max_score, salt),
                    GameError::ScoreUnderflow => settle_allowed(*old(game), caller)
                        && commitment_matches(*old(game), max_score, salt) && score <= max_score
                        && score > 100,
                    GameError::PayoutOverflow => settle_allowed(*old(game), caller)
                        && commitment_matches(*old(game), max_score, salt) && score <= max_score
                        && score <= 100 && spec_payout(old(game).bet, max_score, score)
                        > u64::MAX,
                    _ => false,
                }
            },
        },
{
    if !bytes32_eq(&caller.bytes, &game.creator.bytes) {
        proof {
            assert(caller != game.creator);
        }
        return Err(GameError::UnauthorizedCaller);
    }
    proof {
        assert(caller.bytes =~= game.creator.bytes);
    }
    if game.score.is_none() {
        return Err(GameError::ScoreNotSubmitted);
    }
    if game.payout.is_some() {
        return Err(GameError::AlreadySettled);
    }
    let digest = make_commitment(max_score, salt);
    if !bytes32_eq(&digest, &game.commitment) {
        return Err(GameError::CommitmentMismatch);
    }
    let payout: u64;
    if score > max_score {
        payout = 0;
    } else {
        if score > 100 {
            return Err(GameError::ScoreUnderflow);
        }
        let remainder: u64 = 100 - score;
        proof {
            assert((remainder as int) * (game.bet as int) <= 100 * (u64::MAX as int))
                by (nonlinear_arith)
                requires
                    0 <= remainder as int <= 100,
                    0 <= game.bet as int <= u64::MAX as int,
            ;
        }
        let product: u128 = (remainder as u128) * (game.bet as u128);
        let wide_payout: u128 = product / 10;
        if wide_payout > u64::MAX as u128 {
            return Err(GameError::PayoutOverflow);
        }
        payout = wide_payout as u64;
    }
    game.payout = Some(payout);
    Ok(TransferRequest { from: Party::Escrow, to: Party::Player, amount: payout })
}

/// Commit-reveal soundness: on a game whose commitment was captured at setup
/// as the digest of one `(max_score, salt)` pair, settlement accepts a
/// revealed pair only when its digest equals that captured value; and a pair
/// that differs in either value presents different bytes to the hash, so only
/// a Keccak-256 collision could let it settle.
pub proof fn lemma_commit_reveal_sound(
    creator: PartyId,
    player: PartyId,
    bet: u64,
    commitment: [u8; 32],
    max_score: u64,
    salt: u64,
    rev_max_score: u64,
    rev_salt: u64,
)
    requires
        commitment@ == keccak_of(commit_input(max_score, salt)),
        commitment_matches(fresh_game(creator, player, bet, commitment), rev_max_score, rev_salt),
    ensures
        keccak_of(commit_input(rev_max_score, rev_salt)) == keccak_of(
            commit_input(max_score, salt),
        ),
        rev_max_score != max_score || rev_salt != salt ==> commit_input(rev_max_score, rev_salt)
            != commit_input(max_score, salt),
{
    if commit_input(rev_max_score, rev_salt) == commit_input(max_score, salt) {
        lemma_commit_input_injective(rev_max_score, rev_salt, max_score, salt);
    }
}

/// Write-once randomness: whatever game a successful `join` produced, no
/// caller may join it again, and it carries the randomness of that one join.
pub proof fn lemma_join_write_once(g: Game, r: u64, caller: PartyId)
    ensures
        !join_allowed(joined(g, r), caller),
        joined(g, r).user_random == Some(r),
{
}

/// Write-once score: whatever game a successful `submit` produced, no caller
/// may submit against it again, and it carries the score of that one call.
pub proof fn lemma_submit_write_once(g: Game, score: u64, caller: PartyId)
    ensures
        !submit_allowed(scored(g, score), caller),
        scored(g, score).score == Some(score),
{
}

/// For a fixed bet and revealed ceiling, the payout never increases as the
/// claimed score increases over `[0, max_score]`.
pub proof fn lemma_payout_monotonic(bet: u64, max_score: u64, s1: u64, s2: u64)
    requires
        s1 <= s2 <= max_score,
    ensures
        spec_payout(bet, max_score, s2) <= spec_payout(bet, max_score, s1),
{
    assert((100 - s2 as int) * bet <= (100 - s1 as int) * bet) by (nonlinear_arith)
        requires
            s1 <= s2,
            bet >= 0,
    ;
    lemma_div_is_ordered((100 - s2 as int) * bet, (100 - s1 as int) * bet, 10);
}

/// A claimed score above the revealed ceiling is a void result: it pays
/// nothing.
pub proof fn lemma_void_result(bet: u64, max_score: u64, score: u64)
    requires
        score > max_score,
    ensures
        spec_payout(bet, max_score, score) == 0,
{
}

/// Escrow sufficiency: the formula pays at most `10 * bet` — reached at a
/// claimed score of zero — and custody holds exactly that once both stakes
/// are locked, so the escrow can always cover settlement.
pub proof fn lemma_escrow_sufficient(bet: u64, max_score: u64, score: u64)
    ensures
        spec_payout(bet, max_score, score) <= total_custody(bet),
        spec_payout(bet, max_score, 0) == 10 * bet,
        total_custody(bet) == 10 * bet,
{
    lemma_div_multiples_vanish(10 * bet, 10);
    assert(100 * bet == 10 * (10 * bet));
    if score <= max_score {
        assert((100 - score as int) * bet <= 100 * bet) by (nonlinear_arith)
            requires
                score >= 0,
                bet >= 0,
        ;
        lemma_div_is_ordered((100 - score as int) * bet, 100 * bet, 10);
    }
}

} // verus!
