//! A two-party wagering game settled through a commit-reveal scheme.
//!
//! A creator stakes funds and commits to a secret `(max_score, salt)` pair by
//! publishing its Keccak-256 digest; a player joins with a matching stake and
//! submits a score; the creator finally reveals the pair, which must hash back
//! to the published digest byte for byte, and the payout owed to the player is
//! computed from the revealed bound. The state machine here only decides the
//! transitions and the amounts; a custodial ledger around it moves the funds.

pub mod commit;
pub mod game;
