//! The table: dealing, order matching and scoring, round after round.

pub mod course;
pub mod deal;
pub mod dealing;
pub mod matching;
pub mod news;
pub mod orders;
pub mod play;
pub mod round;
pub mod scoring;
pub mod stakes;

pub use matching::Market;
pub use matching::Outcome;

use rand::rngs::StdRng;

use vstd::prelude::*;

use crate::models::Books;
use crate::models::Card;
use crate::models::Inventory;
use crate::player::PlayerMap;
use crate::player::PlayerName;

verus! {

/// The state of a game that lasts over several rounds.
pub struct MatchMaker {
    pub round: u32,
    pub player_names: Vec<PlayerName>,
    pub suits: [Card; 4],
    pub goal_suit: Card,
    pub common_suit: Card,
    pub player_points: PlayerMap<usize>,
    pub books: Books,
    pub player_inventories: PlayerMap<Inventory>,
    pub rng: StdRng,
    pub base_seed: u64,
    pub max_rounds: Option<u32>,
    pub round_duration_secs: u64,
    pub inter_round_sleep_secs: u64,
    pub deal_warmup_secs: u64,
    pub quiet: bool,
}

} // verus!
