//! Players and the tables that are kept per player.

pub mod external;
pub mod messages;
pub mod objects;
pub mod replies;
pub mod roster;
pub mod totals;

pub use roster::PlayerMap;

use vstd::prelude::*;

verus! {

/// Everyone who can sit at the table, and `Nobody` where no player stands.
#[derive(Debug, Clone, Copy, PartialEq, Eq, Structural, Hash)]
pub enum PlayerName {
    Spread,
    Seller,
    Taker,
    Noisy,
    WildestDreams,
    PickOff,
    TiltInventory,
    TheHoarder,
    PrayingMantis,
    External,
    Nobody,
}

/// Every player name, each once.
pub open spec fn all_names() -> Seq<PlayerName> {
    seq![
        PlayerName::Spread,
        PlayerName::Seller,
        PlayerName::Taker,
        PlayerName::Noisy,
        PlayerName::WildestDreams,
        PlayerName::PickOff,
        PlayerName::TiltInventory,
        PlayerName::TheHoarder,
        PlayerName::PrayingMantis,
        PlayerName::External,
        PlayerName::Nobody,
    ]
}

/// The place of a name in `all_names`.
pub open spec fn code_of(name: PlayerName) -> u8 {
    match name {
        PlayerName::Spread => 0,
        PlayerName::Seller => 1,
        PlayerName::Taker => 2,
        PlayerName::Noisy => 3,
        PlayerName::WildestDreams => 4,
        PlayerName::PickOff => 5,
        PlayerName::TiltInventory => 6,
        PlayerName::TheHoarder => 7,
        PlayerName::PrayingMantis => 8,
        PlayerName::External => 9,
        PlayerName::Nobody => 10,
    }
}

/// The name at a place in `all_names`.
pub open spec fn name_of(code: u8) -> PlayerName {
    all_names()[code as int]
}

/// Codes and names stand for one another.
pub proof fn lemma_codes()
    ensures
        forall|p: PlayerName| #[trigger] code_of(p) < 11 && name_of(code_of(p)) == p,
        forall|c: u8| c < 11 ==> code_of(#[trigger] name_of(c)) == c,
{
    assert forall|c: u8| c < 11 implies code_of(#[trigger] name_of(c)) == c by {
        if c < 4 {
            if c == 0 {} else if c == 1 {} else if c == 2 {} else {}
        } else if c < 8 {
            if c == 4 {} else if c == 5 {} else if c == 6 {} else {}
        } else {
            if c == 8 {} else if c == 9 {} else {}
        }
    }
}

impl PlayerName {
    /// The number by which a player is filed.
    pub fn code(self) -> (c: u8)
        ensures
            c == code_of(self),
    {
        match self {
            PlayerName::Spread => 0,
            PlayerName::Seller => 1,
            PlayerName::Taker => 2,
            PlayerName::Noisy => 3,
            PlayerName::WildestDreams => 4,
            PlayerName::PickOff => 5,
            PlayerName::TiltInventory => 6,
            PlayerName::TheHoarder => 7,
            PlayerName::PrayingMantis => 8,
            PlayerName::External => 9,
            PlayerName::Nobody => 10,
        }
    }

    /// The player that is filed under a number.
    pub fn from_code(c: u8) -> (name: PlayerName)
        requires
            c < 11,
        ensures
            name == name_of(c),
    {
        match c {
            0 => PlayerName::Spread,
            1 => PlayerName::Seller,
            2 => PlayerName::Taker,
            3 => PlayerName::Noisy,
            4 => PlayerName::WildestDreams,
            5 => PlayerName::PickOff,
            6 => PlayerName::TiltInventory,
            7 => PlayerName::TheHoarder,
            8 => PlayerName::PrayingMantis,
            9 => PlayerName::External,
            _ => PlayerName::Nobody,
        }
    }
}

} // verus!
