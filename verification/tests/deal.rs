use figgie_auto::match_maker::deal::{build_deck, pick_short_suit};
use figgie_auto::match_maker::MatchMaker;
use figgie_auto::models::{Card, Inventory};
use figgie_auto::player::PlayerName;

const SUITS: [Card; 4] = [Card::Spade, Card::Club, Card::Diamond, Card::Heart];

fn five() -> Vec<PlayerName> {
    vec![
        PlayerName::TiltInventory,
        PlayerName::Spread,
        PlayerName::Seller,
        PlayerName::Noisy,
        PlayerName::PickOff,
    ]
}

fn table(names: Vec<PlayerName>, seed: u64) -> MatchMaker {
    MatchMaker::new(500, names, seed, None, 240, 30, 5, true)
}

fn hand(table: &MatchMaker, name: PlayerName) -> Inventory {
    *table.player_inventories.get(&name).unwrap()
}

fn size(hand: Inventory) -> usize {
    hand.spades + hand.clubs + hand.diamonds + hand.hearts
}

fn hands(table: &MatchMaker) -> Vec<Inventory> {
    table.player_names.iter().map(|name| hand(table, *name)).collect()
}

#[test]
fn goal_suit_shares_the_colour_of_the_common_suit() {
    assert_eq!(Card::Spade.get_other_cards(), (Card::Club, Card::Diamond, Card::Heart));
    assert_eq!(Card::Club.get_other_cards(), (Card::Spade, Card::Diamond, Card::Heart));
    assert_eq!(Card::Diamond.get_other_cards(), (Card::Heart, Card::Spade, Card::Club));
    assert_eq!(Card::Heart.get_other_cards(), (Card::Diamond, Card::Spade, Card::Club));
}

#[test]
fn first_lucky_suit_is_short() {
    assert_eq!(pick_short_suit(Card::Spade, true, true), Card::Diamond);
    assert_eq!(pick_short_suit(Card::Spade, true, false), Card::Diamond);
    assert_eq!(pick_short_suit(Card::Spade, false, true), Card::Heart);
    assert_eq!(pick_short_suit(Card::Spade, false, false), Card::Club);
    assert_eq!(pick_short_suit(Card::Heart, false, true), Card::Club);
}

#[test]
fn deck_has_forty_cards() {
    let (deck, counts) = build_deck(Card::Heart, Card::Spade);
    assert_eq!(counts, Inventory { spades: 8, clubs: 10, diamonds: 10, hearts: 12 });
    assert_eq!(deck.len(), 40);
    assert_eq!(deck[0], Card::Heart);
    assert_eq!(deck[11], Card::Heart);
    assert_eq!(deck[12], Card::Spade);
    assert_eq!(deck[20], Card::Club);
    assert_eq!(deck[39], Card::Diamond);
    for common in SUITS {
        for short in SUITS {
            if short != common {
                let (deck, counts) = build_deck(common, short);
                assert_eq!(size(counts), 40);
                for suit in SUITS {
                    let n = deck.iter().filter(|card| **card == suit).count();
                    assert_eq!(n, counts.get(&suit));
                    let expected = if suit == common { 12 } else if suit == short { 8 } else { 10 };
                    assert_eq!(n, expected);
                }
            }
        }
    }
}

#[test]
fn deck_is_cut_in_order() {
    let mut table = table(five(), 1);
    let (deck, _) = build_deck(Card::Spade, Card::Club);
    table.deal_hands(&deck);
    let none = Inventory::new();
    assert_eq!(hand(&table, PlayerName::TiltInventory), Inventory { spades: 8, ..none });
    assert_eq!(hand(&table, PlayerName::Spread), Inventory { spades: 4, diamonds: 4, ..none });
    assert_eq!(hand(&table, PlayerName::Seller), Inventory { diamonds: 6, hearts: 2, ..none });
    assert_eq!(hand(&table, PlayerName::Noisy), Inventory { hearts: 8, ..none });
    assert_eq!(hand(&table, PlayerName::PickOff), Inventory { clubs: 8, ..none });
}

#[test]
fn cards_that_cannot_be_shared_out_stay_away() {
    let names = vec![PlayerName::Spread, PlayerName::Seller, PlayerName::Noisy];
    let mut table = table(names, 1);
    let (deck, _) = build_deck(Card::Spade, Card::Club);
    table.deal_hands(&deck);
    assert!(hands(&table).iter().all(|hand| size(*hand) == 13));
    assert_eq!(hands(&table).iter().map(|hand| hand.clubs).sum::<usize>(), 7);
}

#[test]
fn player_in_several_places_keeps_the_last_hand() {
    let names = vec![PlayerName::External, PlayerName::Noisy, PlayerName::Noisy, PlayerName::Noisy];
    let mut table = table(names, 1);
    let (deck, _) = build_deck(Card::Spade, Card::Club);
    table.deal_hands(&deck);
    let none = Inventory::new();
    assert_eq!(hand(&table, PlayerName::External), Inventory { spades: 10, ..none });
    assert_eq!(hand(&table, PlayerName::Noisy), Inventory { clubs: 8, hearts: 2, ..none });
}

#[test]
fn every_deal_shares_out_the_deck() {
    for seed in 0..50 {
        let mut table = table(five(), seed);
        table.pick_new_common_suit();
        let common = table.common_suit;
        let counts = table.get_new_inventories();
        assert_eq!(table.common_suit, common);
        assert_eq!(table.goal_suit, common.get_other_cards().0);
        assert_eq!(counts.get(&common), 12);
        let goal_cards = counts.get(&table.goal_suit);
        assert!(goal_cards == 8 || goal_cards == 10);
        assert_eq!(size(counts), 40);
        assert!(hands(&table).iter().all(|hand| size(*hand) == 8));
        for suit in SUITS {
            let dealt: usize = hands(&table).iter().map(|hand| hand.get(&suit)).sum();
            assert_eq!(dealt, counts.get(&suit));
        }
    }
}

#[test]
fn every_suit_can_become_common_and_every_other_short() {
    let mut table = table(five(), 7);
    let mut seen = Vec::new();
    for _ in 0..600 {
        table.pick_new_common_suit();
        let counts = table.get_new_inventories();
        let short = SUITS.into_iter().find(|suit| counts.get(suit) == 8).unwrap();
        let pair = (table.common_suit, short);
        if !seen.contains(&pair) {
            seen.push(pair);
        }
    }
    assert_eq!(seen.len(), 12);
}

#[test]
fn shuffling_spreads_the_common_suit() {
    let mut spread = 0;
    for seed in 0..20 {
        let mut table = table(five(), seed);
        table.get_new_inventories();
        let common = table.common_suit;
        if hands(&table).iter().filter(|hand| hand.get(&common) > 0).count() > 2 {
            spread += 1;
        }
    }
    assert!(spread > 15);
}

#[test]
fn seed_decides_the_deals() {
    let deals = |seed| {
        let mut table = table(five(), seed);
        let mut all = Vec::new();
        for _ in 0..5 {
            table.pick_new_common_suit();
            let counts = table.get_new_inventories();
            all.push((table.common_suit, counts, hands(&table)));
        }
        all
    };
    assert!(deals(1) == deals(1));
    assert!(deals(1) != deals(2));
}

#[test]
fn earlier_hands_do_not_influence_the_deal() {
    let mut fresh = table(five(), 4);
    let mut used = table(five(), 4);
    used.goal_suit = Card::Heart;
    used.quiet = false;
    let hand = Inventory { spades: 3, clubs: 3, diamonds: 3, hearts: 3 };
    used.player_inventories.insert(PlayerName::Spread, hand);
    used.player_inventories.insert(PlayerName::Taker, hand);
    assert_eq!(fresh.get_new_inventories(), used.get_new_inventories());
    assert_eq!(fresh.goal_suit, used.goal_suit);
    assert_eq!(hands(&fresh), hands(&used));
    assert_eq!(hands(&fresh).iter().map(|hand| size(*hand)).sum::<usize>(), 40);
    fresh.pick_new_common_suit();
    used.pick_new_common_suit();
    assert_eq!(fresh.common_suit, used.common_suit);
}
