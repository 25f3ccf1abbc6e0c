use figgie_auto::match_maker::scoring::score;
use figgie_auto::match_maker::MatchMaker;
use figgie_auto::models::{Card, Inventory};
use figgie_auto::player::{PlayerMap, PlayerName};

const NAMES: [PlayerName; 5] = [
    PlayerName::TiltInventory,
    PlayerName::Spread,
    PlayerName::Seller,
    PlayerName::Noisy,
    PlayerName::PickOff,
];

fn table(names: &[PlayerName], balance: usize, goal_cards: &[usize]) -> MatchMaker {
    let mut table = MatchMaker::new(balance, names.to_vec(), 3, None, 240, 30, 5, true);
    table.goal_suit = Card::Heart;
    for (name, n) in names.iter().zip(goal_cards) {
        let hand = Inventory { spades: 9, clubs: 9, diamonds: 9, hearts: *n };
        table.player_inventories.insert(*name, hand);
    }
    table
}

fn points(table: &MatchMaker) -> Vec<usize> {
    table.player_names.iter().map(|name| *table.player_points.get(name).unwrap()).collect()
}

#[test]
fn sole_winner_takes_the_rest_of_the_pot() {
    let mut table = table(&NAMES, 460, &[1, 2, 4, 0, 3]);
    assert!(table.can_score_round(200));
    let result = table.score_round(200);
    assert_eq!(result.winner, PlayerName::Seller);
    assert_eq!(result.goal_cards, 4);
    assert!(result.tied.is_empty());
    assert_eq!(result.pot, 100);
    assert_eq!(result.share, 100);
    assert_eq!(points(&table), vec![470, 480, 600, 460, 490]);
    assert_eq!(points(&table).iter().sum::<usize>(), 2500);
}

#[test]
fn later_leader_displaces_earlier_ones() {
    let mut table = table(&NAMES, 460, &[2, 2, 3, 1, 0]);
    let result = table.score_round(200);
    assert_eq!(result.winner, PlayerName::Seller);
    assert!(result.tied.is_empty());
    assert_eq!(points(&table), vec![480, 480, 610, 470, 460]);
}

#[test]
fn leaders_of_a_tie_split_the_rest_evenly() {
    let mut table = table(&NAMES, 460, &[1, 3, 1, 3, 2]);
    let result = table.score_round(200);
    assert_eq!(result.winner, PlayerName::Spread);
    assert_eq!(result.goal_cards, 3);
    assert_eq!(result.tied, vec![PlayerName::Noisy]);
    assert_eq!(result.pot, 100);
    assert_eq!(result.share, 50);
    assert_eq!(points(&table), vec![470, 540, 470, 540, 480]);
}

#[test]
fn shares_are_rounded_down() {
    let mut table = table(&NAMES, 460, &[3, 3, 3, 0, 1]);
    let result = table.score_round(200);
    assert_eq!(result.tied, vec![PlayerName::Spread, PlayerName::Seller]);
    assert_eq!(result.pot, 100);
    assert_eq!(result.share, 33);
    assert_eq!(points(&table), vec![523, 523, 523, 460, 470]);
    assert_eq!(points(&table).iter().sum::<usize>(), 2499);
}

#[test]
fn nobody_wins_without_goal_cards() {
    let mut table = table(&NAMES, 460, &[0, 0, 0, 0, 0]);
    let result = table.score_round(200);
    assert_eq!(result.winner, PlayerName::Nobody);
    assert_eq!(result.goal_cards, 0);
    assert_eq!(result.tied, NAMES.to_vec());
    assert_eq!(result.share, 40);
    assert_eq!(points(&table), vec![500; 5]);
}

#[test]
fn player_in_several_places_is_paid_for_each() {
    let names = [PlayerName::External, PlayerName::Noisy, PlayerName::Noisy];
    let mut table = table(&names, 400, &[1, 2, 2]);
    let result = table.score_round(100);
    assert_eq!(result.winner, PlayerName::Noisy);
    assert_eq!(result.tied, vec![PlayerName::Noisy]);
    assert_eq!(result.pot, 50);
    assert_eq!(result.share, 25);
    assert_eq!(points(&table), vec![410, 490, 490]);
}

#[test]
fn rounds_that_cannot_be_scored_are_known() {
    assert!(table(&NAMES, 460, &[4, 4, 4, 4, 4]).can_score_round(200));
    assert!(!table(&NAMES, 460, &[4, 4, 4, 4, 5]).can_score_round(200));
    assert!(!table(&NAMES, usize::MAX, &[1, 0, 0, 0, 0]).can_score_round(10));
    assert!(table(&NAMES, usize::MAX - 10, &[1, 0, 0, 0, 0]).can_score_round(10));
    assert!(!table(&NAMES, usize::MAX - 10, &[1, 0, 0, 0, 0]).can_score_round(11));
    assert!(!table(&[], 460, &[]).can_score_round(200));
    let mut unseated = table(&NAMES, 460, &[1, 2, 4, 0, 3]);
    unseated.player_names.push(PlayerName::Taker);
    assert!(!unseated.can_score_round(200));
}

#[test]
fn scoring_leaves_the_points_it_is_given() {
    let table = table(&NAMES[..2], 100, &[1, 2]);
    let (after, result) = score(
        &table.player_points,
        &table.player_names,
        &table.player_inventories,
        Card::Heart,
        60,
    )
    .unwrap();
    assert_eq!(result.share, 30);
    assert_eq!(points(&table), vec![100, 100]);
    assert_eq!(after.get(&PlayerName::TiltInventory), Some(&110));
    assert_eq!(after.get(&PlayerName::Spread), Some(&150));
    let other = score(
        &table.player_points,
        &table.player_names,
        &table.player_inventories,
        Card::Spade,
        60,
    );
    assert!(other.is_none());
}

#[test]
fn antes_are_collected_in_order_up_to_the_first_who_cannot_pay() {
    let mut table = table(&NAMES, 500, &[]);
    table.player_points.insert(PlayerName::Seller, 39);
    let order = vec![
        PlayerName::PickOff,
        PlayerName::Noisy,
        PlayerName::Seller,
        PlayerName::Spread,
        PlayerName::TiltInventory,
    ];
    let antes = table.collect_antes_in(&order, 40);
    assert_eq!(antes.pot, 80);
    assert_eq!(antes.unable, Some(PlayerName::Seller));
    assert_eq!(points(&table), vec![500, 500, 39, 460, 460]);
}

#[test]
fn antes_of_everyone_make_the_full_pot() {
    let mut table = table(&NAMES, 40, &[]);
    let antes = table.collect_antes(40);
    assert_eq!(antes.pot, 200);
    assert_eq!(antes.unable, None);
    assert_eq!(points(&table), vec![0; 5]);
    let antes = table.collect_antes(40);
    assert_eq!(antes.pot, 0);
    assert!(antes.unable.is_some());
    assert_eq!(points(&table), vec![0; 5]);
}

#[test]
fn player_tables_hold_one_entry_each() {
    let mut map: PlayerMap<u8> = PlayerMap::new();
    assert!(map.get(&PlayerName::Spread).is_none());
    assert!(map.names().is_empty());
    map.insert(PlayerName::Spread, 1);
    map.insert(PlayerName::Nobody, 2);
    map.insert(PlayerName::Spread, 3);
    assert_eq!(map.get(&PlayerName::Spread), Some(&3));
    let copy = map.copy();
    map.insert(PlayerName::Taker, 4);
    assert_eq!(copy.get(&PlayerName::Nobody), Some(&2));
    assert!(copy.get(&PlayerName::Taker).is_none());
    let names = map.names();
    assert_eq!(names.len(), 3);
    for name in [PlayerName::Spread, PlayerName::Nobody, PlayerName::Taker] {
        assert!(names.contains(&name));
    }
}

#[test]
fn names_and_codes_stand_for_one_another() {
    for code in 0..11 {
        assert_eq!(PlayerName::from_code(code).code(), code);
    }
    assert_eq!(PlayerName::Spread.code(), 0);
    assert_eq!(PlayerName::from_code(9), PlayerName::External);
}
