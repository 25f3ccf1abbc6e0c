use figgie_auto::logger::{can_log_gains, card_str, player_name_str, EventLogger};
use figgie_auto::models::{Card, Inventory};
use figgie_auto::player::{PlayerMap, PlayerName};

fn fresh() -> EventLogger {
    let mut logger = EventLogger::new(42, 7);
    logger.flush();
    logger
}

#[test]
fn header_names_game_and_seed() {
    let mut logger = EventLogger::new(42, 18446744073709551615);
    assert_eq!(logger.path(), "game_00000042.jsonl");
    assert_eq!(
        logger.flush(),
        "{\"type\":\"header\",\"game_id\":42,\"seed\":18446744073709551615,\"schema\":1}\n"
    );
    assert_eq!(logger.flush(), "");
}

#[test]
fn file_names_have_at_least_eight_digits() {
    assert_eq!(EventLogger::new(0, 0).path(), "game_00000000.jsonl");
    assert_eq!(EventLogger::new(12345678, 0).path(), "game_12345678.jsonl");
    assert_eq!(EventLogger::new(123456789012, 0).path(), "game_123456789012.jsonl");
}

#[test]
fn round_start_line() {
    let mut logger = fresh();
    logger.log_round_start("0.000", 3, 40, 200, &vec![PlayerName::PickOff, PlayerName::Taker]);
    assert_eq!(
        logger.flush(),
        "{\"t\":0.000,\"type\":\"round_start\",\"round\":3,\"ante\":40,\"pot\":200,\"players\":[{\"idx\":0,\"name\":\"PickOff\"},{\"idx\":1,\"name\":\"Taker\"}]}\n"
    );
    logger.log_round_start("0.000", 0, 0, 0, &vec![]);
    assert_eq!(
        logger.flush(),
        "{\"t\":0.000,\"type\":\"round_start\",\"round\":0,\"ante\":0,\"pot\":0,\"players\":[]}\n"
    );
}

#[test]
fn deal_line_knows_missing_hands() {
    let mut logger = fresh();
    let mut hands = PlayerMap::new();
    hands.insert(PlayerName::Noisy, Inventory { spades: 1, clubs: 2, diamonds: 3, hearts: 4 });
    logger.log_deal(
        "0.000",
        &vec![PlayerName::Noisy, PlayerName::Seller],
        &hands,
        &Card::Heart,
        &Card::Diamond,
        &Inventory { spades: 8, clubs: 10, diamonds: 10, hearts: 12 },
    );
    assert_eq!(
        logger.flush(),
        "{\"t\":0.000,\"type\":\"deal\",\"common_suit\":\"H\",\"goal_suit\":\"D\",\"counts\":{\"S\":8,\"C\":10,\"H\":12,\"D\":10},\"hands\":[{\"player\":\"Noisy\",\"S\":1,\"C\":2,\"H\":4,\"D\":3},{\"player\":\"Seller\",\"S\":0,\"C\":0,\"H\":0,\"D\":0}]}\n"
    );
}

#[test]
fn trading_lines_follow_one_another() {
    let mut logger = fresh();
    logger.log_quote("1.500", "bid", &PlayerName::TheHoarder, &Card::Spade, 9);
    logger.log_order_rejected("1.600", &PlayerName::PrayingMantis, &Card::Heart, "no_inventory");
    logger.log_trade("2.000", &Card::Diamond, 11, &PlayerName::External, &PlayerName::WildestDreams);
    logger.log_cancel_all("2.000");
    assert_eq!(
        logger.flush().lines().collect::<Vec<_>>(),
        vec![
            r#"{"t":1.500,"type":"bid","player":"TheHoarder","suit":"S","price":9}"#,
            r#"{"t":1.600,"type":"order_rejected","player":"PrayingMantis","suit":"H","reason":"no_inventory"}"#,
            r#"{"t":2.000,"type":"trade","suit":"D","price":11,"buyer":"External","seller":"WildestDreams"}"#,
            r#"{"t":2.000,"type":"cancel_all"}"#,
        ]
    );
}

#[test]
fn round_end_line_knows_missing_points() {
    let mut logger = fresh();
    let hands = PlayerMap::new();
    let mut before = PlayerMap::new();
    let mut after = PlayerMap::new();
    before.insert(PlayerName::Spread, 300);
    after.insert(PlayerName::Noisy, 25);
    let names = vec![PlayerName::Spread, PlayerName::Noisy];
    assert!(can_log_gains(&names, &before, &after));
    logger.log_round_end("240.000", &names, &Card::Spade, &Card::Club, &hands, &before, &after);
    assert_eq!(
        logger.flush(),
        "{\"t\":240.000,\"type\":\"round_end\",\"goal_suit\":\"S\",\"common_suit\":\"C\",\"results\":[{\"player\":\"Spread\",\"final_S\":0,\"final_C\":0,\"final_H\":0,\"final_D\":0,\"initial_points\":300,\"final_points\":0,\"pnl\":-300},{\"player\":\"Noisy\",\"final_S\":0,\"final_C\":0,\"final_H\":0,\"final_D\":0,\"initial_points\":0,\"final_points\":25,\"pnl\":25}]}\n"
    );
}

#[test]
fn gains_beyond_64_bits_are_known() {
    let names = vec![PlayerName::Spread];
    let mut before = PlayerMap::new();
    let mut after = PlayerMap::new();
    before.insert(PlayerName::Spread, 1usize << 63);
    after.insert(PlayerName::Spread, 1usize);
    assert!(!can_log_gains(&names, &before, &after));
    assert!(can_log_gains(&vec![], &before, &after));
}

#[test]
fn log_texts_for_suits_and_players() {
    let suits = [Card::Spade, Card::Club, Card::Heart, Card::Diamond];
    assert_eq!(suits.iter().map(card_str).collect::<Vec<_>>().join(""), "SCHD");
    let names: Vec<&str> =
        (0..11).map(|code| player_name_str(&PlayerName::from_code(code))).collect();
    assert_eq!(
        names,
        vec![
            "Spread",
            "Seller",
            "Taker",
            "Noisy",
            "WildestDreams",
            "PickOff",
            "TiltInventory",
            "TheHoarder",
            "PrayingMantis",
            "External",
            "None",
        ]
    );
}
