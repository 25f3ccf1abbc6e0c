use figgie_auto::logger::EventLogger;
use figgie_auto::match_maker::course::Phase;
use figgie_auto::match_maker::round::{log_order, point_change, Step};
use figgie_auto::match_maker::{MatchMaker, Outcome};
use figgie_auto::models::{Card, Direction, Event, Inventory, Order};
use figgie_auto::player::external::SidecarMsg;
use figgie_auto::player::PlayerName;

fn table(seed: u64, max_rounds: Option<u32>) -> MatchMaker {
    let names = vec![PlayerName::External, PlayerName::Noisy, PlayerName::Spread, PlayerName::Taker];
    MatchMaker::new(500, names, seed, max_rounds, 240, 30, 5, true)
}

fn order(player_name: PlayerName, direction: Direction, price: usize) -> Order {
    Order { player_name, price, direction, card: Card::Club }
}

fn describe(steps: &Vec<Step>) -> Vec<String> {
    steps
        .iter()
        .map(|step| match step {
            Step::Tell(msg) => msg.to_json(),
            Step::Broadcast(Event::DealCards(_)) => "deal cards".to_string(),
            Step::Broadcast(Event::Update(update)) => {
                format!("update {:?}", update.trade.map(|trade| trade.price))
            }
            Step::Broadcast(Event::EndRound) => "end round".to_string(),
            Step::Sleep(secs) => format!("sleep {}", secs),
            Step::DrainOrders => "drain".to_string(),
            Step::Exit => "exit".to_string(),
        })
        .collect()
}

#[test]
fn new_table_is_empty() {
    let table = table(9, Some(3));
    assert_eq!(table.round, 0);
    assert_eq!(table.base_seed, 9);
    assert_eq!(table.max_rounds, Some(3));
    assert_eq!(table.player_points.get(&PlayerName::Noisy), Some(&500));
    assert_eq!(table.player_inventories.get(&PlayerName::Noisy), Some(&Inventory::new()));
    assert!(table.player_points.get(&PlayerName::Seller).is_none());
    assert_eq!(table.books.hearts.bid.price, 0);
    assert_eq!((table.goal_suit, table.common_suit), (Card::Spade, Card::Club));
}

#[test]
fn game_numbers_count_up_from_the_seed() {
    let mut table = table(41, None);
    assert_eq!(table.game_id(), 41);
    table.round = 1;
    assert_eq!(table.game_id(), 42);
    table.base_seed = u64::MAX;
    assert_eq!(table.game_id(), 0);
}

#[test]
fn rounds_open_with_antes_and_hands() {
    let mut table = table(5, None);
    let opening = table.open_round();
    assert_eq!(opening.ante, 50);
    assert_eq!(opening.antes.pot, 200);
    assert_eq!(opening.antes.unable, None);
    assert_eq!(opening.initial_points.get(&PlayerName::Taker), Some(&500));
    assert_eq!(table.player_points.get(&PlayerName::Taker), Some(&450));
    assert_eq!(opening.counts.get(&table.common_suit), 12);
    let hand = table.player_inventories.get(&PlayerName::External).unwrap();
    assert_eq!(hand.spades + hand.clubs + hand.diamonds + hand.hearts, 10);
    assert_eq!(table.round, 0);
}

#[test]
fn opening_tells_the_bot_first() {
    let mut table = table(5, None);
    table.player_inventories.insert(
        PlayerName::External,
        Inventory { spades: 1, clubs: 2, diamonds: 3, hearts: 4 },
    );
    let steps = describe(&table.opening_steps());
    assert_eq!(
        steps,
        vec![
            r#"{"type":"round_start","players":[{"idx":0,"name":"External"},{"idx":1,"name":"Noisy"},{"idx":2,"name":"Spread"},{"idx":3,"name":"Taker"}],"bot_index":0}"#,
            r#"{"type":"deal","hands":[{"player":"External","S":1,"C":2,"H":4,"D":3}]}"#,
            "sleep 5",
            "deal cards",
            "sleep 2",
            "update None",
        ]
    );
}

#[test]
fn orders_are_told_logged_and_sent_on() {
    let mut table = table(5, None);
    table.player_inventories.insert(
        PlayerName::Noisy,
        Inventory { spades: 0, clubs: 1, diamonds: 0, hearts: 0 },
    );
    let mut logger = EventLogger::new(1, 1);
    logger.flush();

    let free = order(PlayerName::Noisy, Direction::Sell, 0);
    let reaction = table.handle_order(free);
    assert!(reaction.steps.is_empty());
    log_order(&mut logger, "0.100", &free, &reaction.outcome);
    assert_eq!(logger.flush(), "");

    let empty = order(PlayerName::Taker, Direction::Sell, 4);
    let reaction = table.handle_order(empty);
    assert!(reaction.steps.is_empty());
    log_order(&mut logger, "0.200", &empty, &reaction.outcome);
    assert_eq!(
        logger.flush(),
        "{\"t\":0.200,\"type\":\"order_rejected\",\"player\":\"Taker\",\"suit\":\"C\",\"reason\":\"no_inventory\"}\n"
    );

    let bid = order(PlayerName::External, Direction::Buy, 8);
    let reaction = table.handle_order(bid);
    assert_eq!(
        describe(&reaction.steps),
        vec![r#"{"type":"bid","player":"External","suit":"C","price":8}"#, "update None"]
    );
    log_order(&mut logger, "0.300", &bid, &reaction.outcome);
    assert_eq!(
        logger.flush(),
        "{\"t\":0.300,\"type\":\"bid\",\"player\":\"External\",\"suit\":\"C\",\"price\":8}\n"
    );

    let low = order(PlayerName::Spread, Direction::Buy, 7);
    let reaction = table.handle_order(low);
    assert!(matches!(reaction.outcome, Outcome::NotBest));
    assert_eq!(describe(&reaction.steps), vec!["update None"]);
    log_order(&mut logger, "0.400", &low, &reaction.outcome);
    assert_eq!(logger.flush(), "");

    let ask = order(PlayerName::Noisy, Direction::Sell, 9);
    let reaction = table.handle_order(ask);
    assert_eq!(
        describe(&reaction.steps),
        vec![r#"{"type":"offer","player":"Noisy","suit":"C","price":9}"#, "update None"]
    );
    log_order(&mut logger, "0.500", &ask, &reaction.outcome);
    assert_eq!(
        logger.flush(),
        "{\"t\":0.500,\"type\":\"offer\",\"player\":\"Noisy\",\"suit\":\"C\",\"price\":9}\n"
    );

    let sale = order(PlayerName::Noisy, Direction::Sell, 6);
    let reaction = table.handle_order(sale);
    assert_eq!(
        describe(&reaction.steps),
        vec![
            r#"{"type":"trade","suit":"C","price":8,"buyer":"External","seller":"Noisy"}"#,
            r#"{"type":"cancel_all"}"#,
            "drain",
            "update Some(8)",
        ]
    );
    log_order(&mut logger, "0.600", &sale, &reaction.outcome);
    assert_eq!(
        logger.flush(),
        "{\"t\":0.600,\"type\":\"trade\",\"suit\":\"C\",\"price\":8,\"buyer\":\"External\",\"seller\":\"Noisy\"}\n{\"t\":0.600,\"type\":\"cancel_all\"}\n"
    );
}

#[test]
fn trading_ends_with_its_time() {
    let mut table = table(5, None);
    table.round_duration_secs = 2;
    assert_eq!(table.trading_left(0), Some(2_000_000_000));
    assert_eq!(table.trading_left(1_999_999_999), Some(1));
    assert_eq!(table.trading_left(2_000_000_000), None);
    assert_eq!(table.trading_left(u128::MAX), None);
    table.round_duration_secs = 0;
    assert_eq!(table.trading_left(0), None);
    table.round_duration_secs = u64::MAX;
    assert_eq!(table.trading_left(1), Some(u64::MAX as u128 * 1_000_000_000 - 1));
}

#[test]
fn rounds_close_with_the_payout() {
    let mut table = table(5, Some(2));
    let opening = table.open_round();
    assert!(table.can_score_round(opening.antes.pot));
    let result = table.close_round(opening.antes.pot);
    assert_eq!(table.round, 1);
    let total: usize =
        table.player_names.iter().map(|name| *table.player_points.get(name).unwrap()).sum();
    let leaders = result.tied.len() + 1;
    assert_eq!(result.share, result.pot / leaders);
    assert_eq!(total, 2000 - result.pot % leaders);
    let goal_cards: usize = table
        .player_names
        .iter()
        .map(|name| table.player_inventories.get(name).unwrap().get(&table.goal_suit))
        .sum();
    assert_eq!(result.pot, 200 - 10 * goal_cards);
}

#[test]
fn last_round_ends_the_program() {
    let mut table = table(5, Some(2));
    table.goal_suit = Card::Diamond;
    table.round = 1;
    assert!(!table.is_over());
    let steps = describe(&table.closing_steps());
    assert_eq!(steps, vec![r#"{"type":"round_end","goal_suit":"D"}"#, "sleep 30"]);
    table.round = 2;
    assert!(table.is_over());
    assert_eq!(describe(&table.closing_steps())[1], "exit");
    table.max_rounds = None;
    assert!(!table.is_over());
    assert_eq!(describe(&table.closing_steps())[1], "sleep 30");
}

#[test]
fn openings_and_closings_are_logged() {
    let names = vec![PlayerName::External, PlayerName::Noisy];
    let mut table = MatchMaker::new(500, names, 7, None, 240, 30, 5, true);
    let opening = table.open_round();
    table.common_suit = Card::Spade;
    table.goal_suit = Card::Club;
    table.player_inventories.insert(
        PlayerName::External,
        Inventory { spades: 5, clubs: 6, diamonds: 4, hearts: 5 },
    );
    table.player_inventories.insert(
        PlayerName::Noisy,
        Inventory { spades: 7, clubs: 2, diamonds: 6, hearts: 5 },
    );
    let mut opening = opening;
    opening.counts = Inventory { spades: 12, clubs: 8, diamonds: 10, hearts: 10 };
    let mut logger = EventLogger::new(table.game_id(), table.base_seed);
    assert_eq!(logger.path(), "game_00000007.jsonl");
    table.log_opening(&mut logger, &opening);
    assert_eq!(
        logger.flush(),
        concat_lines(&[
            r#"{"type":"header","game_id":7,"seed":7,"schema":1}"#,
            r#"{"t":0.000,"type":"round_start","round":0,"ante":100,"pot":200,"players":[{"idx":0,"name":"External"},{"idx":1,"name":"Noisy"}]}"#,
            r#"{"t":0.000,"type":"deal","common_suit":"S","goal_suit":"C","counts":{"S":12,"C":8,"H":10,"D":10},"hands":[{"player":"External","S":5,"C":6,"H":5,"D":4},{"player":"Noisy","S":7,"C":2,"H":5,"D":6}]}"#,
        ])
    );
    let result = table.close_round(opening.antes.pot);
    assert_eq!(result.winner, PlayerName::External);
    table.log_closing(&mut logger, "240.000", &opening.initial_points);
    assert_eq!(
        logger.flush(),
        concat_lines(&[
            r#"{"t":240.000,"type":"round_end","goal_suit":"C","common_suit":"S","results":[{"player":"External","final_S":5,"final_C":6,"final_H":5,"final_D":4,"initial_points":500,"final_points":580,"pnl":80},{"player":"Noisy","final_S":7,"final_C":2,"final_H":5,"final_D":6,"initial_points":500,"final_points":420,"pnl":-80}]}"#,
        ])
    );
}

fn concat_lines(lines: &[&str]) -> String {
    let mut text = String::new();
    for line in lines {
        text.push_str(line);
        text.push('\n');
    }
    text
}

#[test]
fn point_changes_have_a_sign() {
    assert_eq!(point_change(500, 580), 80);
    assert_eq!(point_change(500, 420), -80);
    assert_eq!(point_change(0, 0), 0);
}

#[test]
fn messages_carry_the_goal_suit() {
    let table = table(5, None);
    let steps = table.closing_steps();
    assert!(matches!(&steps[0], Step::Tell(SidecarMsg::RoundEnd { goal_suit: "S" })));
}

#[test]
fn rounds_of_distinct_solvent_players_can_be_scored() {
    for seed in 0..30 {
        let mut table = table(seed, None);
        let opening = table.open_round();
        let cards = [Card::Spade, Card::Club, Card::Diamond, Card::Heart];
        for turn in 0..60usize {
            let order = Order {
                player_name: table.player_names[(turn * 7 + seed as usize) % 4],
                price: 1 + (turn * 5) % 13,
                direction: if turn % 3 == 0 { Direction::Sell } else { Direction::Buy },
                card: cards[(turn / 2) % 4],
            };
            assert!(table.can_process(&order));
            table.handle_order(order);
        }
        assert!(table.can_score_round(opening.antes.pot));
        let result = table.close_round(opening.antes.pot);
        let total: usize =
            table.player_names.iter().map(|name| *table.player_points.get(name).unwrap()).sum();
        assert_eq!(total, 2000 - result.pot % (result.tied.len() + 1));
    }
}

#[test]
fn runs_with_one_seed_deal_the_same() {
    let run = |seed, busy: bool| {
        let mut table = table(seed, None);
        let mut deals = Vec::new();
        for _ in 0..4 {
            let opening = table.open_round();
            let hands: Vec<Inventory> = table
                .player_names
                .iter()
                .map(|name| *table.player_inventories.get(name).unwrap())
                .collect();
            deals.push((table.common_suit, table.goal_suit, opening.counts, hands));
            if busy {
                let bid = order(PlayerName::Spread, Direction::Buy, 3);
                if table.can_process(&bid) {
                    table.handle_order(bid);
                }
            }
            table.close_round(opening.antes.pot);
        }
        deals
    };
    assert!(run(11, false) == run(11, true));
    assert!(run(11, false) != run(12, false));
}

#[test]
fn phases_follow_one_another() {
    let mut table = table(5, None);
    table.round_duration_secs = 1;
    assert_eq!(table.next_phase(Phase::Open, 0), Phase::Trade(1_000_000_000));
    assert_eq!(table.next_phase(Phase::Trade(7), 999_999_999), Phase::Trade(1));
    assert_eq!(table.next_phase(Phase::Trade(1), 1_000_000_000), Phase::End);
    assert_eq!(table.next_phase(Phase::End, 1_000_000_000), Phase::Close);
    assert_eq!(table.next_phase(Phase::Close, 0), Phase::Open);
    table.round_duration_secs = 0;
    assert_eq!(table.next_phase(Phase::Open, 0), Phase::End);
    assert_eq!(describe(&table.end_steps()), vec!["end round"]);
}

#[test]
fn runs_end_after_their_rounds() {
    for (max_rounds, expected) in [(0, 1), (1, 1), (2, 2), (5, 5)] {
        let mut table = table(3, Some(max_rounds));
        let mut played = 0;
        loop {
            let opening = table.open_round();
            table.close_round(opening.antes.pot);
            played += 1;
            if describe(&table.closing_steps())[1] == "exit" {
                break;
            }
        }
        assert_eq!(played, expected);
        assert_eq!(table.round, expected);
    }
}

#[test]
fn different_runs_can_share_a_game_number() {
    let mut a = table(5, None);
    let mut b = table(6, None);
    assert_ne!(a.game_id(), b.game_id());
    a.round = 1;
    assert_eq!(a.game_id(), b.game_id());
    let (log_a, log_b) = (EventLogger::new(a.game_id(), 5), EventLogger::new(b.game_id(), 6));
    assert_eq!(log_a.path(), log_b.path());
    b.round = 1;
    assert_ne!(a.game_id(), b.game_id());
    b.base_seed = u64::MAX;
    b.round = 7;
    assert_eq!(a.game_id(), b.game_id());
}
