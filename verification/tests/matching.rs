use figgie_auto::match_maker::{MatchMaker, Outcome};
use figgie_auto::models::{Card, Direction, Inventory, Order, NO_ASK};
use figgie_auto::player::PlayerName;

const SPADE_HOLDER: PlayerName = PlayerName::Seller;

fn table() -> MatchMaker {
    let names = vec![PlayerName::Seller, PlayerName::Spread, PlayerName::Noisy, PlayerName::Taker];
    let mut table = MatchMaker::new(500, names, 1, None, 240, 30, 5, true);
    let hand = Inventory { spades: 2, clubs: 0, diamonds: 1, hearts: 0 };
    table.player_inventories.insert(SPADE_HOLDER, hand);
    table
}

fn order(player_name: PlayerName, direction: Direction, card: Card, price: usize) -> Order {
    Order { player_name, price, direction, card }
}

fn process(table: &mut MatchMaker, order: Order) -> Outcome {
    assert!(table.can_process(&order));
    table.process_order(order)
}

fn points(table: &MatchMaker, name: PlayerName) -> usize {
    *table.player_points.get(&name).unwrap()
}

fn hand(table: &MatchMaker, name: PlayerName) -> Inventory {
    *table.player_inventories.get(&name).unwrap()
}

fn all_points(table: &MatchMaker) -> usize {
    table.player_names.iter().map(|name| points(table, *name)).sum()
}

fn all_cards(table: &MatchMaker, card: Card) -> usize {
    table.player_names.iter().map(|name| hand(table, *name).get(&card)).sum()
}

#[test]
fn orders_without_a_price_are_passed_over() {
    let mut table = table();
    let nothing = order(PlayerName::Spread, Direction::Buy, Card::Spade, 0);
    assert!(matches!(process(&mut table, nothing), Outcome::Ignored));
    let unseated = order(PlayerName::External, Direction::Sell, Card::Spade, 0);
    assert!(matches!(process(&mut table, unseated), Outcome::Ignored));
    assert_eq!(table.books.spades.bid.price, 0);
    assert_eq!(table.books.spades.ask.price, NO_ASK);
}

#[test]
fn sellers_need_a_card() {
    let mut table = table();
    let bid = order(PlayerName::Noisy, Direction::Buy, Card::Club, 9);
    assert!(matches!(process(&mut table, bid), Outcome::NewBid));
    let sale = order(SPADE_HOLDER, Direction::Sell, Card::Club, 5);
    assert!(matches!(process(&mut table, sale), Outcome::NoInventory));
    assert_eq!(table.books.clubs.bid.price, 9);
    assert_eq!(points(&table, SPADE_HOLDER), 500);
    assert_eq!(points(&table, PlayerName::Noisy), 500);
}

#[test]
fn quotes_only_improve() {
    let mut table = table();
    let bid = |price| order(PlayerName::Noisy, Direction::Buy, Card::Spade, price);
    let ask = |price| order(SPADE_HOLDER, Direction::Sell, Card::Spade, price);
    assert!(matches!(process(&mut table, bid(5)), Outcome::NewBid));
    assert!(matches!(process(&mut table, bid(5)), Outcome::NotBest));
    assert!(matches!(process(&mut table, bid(4)), Outcome::NotBest));
    assert!(matches!(process(&mut table, bid(6)), Outcome::NewBid));
    assert!(matches!(process(&mut table, ask(20)), Outcome::NewAsk));
    assert!(matches!(process(&mut table, ask(20)), Outcome::NotBest));
    assert!(matches!(process(&mut table, ask(21)), Outcome::NotBest));
    assert!(matches!(process(&mut table, ask(19)), Outcome::NewAsk));
    let book = table.books.get(&Card::Spade);
    assert_eq!((book.bid.price, book.bid.player_name), (6, PlayerName::Noisy));
    assert_eq!((book.ask.price, book.ask.player_name), (19, SPADE_HOLDER));
    assert_eq!(book.last_trade, None);
    assert_eq!(table.books.get(&Card::Club).bid.price, 0);
}

#[test]
fn buyers_pay_the_standing_ask() {
    let mut table = table();
    process(&mut table, order(SPADE_HOLDER, Direction::Sell, Card::Diamond, 30));
    process(&mut table, order(PlayerName::Noisy, Direction::Buy, Card::Heart, 3));
    process(&mut table, order(SPADE_HOLDER, Direction::Sell, Card::Spade, 12));
    let outcome = process(&mut table, order(PlayerName::Spread, Direction::Buy, Card::Spade, 15));
    match outcome {
        Outcome::Traded(trade) => {
            assert_eq!(trade.card, Card::Spade);
            assert_eq!(trade.price, 12);
            assert_eq!(trade.buyer, PlayerName::Spread);
            assert_eq!(trade.seller, SPADE_HOLDER);
        }
        other => panic!("no trade but {:?}", other),
    }
    assert_eq!(points(&table, PlayerName::Spread), 488);
    assert_eq!(points(&table, SPADE_HOLDER), 512);
    assert_eq!(hand(&table, PlayerName::Spread).spades, 1);
    assert_eq!(hand(&table, SPADE_HOLDER).spades, 1);
    assert_eq!(all_points(&table), 2000);
    assert_eq!(all_cards(&table, Card::Spade), 2);
    assert_eq!(all_cards(&table, Card::Diamond), 1);
    for card in [Card::Spade, Card::Club, Card::Diamond, Card::Heart] {
        let book = table.books.get(&card);
        assert_eq!((book.bid.price, book.bid.player_name), (0, PlayerName::Nobody));
        assert_eq!((book.ask.price, book.ask.player_name), (NO_ASK, PlayerName::Nobody));
        let last = if card == Card::Spade { Some(12) } else { None };
        assert_eq!(book.last_trade, last);
    }
}

#[test]
fn sellers_are_paid_the_standing_bid() {
    let mut table = table();
    process(&mut table, order(PlayerName::Noisy, Direction::Buy, Card::Spade, 20));
    let outcome = process(&mut table, order(SPADE_HOLDER, Direction::Sell, Card::Spade, 20));
    assert!(matches!(outcome, Outcome::Traded(trade) if trade.price == 20));
    process(&mut table, order(PlayerName::Noisy, Direction::Buy, Card::Spade, 25));
    let outcome = process(&mut table, order(SPADE_HOLDER, Direction::Sell, Card::Spade, 11));
    match outcome {
        Outcome::Traded(trade) => {
            assert_eq!(trade.price, 25);
            assert_eq!(trade.buyer, PlayerName::Noisy);
            assert_eq!(trade.seller, SPADE_HOLDER);
        }
        other => panic!("no trade but {:?}", other),
    }
    assert_eq!(points(&table, PlayerName::Noisy), 455);
    assert_eq!(points(&table, SPADE_HOLDER), 545);
    assert_eq!(hand(&table, PlayerName::Noisy).spades, 2);
    assert_eq!(hand(&table, SPADE_HOLDER).spades, 0);
    assert_eq!(table.books.spades.last_trade, Some(25));
}

#[test]
fn players_may_trade_with_themselves() {
    let mut table = table();
    process(&mut table, order(SPADE_HOLDER, Direction::Sell, Card::Spade, 7));
    let outcome = process(&mut table, order(SPADE_HOLDER, Direction::Buy, Card::Spade, 7));
    assert!(matches!(outcome, Outcome::Traded(trade) if trade.buyer == trade.seller));
    assert_eq!(points(&table, SPADE_HOLDER), 500);
    assert_eq!(hand(&table, SPADE_HOLDER).spades, 2);
    assert_eq!(table.books.spades.last_trade, Some(7));
}

#[test]
fn orders_that_cannot_be_settled_are_known() {
    let mut table = table();
    let stranger = order(PlayerName::External, Direction::Sell, Card::Spade, 5);
    assert!(!table.can_process(&stranger));
    let unbacked = order(PlayerName::Spread, Direction::Buy, Card::Club, NO_ASK);
    assert!(!table.can_process(&unbacked));
    process(&mut table, order(SPADE_HOLDER, Direction::Sell, Card::Spade, 501));
    assert!(!table.can_process(&order(PlayerName::Noisy, Direction::Buy, Card::Spade, 501)));
    assert!(table.can_process(&order(PlayerName::Noisy, Direction::Buy, Card::Spade, 500)));
    table.player_points.insert(PlayerName::Noisy, 501);
    assert!(table.can_process(&order(PlayerName::Noisy, Direction::Buy, Card::Spade, 501)));
    table.player_points.insert(SPADE_HOLDER, usize::MAX);
    assert!(!table.can_process(&order(PlayerName::Noisy, Direction::Buy, Card::Spade, 501)));
}

#[test]
fn asks_can_lose_their_card_between_rounds() {
    let mut table = table();
    process(&mut table, order(SPADE_HOLDER, Direction::Sell, Card::Spade, 10));
    table.player_inventories.insert(SPADE_HOLDER, Inventory::new());
    assert!(!table.can_process(&order(PlayerName::Noisy, Direction::Buy, Card::Spade, 10)));
}

#[test]
fn trading_conserves_points_and_cards() {
    let mut table = table();
    table.player_inventories.insert(
        PlayerName::Spread,
        Inventory { spades: 3, clubs: 3, diamonds: 3, hearts: 3 },
    );
    let cards = [Card::Spade, Card::Club, Card::Diamond, Card::Heart];
    let before: Vec<usize> = cards.iter().map(|card| all_cards(&table, *card)).collect();
    let mut trades = 0;
    for round in 0..40usize {
        let card = cards[round % 4];
        let maker = table.player_names[round % 4];
        let taker = table.player_names[(round * 3 + 1) % 4];
        for (player, direction) in [(maker, Direction::Sell), (taker, Direction::Buy)] {
            let order = order(player, direction, card, 1 + round % 7);
            if table.can_process(&order) {
                if let Outcome::Traded(_) = table.process_order(order) {
                    trades += 1;
                }
            }
            for card in cards {
                let book = table.books.get(&card);
                assert!(book.bid.price < book.ask.price);
            }
        }
    }
    assert!(trades > 0);
    let after: Vec<usize> = cards.iter().map(|card| all_cards(&table, *card)).collect();
    assert_eq!(before, after);
    assert_eq!(all_points(&table), 2000);
}
