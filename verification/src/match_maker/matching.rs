//! What an order does to the books, the points and the hands.

use vstd::prelude::*;

use super::MatchMaker;
use crate::models::Book;
use crate::models::Books;
use crate::models::Card;
use crate::models::Direction;
use crate::models::Inventory;
use crate::models::NO_ASK;
use crate::models::Order;
use crate::models::Quote;
use crate::models::Trade;
use crate::player::PlayerName;
use crate::player::totals::lemma_total_insert;
use crate::player::totals::total;

verus! {

/// What became of an order.
#[derive(Debug, Clone, Copy)]
pub enum Outcome {
    /// The order names no price and is passed over.
    Ignored,
    /// The seller holds no card of the suit.
    NoInventory,
    /// The order neither trades nor beats the best quote on its side.
    NotBest,
    /// The order is the new best bid.
    NewBid,
    /// The order is the new best ask.
    NewAsk,
    /// The order met the best quote of the other side.
    Traded(Trade),
}

/// The part of the table that orders act on: points and hands of the players, and the books.
#[verifier::ext_equal]
pub struct Market {
    pub points: Map<PlayerName, int>,
    pub hands: Map<PlayerName, Inventory>,
    pub books: Books,
}

/// The points of a table as mathematical numbers.
pub open spec fn amounts(points: Map<PlayerName, usize>) -> Map<PlayerName, int> {
    points.map_values(|n: usize| n as int)
}

impl Market {
    /// The hands after one card of a trade went from seller to buyer. The buyer takes the card
    /// before the seller gives one away.
    pub open spec fn hands_after(self, trade: Trade) -> Map<PlayerName, Inventory> {
        let bought = self.hands.insert(
            trade.buyer,
            self.hands[trade.buyer].with(
                trade.card,
                (self.hands[trade.buyer].of(trade.card) + 1) as usize,
            ),
        );
        bought.insert(
            trade.seller,
            bought[trade.seller].with(
                trade.card,
                (bought[trade.seller].of(trade.card) - 1) as usize,
            ),
        )
    }

    /// The points after the buyer of a trade paid its price to the seller.
    pub open spec fn points_after(self, trade: Trade) -> Map<PlayerName, int> {
        let paid = self.points.insert(trade.buyer, self.points[trade.buyer] - trade.price);
        paid.insert(trade.seller, paid[trade.seller] + trade.price)
    }

    /// The books after a trade: its price is on record, and no quote stands in any suit.
    pub open spec fn books_after(self, trade: Trade) -> Books {
        let book = self.books.of(trade.card);
        self.books.with(trade.card, Book { last_trade: Some(trade.price), ..book }).without_quotes()
    }

    /// The market after a trade.
    pub open spec fn traded(self, trade: Trade) -> Market {
        Market {
            points: self.points_after(trade),
            hands: self.hands_after(trade),
            books: self.books_after(trade),
        }
    }

    /// A trade can be carried out: both sides are at the table, the buyer can pay, the seller
    /// has the card, and no count leaves the range of machine numbers.
    pub open spec fn can_trade(self, trade: Trade) -> bool {
        &&& self.hands.contains_key(trade.buyer)
        &&& self.hands.contains_key(trade.seller)
        &&& self.points.contains_key(trade.buyer)
        &&& self.points.contains_key(trade.seller)
        &&& self.hands[trade.buyer].of(trade.card) < usize::MAX
        &&& trade.buyer == trade.seller || self.hands[trade.seller].of(trade.card) > 0
        &&& self.points[trade.buyer] >= trade.price
        &&& trade.buyer == trade.seller || self.points[trade.seller] + trade.price <= usize::MAX
    }

    /// The order takes the best quote of the other side.
    pub open spec fn crosses(self, order: Order) -> bool {
        match order.direction {
            Direction::Buy => order.price >= self.books.of(order.card).ask.price,
            Direction::Sell => order.price <= self.books.of(order.card).bid.price,
        }
    }

    /// The trade between an order and the best quote of the other side, at that quote's price.
    pub open spec fn trade_of(self, order: Order) -> Trade {
        match order.direction {
            Direction::Buy => Trade {
                card: order.card,
                price: self.books.of(order.card).ask.price,
                buyer: order.player_name,
                seller: self.books.of(order.card).ask.player_name,
            },
            Direction::Sell => Trade {
                card: order.card,
                price: self.books.of(order.card).bid.price,
                buyer: self.books.of(order.card).bid.player_name,
                seller: order.player_name,
            },
        }
    }

    /// What becomes of an order.
    pub open spec fn outcome(self, order: Order) -> Outcome {
        let book = self.books.of(order.card);
        if order.price == 0 {
            Outcome::Ignored
        } else if order.direction is Sell && self.hands[order.player_name].of(order.card) == 0 {
            Outcome::NoInventory
        } else if self.crosses(order) {
            Outcome::Traded(self.trade_of(order))
        } else if order.direction is Buy && order.price > book.bid.price {
            Outcome::NewBid
        } else if order.direction is Sell && order.price < book.ask.price {
            Outcome::NewAsk
        } else {
            Outcome::NotBest
        }
    }

    /// The market after an order.
    pub open spec fn after(self, order: Order) -> Market {
        let book = self.books.of(order.card);
        let quote = Quote { player_name: order.player_name, price: order.price };
        match self.outcome(order) {
            Outcome::Traded(trade) => self.traded(trade),
            Outcome::NewBid => Market {
                books: self.books.with(order.card, Book { bid: quote, ..book }),
                ..self
            },
            Outcome::NewAsk => Market {
                books: self.books.with(order.card, Book { ask: quote, ..book }),
                ..self
            },
            _ => self,
        }
    }

    /// The order can be carried out: a seller is at the table, and a trade, if the order makes
    /// one, is possible.
    pub open spec fn admits(self, order: Order) -> bool {
        order.price == 0 || {
            &&& order.direction is Sell ==> self.hands.contains_key(order.player_name)
            &&& self.outcome(order) matches Outcome::Traded(trade) ==> self.can_trade(trade)
        }
    }
}

impl Market {
    /// The market after a row of orders.
    pub open spec fn after_all(self, orders: Seq<Order>) -> Market
        decreases orders.len(),
    {
        if orders.len() == 0 {
            self
        } else {
            self.after_all(orders.drop_last()).after(orders.last())
        }
    }

    /// Each of a row of orders can be carried out when its turn comes.
    pub open spec fn admits_all(self, orders: Seq<Order>) -> bool
        decreases orders.len(),
    {
        orders.len() > 0 ==> {
            &&& self.admits_all(orders.drop_last())
            &&& self.after_all(orders.drop_last()).admits(orders.last())
        }
    }
}

/// Nothing but points, books and hands differs between two tables.
pub open spec fn same_but_market(a: MatchMaker, b: MatchMaker) -> bool {
    b == (MatchMaker {
        player_points: b.player_points,
        books: b.books,
        player_inventories: b.player_inventories,
        ..a
    })
}

impl MatchMaker {
    /// The part of the table that orders act on.
    pub open spec fn market(self) -> Market {
        Market {
            points: amounts(self.player_points@),
            hands: self.player_inventories@,
            books: self.books,
        }
    }

    /// Moves the card and the points of a trade, records its price, and withdraws all quotes.
    fn settle(&mut self, trade: Trade)
        requires
            old(self).market().can_trade(trade),
        ensures
            final(self).market() == old(self).market().traded(trade),
            same_but_market(*old(self), *final(self)),
    {
        let ghost before = self.market();
        if let Some(hand) = self.player_inventories.get(&trade.buyer) {
            let mut hand: Inventory = *hand;
            hand.change(trade.card, true);
            self.player_inventories.insert(trade.buyer, hand);
        }
        if let Some(hand) = self.player_inventories.get(&trade.seller) {
            let mut hand: Inventory = *hand;
            hand.change(trade.card, false);
            self.player_inventories.insert(trade.seller, hand);
        }
        if let Some(points) = self.player_points.get(&trade.buyer) {
            let points: usize = *points;
            self.player_points.insert(trade.buyer, points - trade.price);
        }
        if let Some(points) = self.player_points.get(&trade.seller) {
            let points: usize = *points;
            self.player_points.insert(trade.seller, points + trade.price);
        }
        let mut book: Book = self.books.get(&trade.card);
        book.last_trade = Some(trade.price);
        self.books.set(trade.card, book);
        self.books.reset_quotes();
        assert(self.market() =~= before.traded(trade));
    }

    /// Whether an order can be carried out.
    pub fn can_process(&self, order: &Order) -> (yes: bool)
        ensures
            yes == self.market().admits(*order),
    {
        if order.price == 0 {
            return true;
        }
        let book: Book = self.books.get(&order.card);
        let (price, buyer, seller): (usize, PlayerName, PlayerName) = match order.direction {
            Direction::Buy => {
                if order.price < book.ask.price {
                    return true;
                }
                (book.ask.price, order.player_name, book.ask.player_name)
            },
            Direction::Sell => {
                match self.player_inventories.get(&order.player_name) {
                    None => {
                        return false;
                    },
                    Some(hand) => {
                        if hand.get(&order.card) == 0 || order.price > book.bid.price {
                            return true;
                        }
                    },
                }
                (book.bid.price, book.bid.player_name, order.player_name)
            },
        };
        let (buyer_cards, seller_cards): (usize, usize) = match (
            self.player_inventories.get(&buyer),
            self.player_inventories.get(&seller),
        ) {
            (Some(b), Some(s)) => (b.get(&order.card), s.get(&order.card)),
            _ => {
                return false;
            },
        };
        let (buyer_points, seller_points): (usize, usize) = match (
            self.player_points.get(&buyer),
            self.player_points.get(&seller),
        ) {
            (Some(b), Some(s)) => (*b, *s),
            _ => {
                return false;
            },
        };
        buyer_cards < usize::MAX && buyer_points >= price && (buyer == seller || (seller_cards > 0
            && seller_points <= usize::MAX - price))
    }

    /// Carries an order out: it is passed over, rejected, quoted, or matched with the best quote
    /// of the other side.
    pub fn process_order(&mut self, order: Order) -> (outcome: Outcome)
        requires
            old(self).market().admits(order),
        ensures
            outcome == old(self).market().outcome(order),
            final(self).market() == old(self).market().after(order),
            same_but_market(*old(self), *final(self)),
    {
        if order.price == 0 {
            return Outcome::Ignored;
        }
        let mut book: Book = self.books.get(&order.card);
        match order.direction {
            Direction::Buy => {
                if order.price >= book.ask.price {
                    let trade = Trade {
                        card: order.card,
                        price: book.ask.price,
                        buyer: order.player_name,
                        seller: book.ask.player_name,
                    };
                    self.settle(trade);
                    Outcome::Traded(trade)
                } else if order.price > book.bid.price {
                    book.bid = Quote { player_name: order.player_name, price: order.price };
                    self.books.set(order.card, book);
                    Outcome::NewBid
                } else {
                    Outcome::NotBest
                }
            },
            Direction::Sell => {
                if let Some(hand) = self.player_inventories.get(&order.player_name) {
                    if hand.get(&order.card) == 0 {
                        return Outcome::NoInventory;
                    }
                }
                if order.price <= book.bid.price {
                    let trade = Trade {
                        card: order.card,
                        price: book.bid.price,
                        buyer: book.bid.player_name,
                        seller: order.player_name,
                    };
                    self.settle(trade);
                    Outcome::Traded(trade)
                } else if order.price < book.ask.price {
                    book.ask = Quote { player_name: order.player_name, price: order.price };
                    self.books.set(order.card, book);
                    Outcome::NewAsk
                } else {
                    Outcome::NotBest
                }
            },
        }
    }
}

/// How many cards of a suit each player holds.
pub open spec fn holdings(hands: Map<PlayerName, Inventory>, card: Card) -> Map<PlayerName, int> {
    hands.map_values(|hand: Inventory| hand.of(card) as int)
}

/// Orders move points between players but neither make nor destroy them.
pub proof fn law_orders_conserve_points(market: Market, order: Order)
    requires
        market.admits(order),
    ensures
        total(market.after(order).points) == total(market.points),
{
    if let Outcome::Traded(trade) = market.outcome(order) {
        let paid = market.points.insert(trade.buyer, market.points[trade.buyer] - trade.price);
        lemma_total_insert(market.points, trade.buyer, paid[trade.buyer]);
        lemma_total_insert(paid, trade.seller, paid[trade.seller] + trade.price);
    }
}

/// What a trade does to the cards of one suit.
proof fn lemma_trade_conserves_cards(market: Market, trade: Trade, card: Card)
    requires
        market.can_trade(trade),
    ensures
        total(holdings(market.hands_after(trade), card)) == total(holdings(market.hands, card)),
{
    let moved: int = if card == trade.card {
        1
    } else {
        0
    };
    let bought_hand = market.hands[trade.buyer].with(
        trade.card,
        (market.hands[trade.buyer].of(trade.card) + 1) as usize,
    );
    let bought = market.hands.insert(trade.buyer, bought_hand);
    let sold_hand = bought[trade.seller].with(
        trade.card,
        (bought[trade.seller].of(trade.card) - 1) as usize,
    );
    assert(bought_hand.of(card) == market.hands[trade.buyer].of(card) + moved);
    assert(sold_hand.of(card) == bought[trade.seller].of(card) - moved);
    let held = holdings(market.hands, card);
    let held_then = held.insert(trade.buyer, bought_hand.of(card) as int);
    assert(holdings(bought, card) =~= held_then);
    assert(holdings(market.hands_after(trade), card) =~= held_then.insert(
        trade.seller,
        sold_hand.of(card) as int,
    ));
    lemma_total_insert(held, trade.buyer, bought_hand.of(card) as int);
    lemma_total_insert(held_then, trade.seller, sold_hand.of(card) as int);
}

/// Orders move cards between players but neither make nor destroy a card of any suit.
pub proof fn law_orders_conserve_cards(market: Market, order: Order, card: Card)
    requires
        market.admits(order),
    ensures
        total(holdings(market.after(order).hands, card)) == total(holdings(market.hands, card)),
{
    if let Outcome::Traded(trade) = market.outcome(order) {
        lemma_trade_conserves_cards(market, trade, card);
    }
}

/// No order that can be carried out changes who is at the table.
pub proof fn law_orders_keep_players(market: Market, order: Order)
    requires
        market.admits(order),
    ensures
        market.after(order).points.dom() == market.points.dom(),
        market.after(order).hands.dom() == market.hands.dom(),
{
    assert(market.after(order).points.dom() =~= market.points.dom());
    assert(market.after(order).hands.dom() =~= market.hands.dom());
}

/// The books of all suits stay uncrossed: no order leaves a bid at or above an ask.
pub proof fn law_books_stay_uncrossed(market: Market, order: Order)
    requires
        forall|c: Card| #[trigger] market.books.of(c).is_uncrossed(),
    ensures
        forall|c: Card| #[trigger] market.after(order).books.of(c).is_uncrossed(),
{
    assert forall|c: Card| #[trigger] market.after(order).books.of(c).is_uncrossed() by {
        assert(market.books.of(c).is_uncrossed());
        assert(market.books.of(order.card).is_uncrossed());
    }
}

/// Short of a trade a bid only rises and an ask only falls.
pub proof fn law_quotes_only_improve(market: Market, order: Order, card: Card)
    requires
        !(market.outcome(order) is Traded),
    ensures
        market.after(order).books.of(card).bid.price >= market.books.of(card).bid.price,
        market.after(order).books.of(card).ask.price <= market.books.of(card).ask.price,
        market.after(order).books.of(card).last_trade == market.books.of(card).last_trade,
{
}

/// A trade withdraws every quote in every suit, and records its price in its own suit only.
pub proof fn law_trades_clear_the_books(market: Market, order: Order, card: Card)
    requires
        market.outcome(order) is Traded,
    ensures
        market.after(order).books.of(card) == Book::unquoted(
            if card == order.card {
                Some(market.trade_of(order).price)
            } else {
                market.books.of(card).last_trade
            },
        ),
{
}

/// A trade is struck at the price of the standing quote, which is never worse for the player
/// whose order meets it than the price that the order named.
pub proof fn law_trade_price(market: Market, order: Order)
    requires
        market.outcome(order) is Traded,
    ensures
        order.direction is Buy ==> market.trade_of(order).price <= order.price,
        order.direction is Sell ==> market.trade_of(order).price >= order.price,
{
}

/// Every ask is made by a player who holds a card of the suit.
pub open spec fn asks_are_backed(market: Market) -> bool {
    forall|c: Card| #[trigger]
        market.books.of(c).ask.player_name != PlayerName::Nobody ==> {
            &&& market.hands.contains_key(market.books.of(c).ask.player_name)
            &&& market.hands[market.books.of(c).ask.player_name].of(c) > 0
        }
}

/// Orders keep every ask backed by a card in its maker's hand.
pub proof fn law_asks_stay_backed(market: Market, order: Order)
    requires
        market.admits(order),
        asks_are_backed(market),
    ensures
        asks_are_backed(market.after(order)),
{
    assert forall|c: Card| #[trigger]
        market.after(order).books.of(c).ask.player_name != PlayerName::Nobody implies {
        &&& market.hands.contains_key(market.after(order).books.of(c).ask.player_name)
        &&& market.hands[market.after(order).books.of(c).ask.player_name].of(c) > 0
    } by {
        if !(market.outcome(order) is Traded) && !(market.outcome(order) is NewAsk && order.card == c) {
            assert(market.after(order).books.of(c).ask == market.books.of(c).ask);
        }
    }
}

/// Orders that name no price, and sell orders for a suit that the seller does not hold, leave
/// the market as it was.
pub proof fn law_refused_orders_change_nothing(market: Market, order: Order)
    requires
        order.price == 0 || (order.direction is Sell && market.hands[order.player_name].of(
            order.card,
        ) == 0),
    ensures
        market.after(order) == market,
        market.outcome(order) == (if order.price == 0 {
            Outcome::Ignored
        } else {
            Outcome::NoInventory
        }),
{
}

/// A player at the table.
pub open spec fn is_seated(market: Market, name: PlayerName) -> bool {
    &&& name != PlayerName::Nobody
    &&& market.hands.contains_key(name)
    &&& market.points.contains_key(name)
}

/// The quotes of one suit are made by players at the table; where nobody stands behind one, its
/// price is the one of a missing quote.
pub open spec fn quotes_have_makers(market: Market, card: Card) -> bool {
    let book = market.books.of(card);
    &&& is_seated(market, book.ask.player_name) || (book.ask.player_name == PlayerName::Nobody
        && book.ask.price == NO_ASK)
    &&& is_seated(market, book.bid.player_name) || (book.bid.player_name == PlayerName::Nobody
        && book.bid.price == 0)
}

/// Every quote is good for a trade: it has a maker at the table, an ask is backed by a card, and
/// no bid stands at or above an ask.
pub open spec fn quotes_are_sound(market: Market) -> bool {
    &&& asks_are_backed(market)
    &&& forall|c: Card| #[trigger] market.books.of(c).is_uncrossed()
    &&& forall|c: Card| #[trigger] quotes_have_makers(market, c)
}

/// Books without quotes are sound.
pub proof fn law_empty_books_are_sound(market: Market)
    requires
        forall|c: Card| (#[trigger] market.books.of(c)) == Book::unquoted(
            market.books.of(c).last_trade,
        ),
    ensures
        quotes_are_sound(market),
{
    assert forall|c: Card| #[trigger] market.books.of(c).is_uncrossed() by {
        assert(market.books.of(c) == Book::unquoted(market.books.of(c).last_trade));
    }
}

/// Orders of players at the table keep every quote sound.
pub proof fn law_quotes_stay_sound(market: Market, order: Order)
    requires
        market.admits(order),
        is_seated(market, order.player_name),
        quotes_are_sound(market),
    ensures
        quotes_are_sound(market.after(order)),
{
    let after = market.after(order);
    law_books_stay_uncrossed(market, order);
    law_asks_stay_backed(market, order);
    law_orders_keep_players(market, order);
    assert forall|c: Card| #[trigger] quotes_have_makers(after, c) by {
        assert(quotes_have_makers(market, c));
    }
}

/// While every quote is sound, an order of a player at the table, for a price below that of an
/// ask that nobody made, can be carried out, provided that the buyer of the trade that it makes
/// can pay for it and no count leaves the range of machine numbers. A seller who lacks the card
/// is never in the way: such an order is rejected, and standing asks are backed.
pub proof fn law_affordable_orders_are_admitted(market: Market, order: Order)
    requires
        quotes_are_sound(market),
        is_seated(market, order.player_name),
        order.price < NO_ASK,
        market.outcome(order) matches Outcome::Traded(trade) ==> {
            &&& market.points[trade.buyer] >= trade.price
            &&& market.points[trade.seller] + trade.price <= usize::MAX
            &&& market.hands[trade.buyer].of(trade.card) < usize::MAX
        },
    ensures
        market.admits(order),
{
    if let Outcome::Traded(trade) = market.outcome(order) {
        let book = market.books.of(order.card);
        assert(quotes_have_makers(market, order.card));
        assert(book.ask.player_name != PlayerName::Nobody ==> market.hands.contains_key(
            book.ask.player_name,
        ));
    }
}

/// However many orders are carried out, the players together keep their points and their cards
/// of each suit.
pub proof fn law_trading_conserves(market: Market, orders: Seq<Order>, card: Card)
    requires
        market.admits_all(orders),
    ensures
        total(market.after_all(orders).points) == total(market.points),
        total(holdings(market.after_all(orders).hands, card)) == total(
            holdings(market.hands, card),
        ),
        market.after_all(orders).points.dom() == market.points.dom(),
        market.after_all(orders).hands.dom() == market.hands.dom(),
    decreases orders.len(),
{
    if orders.len() > 0 {
        law_trading_conserves(market, orders.drop_last(), card);
        let before = market.after_all(orders.drop_last());
        law_orders_conserve_points(before, orders.last());
        law_orders_conserve_cards(before, orders.last(), card);
        law_orders_keep_players(before, orders.last());
    }
}

/// However many orders of players at the table are carried out, every quote stays sound.
pub proof fn law_trading_keeps_quotes_sound(market: Market, orders: Seq<Order>)
    requires
        market.admits_all(orders),
        forall|i: int| 0 <= i < orders.len() ==> is_seated(market, (#[trigger] orders[i]).player_name),
        quotes_are_sound(market),
    ensures
        quotes_are_sound(market.after_all(orders)),
    decreases orders.len(),
{
    if orders.len() > 0 {
        let rest = orders.drop_last();
        assert forall|i: int| 0 <= i < rest.len() implies is_seated(
            market,
            (#[trigger] rest[i]).player_name,
        ) by {
            assert(rest[i] == orders[i]);
        }
        law_trading_keeps_quotes_sound(market, rest);
        law_trading_conserves(market, rest, Card::Spade);
        assert(is_seated(market, orders[orders.len() - 1].player_name));
        law_quotes_stay_sound(market.after_all(rest), orders.last());
    }
}

/// Nobody's points fall below nothing in trading.
pub proof fn law_trading_makes_no_debts(market: Market, orders: Seq<Order>, name: PlayerName)
    requires
        market.admits_all(orders),
        forall|p: PlayerName| market.points.contains_key(p) ==> #[trigger] market.points[p] >= 0,
        market.points.contains_key(name),
    ensures
        market.after_all(orders).points[name] >= 0,
    decreases orders.len(),
{
    if orders.len() > 0 {
        let before = market.after_all(orders.drop_last());
        law_trading_makes_no_debts(market, orders.drop_last(), name);
        if let Outcome::Traded(trade) = before.outcome(orders.last()) {
            assert(before.can_trade(trade));
        }
    } else {
        assert(market.points[name] >= 0);
    }
}

} // verus!
