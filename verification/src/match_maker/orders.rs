//! What an order does, said of the players, prices and cards that are before and after it.

use vstd::prelude::*;

use super::MatchMaker;
use super::matching::Market;
use super::matching::Outcome;
use crate::models::Book;
use crate::models::Books;
use crate::models::Card;
use crate::models::Direction;
use crate::models::Inventory;
use crate::models::NO_ASK;
use crate::models::Order;
use crate::player::PlayerName;

verus! {

/// A hand is looked up suit by suit, and changing one suit's number changes no other.
pub proof fn law_hands_by_suit(hand: Inventory, card: Card, n: usize, other: Card)
    ensures
        hand.of(Card::Spade) == hand.spades,
        hand.of(Card::Club) == hand.clubs,
        hand.of(Card::Diamond) == hand.diamonds,
        hand.of(Card::Heart) == hand.hearts,
        hand.with(card, n).of(other) == (if other == card {
            n
        } else {
            hand.of(other)
        }),
        Inventory::nothing().of(card) == 0,
        hand.size() == hand.of(Card::Spade) + hand.of(Card::Club) + hand.of(Card::Diamond)
            + hand.of(Card::Heart),
{
}

/// The books are looked up suit by suit, changing one suit's book changes no other, and
/// withdrawing the quotes leaves in each suit nothing but the price of its last trade.
pub proof fn law_books_by_suit(books: Books, card: Card, book: Book, other: Card)
    ensures
        books.of(Card::Spade) == books.spades,
        books.of(Card::Club) == books.clubs,
        books.of(Card::Diamond) == books.diamonds,
        books.of(Card::Heart) == books.hearts,
        books.with(card, book).of(other) == (if other == card {
            book
        } else {
            books.of(other)
        }),
        is_without_quotes(books.without_quotes().of(card)),
        books.without_quotes().of(card).last_trade == books.of(card).last_trade,
        is_without_quotes(Book::unquoted(book.last_trade)),
        Book::unquoted(book.last_trade).last_trade == book.last_trade,
{
}

/// No player stands behind either price: nothing is bid, and no ask can be met.
pub open spec fn is_without_quotes(book: Book) -> bool {
    &&& book.bid.player_name == PlayerName::Nobody
    &&& book.bid.price == 0
    &&& book.ask.player_name == PlayerName::Nobody
    &&& book.ask.price == usize::MAX
}

/// What orders act on is what the table holds: its books, and each player's points and hand.
pub proof fn law_market_is_the_tables(table: MatchMaker, name: PlayerName)
    ensures
        table.market().books == table.books,
        table.market().hands == table.player_inventories@,
        table.market().points.contains_key(name) <==> table.player_points@.contains_key(name),
        table.player_points@.contains_key(name) ==> table.market().points[name]
            == table.player_points@[name],
{
}

/// When an order comes to what: an order without a price is passed over; a seller without a card
/// of the suit is rejected; an order that meets the best price of the other side trades; one that
/// betters its own side without meeting the other becomes the best quote there.
pub proof fn law_what_orders_come_to(market: Market, order: Order)
    ensures
        ({
            let bid = market.books.of(order.card).bid.price;
            let ask = market.books.of(order.card).ask.price;
            let held = market.hands[order.player_name].of(order.card);
            let outcome = market.outcome(order);
            &&& outcome is Ignored <==> order.price == 0
            &&& outcome is NoInventory <==> order.price > 0 && order.direction is Sell && held == 0
            &&& outcome is Traded <==> order.price > 0 && match order.direction {
                Direction::Buy => order.price >= ask,
                Direction::Sell => held > 0 && order.price <= bid,
            }
            &&& outcome is NewBid <==> order.price > 0 && order.direction is Buy && bid
                < order.price < ask
            &&& outcome is NewAsk <==> order.direction is Sell && held > 0 && bid < order.price
                < ask
        }),
{
}

/// A new best quote is the order: its maker and its price stand on the order's side of the
/// order's suit, and nothing else changes on the table.
pub proof fn law_new_quotes_are_the_orders(market: Market, order: Order, card: Card)
    ensures
        ({
            let before = market.books.of(card);
            let after = market.after(order).books.of(card);
            let outcome = market.outcome(order);
            &&& outcome is NewBid && card == order.card ==> {
                &&& after.bid.player_name == order.player_name
                &&& after.bid.price == order.price
                &&& after.ask == before.ask
                &&& after.last_trade == before.last_trade
            }
            &&& outcome is NewAsk && card == order.card ==> {
                &&& after.ask.player_name == order.player_name
                &&& after.ask.price == order.price
                &&& after.bid == before.bid
                &&& after.last_trade == before.last_trade
            }
            &&& !(outcome is Traded) && card != order.card ==> after == before
            &&& !(outcome is Traded) ==> market.after(order).points == market.points
            &&& !(outcome is Traded) ==> market.after(order).hands == market.hands
            &&& !(outcome is Traded || outcome is NewBid || outcome is NewAsk) ==> market.after(
                order,
            ) == market
        }),
{
}

/// A trade is between the player who orders and the player who stands behind the best quote of the
/// other side, in the order's suit and at that quote's price.
pub proof fn law_trades_are_with_the_standing_quote(market: Market, order: Order)
    ensures
        market.outcome(order) matches Outcome::Traded(trade) ==> {
            let book = market.books.of(order.card);
            &&& trade.card == order.card
            &&& order.direction is Buy ==> {
                &&& trade.buyer == order.player_name
                &&& trade.seller == book.ask.player_name
                &&& trade.price == book.ask.price
            }
            &&& order.direction is Sell ==> {
                &&& trade.seller == order.player_name
                &&& trade.buyer == book.bid.player_name
                &&& trade.price == book.bid.price
            }
        },
{
}

/// A trade moves its price from buyer to seller and one card of its suit from seller to buyer.
/// Nobody else's points and cards change, nor do anyone's cards of another suit. In every suit all
/// quotes are withdrawn, and the price is on record as the last in the trade's suit alone.
pub proof fn law_trades_move_price_and_card(
    market: Market,
    order: Order,
    name: PlayerName,
    card: Card,
)
    requires
        market.admits(order),
    ensures
        market.outcome(order) matches Outcome::Traded(trade) ==> {
            let after = market.after(order);
            let paid: int = if name == trade.buyer {
                trade.price as int
            } else {
                0
            };
            let earned: int = if name == trade.seller {
                trade.price as int
            } else {
                0
            };
            let taken: int = if name == trade.buyer && card == trade.card {
                1
            } else {
                0
            };
            let given: int = if name == trade.seller && card == trade.card {
                1
            } else {
                0
            };
            &&& market.points.contains_key(name) ==> after.points[name] == market.points[name] - paid
                + earned
            &&& market.hands.contains_key(name) ==> after.hands[name].of(card)
                == market.hands[name].of(card) + taken - given
            &&& is_without_quotes(after.books.of(card))
            &&& after.books.of(card).last_trade == (if card == trade.card {
                Some(trade.price)
            } else {
                market.books.of(card).last_trade
            })
        },
{
}

/// A player placed an order for a suit, on a side and at a price.
pub open spec fn was_placed(
    orders: Seq<Order>,
    name: PlayerName,
    direction: Direction,
    card: Card,
    price: usize,
) -> bool {
    exists|i: int|
        0 <= i < orders.len() && (#[trigger] orders[i]).player_name == name && orders[i].direction
            == direction && orders[i].card == card && orders[i].price == price
}

/// What was placed is still placed after one more order, which is placed too.
proof fn lemma_placed_before(
    orders: Seq<Order>,
    name: PlayerName,
    direction: Direction,
    card: Card,
    price: usize,
)
    requires
        orders.len() > 0,
    ensures
        was_placed(orders.drop_last(), name, direction, card, price) ==> was_placed(
            orders,
            name,
            direction,
            card,
            price,
        ),
        was_placed(
            orders,
            orders.last().player_name,
            orders.last().direction,
            orders.last().card,
            orders.last().price,
        ),
{
    if was_placed(orders.drop_last(), name, direction, card, price) {
        let i = choose|i: int|
            0 <= i < orders.len() - 1 && (#[trigger] orders.drop_last()[i]).player_name == name
                && orders.drop_last()[i].direction == direction && orders.drop_last()[i].card == card
                && orders.drop_last()[i].price == price;
        assert(orders[i] == orders.drop_last()[i]);
    }
    assert(orders[orders.len() - 1] == orders.last());
}

/// Whoever stands behind a quote has named its price: after any row of orders on books without
/// quotes, each quote is one of the orders, and without such an order there is no quote.
pub proof fn law_quotes_were_placed(market: Market, orders: Seq<Order>, card: Card)
    requires
        forall|c: Card| is_without_quotes(#[trigger] market.books.of(c)),
    ensures
        ({
            let book = market.after_all(orders).books.of(card);
            &&& was_placed(
                orders,
                book.bid.player_name,
                Direction::Buy,
                card,
                book.bid.price,
            ) || (book.bid.player_name == PlayerName::Nobody && book.bid.price == 0)
            &&& was_placed(
                orders,
                book.ask.player_name,
                Direction::Sell,
                card,
                book.ask.price,
            ) || (book.ask.player_name == PlayerName::Nobody && book.ask.price == usize::MAX)
        }),
    decreases orders.len(),
{
    if orders.len() == 0 {
        assert(is_without_quotes(market.books.of(card)));
    } else {
        let rest = orders.drop_last();
        let before = market.after_all(rest);
        law_quotes_were_placed(market, rest, card);
        let book = before.books.of(card);
        lemma_placed_before(orders, book.bid.player_name, Direction::Buy, card, book.bid.price);
        lemma_placed_before(orders, book.ask.player_name, Direction::Sell, card, book.ask.price);
        law_new_quotes_are_the_orders(before, orders.last(), card);
        law_what_orders_come_to(before, orders.last());
    }
}

/// Nobody buys or sells at a price that they did not name: in a trade that comes of a row of
/// orders on books without quotes, the player who did not place the last order placed an earlier
/// one, on their own side of the trade, for its suit and at its price; and the player who placed
/// the last order named a price at least as bad for them.
pub proof fn law_nobody_trades_at_a_price_not_named(market: Market, orders: Seq<Order>)
    requires
        forall|c: Card| is_without_quotes(#[trigger] market.books.of(c)),
        orders.len() > 0,
        0 < orders.last().price < usize::MAX,
    ensures
        market.after_all(orders.drop_last()).outcome(orders.last()) matches Outcome::Traded(trade)
            ==> {
            let order = orders.last();
            &&& order.direction is Buy ==> {
                &&& trade.price <= order.price
                &&& was_placed(
                    orders.drop_last(),
                    trade.seller,
                    Direction::Sell,
                    order.card,
                    trade.price,
                )
            }
            &&& order.direction is Sell ==> {
                &&& trade.price >= order.price
                &&& was_placed(
                    orders.drop_last(),
                    trade.buyer,
                    Direction::Buy,
                    order.card,
                    trade.price,
                )
            }
        },
{
    law_quotes_were_placed(market, orders.drop_last(), orders.last().card);
    law_what_orders_come_to(market.after_all(orders.drop_last()), orders.last());
    law_trades_are_with_the_standing_quote(market.after_all(orders.drop_last()), orders.last());
}

/// A row of orders is carried out one after the other.
pub proof fn law_orders_follow_one_another(market: Market, orders: Seq<Order>, order: Order)
    ensures
        market.after_all(Seq::empty()) == market,
        market.after_all(orders.push(order)) == market.after_all(orders).after(order),
        market.admits_all(Seq::empty()),
        market.admits_all(orders.push(order)) <==> market.admits_all(orders)
            && market.after_all(orders).admits(order),
{
    assert(orders.push(order).drop_last() =~= orders);
}

/// An order can be carried out unless it is a sale by somebody without a hand, or makes a trade in
/// which a side has no hand or no points on record, the buyer cannot pay, the seller has no card,
/// or a count would leave the range of machine numbers.
pub proof fn law_which_orders_can_be_carried_out(market: Market, order: Order)
    ensures
        order.price == 0 ==> market.admits(order),
        order.price > 0 && order.direction is Sell && !market.hands.contains_key(order.player_name)
            ==> !market.admits(order),
        order.price > 0 && (order.direction is Sell ==> market.hands.contains_key(
            order.player_name,
        )) && !(market.outcome(order) is Traded) ==> market.admits(order),
        market.outcome(order) matches Outcome::Traded(trade) ==> (market.admits(order) <==> {
            &&& order.direction is Sell ==> market.hands.contains_key(order.player_name)
            &&& market.hands.contains_key(trade.buyer) && market.hands.contains_key(trade.seller)
            &&& market.points.contains_key(trade.buyer) && market.points.contains_key(trade.seller)
            &&& market.points[trade.buyer] >= trade.price
            &&& market.hands[trade.buyer].of(trade.card) < usize::MAX
            &&& trade.buyer != trade.seller ==> {
                &&& market.hands[trade.seller].of(trade.card) > 0
                &&& market.points[trade.seller] + trade.price <= usize::MAX
            }
        }),
{
}

/// The price of an ask that nobody made is beyond every price but the largest.
pub proof fn law_missing_asks_are_out_of_reach(price: usize)
    ensures
        price <= NO_ASK,
{
}

} // verus!
