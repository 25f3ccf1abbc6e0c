//! Who is told what, and what is logged, said of the orders, trades and books themselves.

use vstd::prelude::*;

use super::MatchMaker;
use super::matching::Market;
use super::matching::Outcome;
use super::orders::is_without_quotes;
use super::orders::law_new_quotes_are_the_orders;
use super::orders::law_trades_are_with_the_standing_quote;
use super::orders::law_trades_move_price_and_card;
use super::round::EventView;
use super::round::Step;
use super::round::StepView;
use super::round::everyone;
use super::round::order_records;
use super::round::order_steps;
use super::round::steps_view;
use super::round::update_of;
use crate::json::object;
use crate::json::raw_field;
use crate::json::text_field;
use crate::logger::objects::law_cancel_all_is_an_object;
use crate::logger::objects::law_quote_is_an_object;
use crate::logger::objects::law_rejection_is_an_object;
use crate::logger::objects::law_trade_is_an_object;
use crate::models::Book;
use crate::models::Books;
use crate::models::Card;
use crate::models::Event;
use crate::models::Inventory;
use crate::models::Order;
use crate::models::Trade;
use crate::models::Update;
use crate::player::PlayerName;
use crate::player::external::MsgView;
use crate::player::external::name_text;
use crate::player::external::suit_text;
use crate::text::decimal;

verus! {

/// The book that an update shows for a suit.
pub open spec fn shown(update: Update, card: Card) -> Book {
    match card {
        Card::Spade => update.spades,
        Card::Club => update.clubs,
        Card::Diamond => update.diamonds,
        Card::Heart => update.hearts,
    }
}

/// An update shows for each suit the table's book of that suit, and the trade that it is about.
pub proof fn law_updates_show_the_books(books: Books, trade: Option<Trade>, card: Card)
    ensures
        shown(update_of(books, trade), card) == books.of(card),
        update_of(books, trade).spades == books.spades,
        update_of(books, trade).clubs == books.clubs,
        update_of(books, trade).diamonds == books.diamonds,
        update_of(books, trade).hearts == books.hearts,
        update_of(books, trade).trade == trade,
{
}

/// The last step is an update for all players that shows some books and a trade.
pub open spec fn ends_with_update(
    steps: Seq<StepView>,
    books: Books,
    trade: Option<Trade>,
) -> bool {
    &&& steps.len() > 0
    &&& steps.last() matches StepView::Broadcast(event) && event matches EventView::Update(update)
        && update.trade == trade && forall|c: Card| #[trigger] shown(update, c) == books.of(c)
}

/// Everyone hears of an order, once and last, unless it was passed over or rejected, of which
/// nobody hears: they are shown the books, and the trade where there was one.
pub proof fn law_everyone_hears_of_orders(order: Order, outcome: Outcome, books: Books, i: int)
    ensures
        outcome is Ignored || outcome is NoInventory ==> order_steps(order, outcome, books).len() == 0,
        !(outcome is Ignored || outcome is NoInventory) ==> ends_with_update(
            order_steps(order, outcome, books),
            books,
            match outcome {
                Outcome::Traded(trade) => Some(trade),
                _ => None,
            },
        ),
        0 <= i < order_steps(order, outcome, books).len() - 1 ==> order_steps(
            order,
            outcome,
            books,
        )[i] is Tell || order_steps(order, outcome, books)[i] is DrainOrders,
{
}

/// The bot hears of a new best quote who made it, in which suit, on which side and at which price;
/// of a trade its suit, price, buyer and seller, and that all quotes are withdrawn; and of nothing
/// else. Waiting orders are thrown away after a trade and only then.
pub proof fn law_bot_hears_of_quotes_and_trades(order: Order, outcome: Outcome, books: Books)
    ensures
        ({
            let steps = order_steps(order, outcome, books);
            &&& outcome is NotBest ==> steps.len() == 1
            &&& outcome is NewBid || outcome is NewAsk ==> {
                &&& steps.len() == 2
                &&& steps[0] matches StepView::Tell(msg) && msg matches MsgView::Quote {
                    side,
                    player,
                    suit,
                    price,
                } && side == (if outcome is NewBid {
                    "bid"@
                } else {
                    "offer"@
                }) && player == name_text(order.player_name) && suit == suit_text(order.card)
                    && price == order.price
            }
            &&& outcome matches Outcome::Traded(trade) ==> {
                &&& steps.len() == 4
                &&& steps[0] matches StepView::Tell(msg) && msg matches MsgView::TradeExec {
                    suit,
                    price,
                    buyer,
                    seller,
                } && suit == suit_text(trade.card) && price == trade.price && buyer == name_text(
                    trade.buyer,
                ) && seller == name_text(trade.seller)
                &&& steps[1] matches StepView::Tell(msg) && msg is CancelAll
                &&& steps[2] is DrainOrders
            }
        }),
{
}

/// What everyone hears of an order that is carried out is what it did: a new best quote is shown
/// as the player and the price of the order, in its suit; after a trade no quote is shown, and its
/// price is shown as the last in its suit.
pub proof fn law_updates_show_what_orders_did(market: Market, order: Order)
    requires
        market.admits(order),
    ensures
        ({
            let outcome = market.outcome(order);
            let steps = order_steps(order, outcome, market.after(order).books);
            steps.len() > 0 ==> {
                &&& steps.last() matches StepView::Broadcast(event)
                &&& event matches EventView::Update(update)
                &&& outcome is NewBid ==> shown(update, order.card).bid.player_name
                    == order.player_name && shown(update, order.card).bid.price == order.price
                &&& outcome is NewAsk ==> shown(update, order.card).ask.player_name
                    == order.player_name && shown(update, order.card).ask.price == order.price
                &&& outcome matches Outcome::Traded(trade) ==> update.trade == Some(trade)
                    && is_without_quotes(shown(update, order.card)) && shown(
                    update,
                    order.card,
                ).last_trade == Some(trade.price)
                &&& !(outcome is Traded) ==> update.trade is None
            }
        }),
{
    law_new_quotes_are_the_orders(market, order, order.card);
    law_trades_are_with_the_standing_quote(market, order);
    law_trades_move_price_and_card(market, order, order.player_name, order.card);
    law_updates_show_the_books(market.after(order).books, None, order.card);
    if let Outcome::Traded(trade) = market.outcome(order) {
        law_updates_show_the_books(market.after(order).books, Some(trade), order.card);
    }
}

/// What is logged of an order: of a new best quote and of a rejection the order's own player,
/// suit and price or reason; of a trade its own suit, price, buyer and seller, whoever met whose
/// quote, and that all quotes are withdrawn; of the others nothing. Each record ends its line.
pub proof fn law_records_of_orders(t: Seq<char>, order: Order, outcome: Outcome)
    ensures
        outcome is NewBid || outcome is NewAsk ==> order_records(t, order, outcome) == object(
            seq![
                raw_field("t"@, t),
                text_field(
                    "type"@,
                    if outcome is NewBid {
                        "bid"@
                    } else {
                        "offer"@
                    },
                ),
                text_field("player"@, name_text(order.player_name)),
                text_field("suit"@, suit_text(order.card)),
                raw_field("price"@, decimal(order.price as nat)),
            ],
        ) + "\n"@,
        outcome is NoInventory ==> order_records(t, order, outcome) == object(
            seq![
                raw_field("t"@, t),
                text_field("type"@, "order_rejected"@),
                text_field("player"@, name_text(order.player_name)),
                text_field("suit"@, suit_text(order.card)),
                text_field("reason"@, "no_inventory"@),
            ],
        ) + "\n"@,
        outcome matches Outcome::Traded(trade) ==> order_records(t, order, outcome) == trade_object(
            t,
            trade,
        ) + "\n"@ + object(seq![raw_field("t"@, t), text_field("type"@, "cancel_all"@)]) + "\n"@,
        outcome is Ignored || outcome is NotBest ==> order_records(t, order, outcome).len() == 0,
{
    match outcome {
        Outcome::NewBid => {
            law_quote_is_an_object(t, "bid"@, order.player_name, order.card, order.price);
        },
        Outcome::NewAsk => {
            law_quote_is_an_object(t, "offer"@, order.player_name, order.card, order.price);
        },
        Outcome::NoInventory => {
            law_rejection_is_an_object(t, order.player_name, order.card, "no_inventory"@);
        },
        Outcome::Traded(trade) => {
            law_trade_is_an_object(t, trade.card, trade.price, trade.buyer, trade.seller);
            law_cancel_all_is_an_object(t);
        },
        _ => {},
    }
}

/// A trade at a time, as an object.
pub open spec fn trade_object(t: Seq<char>, trade: Trade) -> Seq<char> {
    object(
        seq![
            raw_field("t"@, t),
            text_field("type"@, "trade"@),
            text_field("suit"@, suit_text(trade.card)),
            raw_field("price"@, decimal(trade.price as nat)),
            text_field("buyer"@, name_text(trade.buyer)),
            text_field("seller"@, name_text(trade.seller)),
        ],
    )
}

/// The log of a trade is what happened: the price in the record is what the buyer's points fell by
/// and the seller's rose by, the suit is that of the card that moved from the seller to the buyer,
/// and the player who ordered is on the side of the order.
pub proof fn law_trades_are_logged_as_they_happened(t: Seq<char>, market: Market, order: Order)
    requires
        market.admits(order),
    ensures
        market.outcome(order) is Traded ==> exists|trade: Trade|
            {
                let after = market.after(order);
                &&& order_records(t, order, market.outcome(order)) == #[trigger] trade_object(
                    t,
                    trade,
                ) + "\n"@ + object(seq![raw_field("t"@, t), text_field("type"@, "cancel_all"@)])
                    + "\n"@
                &&& order.direction is Buy ==> trade.buyer == order.player_name
                &&& order.direction is Sell ==> trade.seller == order.player_name
                &&& trade.card == order.card
                &&& trade.buyer != trade.seller ==> {
                    &&& trade.price == market.points[trade.buyer] - after.points[trade.buyer]
                    &&& trade.price == after.points[trade.seller] - market.points[trade.seller]
                    &&& after.hands[trade.buyer].of(trade.card) == market.hands[trade.buyer].of(
                        trade.card,
                    ) + 1
                    &&& after.hands[trade.seller].of(trade.card) == market.hands[trade.seller].of(
                        trade.card,
                    ) - 1
                }
                &&& after.books.of(trade.card).last_trade == Some(trade.price)
            },
{
    if let Outcome::Traded(trade) = market.outcome(order) {
        law_records_of_orders(t, order, market.outcome(order));
        law_trades_are_with_the_standing_quote(market, order);
        law_trades_move_price_and_card(market, order, trade.buyer, trade.card);
        law_trades_move_price_and_card(market, order, trade.seller, trade.card);
        assert(order_records(t, order, market.outcome(order)) == trade_object(t, trade) + "\n"@
            + object(seq![raw_field("t"@, t), text_field("type"@, "cancel_all"@)]) + "\n"@);
    }
}

/// When a round opens, the bot hears who sits where, in seating order, and its own hand, which is
/// that of the first place; after the pause for getting ready everyone is sent all hands, and two
/// seconds later the books as they stand.
pub proof fn law_what_is_told_when_a_round_opens(table: MatchMaker, i: int)
    requires
        0 <= i < table.player_names@.len(),
    ensures
        ({
            let steps = table.opening();
            let first = table.player_names@[0];
            let hand = if table.player_inventories@.contains_key(first) {
                table.player_inventories@[first]
            } else {
                Inventory { spades: 0, clubs: 0, diamonds: 0, hearts: 0 }
            };
            &&& steps.len() == 6
            &&& steps[0] matches StepView::Tell(msg) && msg matches MsgView::RoundStart {
                players,
                bot_index,
            } && bot_index == 0 && players.len() == table.player_names@.len() && players[i]
                == name_text(table.player_names@[i])
            &&& steps[1] matches StepView::Tell(msg) && msg matches MsgView::Deal { s, c, h, d }
                && s == hand.spades && c == hand.clubs && h == hand.hearts && d == hand.diamonds
            &&& steps[2] == StepView::Sleep(table.deal_warmup_secs)
            &&& steps[3] matches StepView::Broadcast(event) && event matches EventView::DealCards(
                hands,
            ) && hands == table.player_inventories@
            &&& steps[4] == StepView::Sleep(2)
            &&& ends_with_update(steps, table.books, None)
        }),
{
}

/// When a round is closed, the bot hears the goal suit; then the program ends, where as many
/// rounds have been played as were asked for, and pauses otherwise.
pub proof fn law_what_is_done_when_a_round_closes(table: MatchMaker)
    ensures
        ({
            let steps = table.closing();
            &&& steps.len() == 2
            &&& steps[0] matches StepView::Tell(msg) && msg matches MsgView::RoundEnd { goal_suit }
                && goal_suit == suit_text(table.goal_suit)
            &&& steps[1] == (match table.max_rounds {
                Some(max) => if table.round >= max {
                    StepView::Exit
                } else {
                    StepView::Sleep(table.inter_round_sleep_secs)
                },
                None => StepView::Sleep(table.inter_round_sleep_secs),
            })
        }),
{
}

/// Everyone who sits at a new table has the same entry, and nobody else has one.
pub proof fn law_everyone_has_the_same<V>(names: Seq<PlayerName>, value: V, name: PlayerName)
    ensures
        everyone(names, value).contains_key(name) <==> names.contains(name),
        names.contains(name) ==> everyone(names, value)[name] == value,
{
}

/// What a step says is what it holds.
pub proof fn law_steps_say_what_they_hold(step: Step, steps: Seq<Step>, i: int)
    ensures
        step matches Step::Tell(msg) ==> step@ == StepView::Tell(msg@),
        step matches Step::Broadcast(Event::DealCards(hands)) ==> step@ == StepView::Broadcast(
            EventView::DealCards(hands@),
        ),
        step matches Step::Broadcast(Event::Update(update)) ==> step@ == StepView::Broadcast(
            EventView::Update(update),
        ),
        step matches Step::Broadcast(Event::EndRound) ==> step@ == StepView::Broadcast(
            EventView::EndRound,
        ),
        step matches Step::Sleep(secs) ==> step@ == StepView::Sleep(secs),
        step is DrainOrders ==> step@ is DrainOrders,
        step is Exit ==> step@ is Exit,
        steps_view(steps).len() == steps.len(),
        0 <= i < steps.len() ==> steps_view(steps)[i] == steps[i]@,
{
}

} // verus!
