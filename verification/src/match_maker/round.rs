//! The course of a round: how it opens, how the table reacts to orders, and how it closes.

use vstd::prelude::*;

use super::MatchMaker;
use super::deal::DECK_SIZE;
use super::deal::common_drawn;
use super::deal::is_dealt;
use super::matching::Outcome;
use super::matching::amounts;
use super::matching::same_but_market;
use super::scoring::Antes;
use super::scoring::FULL_POT;
use super::scoring::RoundResult;
use super::scoring::can_score;
use super::scoring::is_asking_order;
use super::scoring::points_after_antes;
use super::scoring::scored;
use super::stakes::law_rounds_open_with_equal_antes;
use crate::logger::EventLogger;
use crate::logger::cancel_all_line;
use crate::logger::deal_line;
use crate::logger::gains_fit;
use crate::logger::hand_at;
use crate::logger::lines::law_games_log_to_different_files;
use crate::logger::log_file_name;
use crate::logger::name_strings;
use crate::logger::names_text;
use crate::logger::quote_line;
use crate::logger::rejected_line;
use crate::logger::round_end_line;
use crate::logger::round_start_line;
use crate::logger::trade_line;
use crate::models::Book;
use crate::models::Books;
use crate::models::Card;
use crate::models::Event;
use crate::models::Inventory;
use crate::models::Order;
use crate::models::Trade;
use crate::models::Update;
use crate::player::PlayerMap;
use crate::player::PlayerName;
use crate::player::external::MsgView;
use crate::player::external::SidecarMsg;
use crate::player::external::card_to_suit;
use crate::player::external::name_text;
use crate::player::external::player_name_to_str;
use crate::player::external::suit_text;
use crate::rng::generator_for;
use crate::rng::seeded;

verus! {

/// Every name with the same entry.
pub open spec fn everyone<V>(names: Seq<PlayerName>, value: V) -> Map<PlayerName, V> {
    Map::new(|p: PlayerName| names.contains(p), |p: PlayerName| value)
}

/// One more name with the same entry.
proof fn lemma_everyone_push<V>(names: Seq<PlayerName>, i: int, value: V)
    requires
        0 <= i < names.len(),
    ensures
        everyone(names.take(i + 1), value) == everyone(names.take(i), value).insert(
            names[i],
            value,
        ),
{
    let (less, more) = (names.take(i), names.take(i + 1));
    assert forall|p: PlayerName| #[trigger] more.contains(p) <==> less.contains(p) || p
        == names[i] by {
        if more.contains(p) && p != names[i] {
            assert(less[more.index_of(p)] == p);
        }
        if less.contains(p) {
            assert(more[less.index_of(p)] == p);
        }
        assert(more[i] == names[i]);
    }
    assert(everyone(more, value) =~= everyone(less, value).insert(names[i], value));
}

/// What is known of a round once the cards are dealt.
pub struct RoundOpening {
    /// What each player was asked to put in.
    pub ante: usize,
    /// What came of asking.
    pub antes: Antes,
    /// The points before that.
    pub initial_points: PlayerMap<usize>,
    /// The make-up of the deck.
    pub counts: Inventory,
}

/// One table is another one once a round has been opened there: the players were asked for their
/// antes in some order, and the generator drew a common suit and dealt the cards.
pub open spec fn is_opened(before: MatchMaker, after: MatchMaker, opening: RoundOpening) -> bool {
    let (common_suit, rng) = common_drawn(before.rng, before.suits@);
    let drawn = MatchMaker {
        common_suit,
        rng,
        player_points: after.player_points,
        ..before
    };
    &&& opening.ante == FULL_POT as int / before.player_names@.len() as int
    &&& opening.initial_points@ == before.player_points@
    &&& exists|order: Seq<PlayerName>|
        {
            &&& #[trigger] is_asking_order(order, before.player_points@)
            &&& amounts(after.player_points@) == points_after_antes(
                amounts(before.player_points@),
                order,
                opening.ante as int,
            )
            &&& opening.antes.is_collected(
                amounts(before.player_points@),
                order,
                opening.ante as int,
            )
        }
    &&& exists|i: int| 0 <= i < 4 && common_suit == #[trigger] before.suits@[i]
    &&& is_dealt(drawn, after, opening.counts)
}

/// One table is another one once a round with a pot has been closed there: the round is counted,
/// and the pot is paid out.
pub open spec fn is_closed(
    before: MatchMaker,
    after: MatchMaker,
    pot: usize,
    result: RoundResult,
) -> bool {
    &&& amounts(after.player_points@) == scored(
        amounts(before.player_points@),
        before.player_names@,
        before.player_inventories@,
        before.goal_suit,
        pot as int,
    )
    &&& result.is_result(
        before.player_names@,
        before.player_inventories@,
        before.goal_suit,
        pot as int,
    )
    &&& after == (MatchMaker {
        round: (before.round + 1) as u32,
        player_points: after.player_points,
        ..before
    })
}

/// The number of a game: the seed and the round, so that rounds of a run, and equal rounds of
/// runs with different seeds, have different numbers. Different rounds of different runs can share
/// one, as seed 5 in round 1 and seed 6 in round 0 do.
pub open spec fn game_number(seed: u64, round: u32) -> int {
    (seed + round) % 0x1_0000_0000_0000_0000
}

/// The books and a trade as the players are told of them.
pub open spec fn update_of(books: Books, trade: Option<Trade>) -> Update {
    Update {
        spades: books.spades,
        clubs: books.clubs,
        diamonds: books.diamonds,
        hearts: books.hearts,
        trade,
    }
}

/// Something that is to be done outside the rules, one after the other.
pub enum Step {
    /// Send a message to the bot, if there is one.
    Tell(SidecarMsg),
    /// Send an event to all players.
    Broadcast(Event),
    /// Let some seconds pass.
    Sleep(u64),
    /// Throw away the orders that are waiting.
    DrainOrders,
    /// End the program.
    Exit,
}

/// What an event says.
pub enum EventView {
    DealCards(Map<PlayerName, Inventory>),
    Update(Update),
    EndRound,
}

/// What a step says.
pub enum StepView {
    Tell(MsgView),
    Broadcast(EventView),
    Sleep(u64),
    DrainOrders,
    Exit,
}

impl View for Event {
    type V = EventView;

    open spec fn view(&self) -> EventView {
        match *self {
            Event::DealCards(hands) => EventView::DealCards(hands@),
            Event::Update(update) => EventView::Update(update),
            Event::EndRound => EventView::EndRound,
        }
    }
}

impl View for Step {
    type V = StepView;

    open spec fn view(&self) -> StepView {
        match *self {
            Step::Tell(msg) => StepView::Tell(msg@),
            Step::Broadcast(event) => StepView::Broadcast(event@),
            Step::Sleep(secs) => StepView::Sleep(secs),
            Step::DrainOrders => StepView::DrainOrders,
            Step::Exit => StepView::Exit,
        }
    }
}

/// What some steps say.
pub open spec fn steps_view(steps: Seq<Step>) -> Seq<StepView> {
    Seq::new(steps.len(), |i: int| steps[i]@)
}

/// What the bot is told of an order: of a new best quote, and of a trade, which withdraws all
/// quotes.
pub open spec fn order_messages(order: Order, outcome: Outcome) -> Seq<MsgView> {
    match outcome {
        Outcome::NewBid => seq![
            MsgView::Quote {
                side: "bid"@,
                player: name_text(order.player_name),
                suit: suit_text(order.card),
                price: order.price as nat,
            },
        ],
        Outcome::NewAsk => seq![
            MsgView::Quote {
                side: "offer"@,
                player: name_text(order.player_name),
                suit: suit_text(order.card),
                price: order.price as nat,
            },
        ],
        Outcome::Traded(trade) => seq![
            MsgView::TradeExec {
                suit: suit_text(trade.card),
                price: trade.price as nat,
                buyer: name_text(trade.buyer),
                seller: name_text(trade.seller),
            },
            MsgView::CancelAll,
        ],
        _ => Seq::empty(),
    }
}

/// What the log takes down of an order at a time.
pub open spec fn order_records(t: Seq<char>, order: Order, outcome: Outcome) -> Seq<char> {
    match outcome {
        Outcome::NoInventory => rejected_line(
            t,
            order.player_name,
            order.card,
            "no_inventory"@,
        ) + "\n"@,
        Outcome::NewBid => quote_line(t, "bid"@, order.player_name, order.card, order.price)
            + "\n"@,
        Outcome::NewAsk => quote_line(t, "offer"@, order.player_name, order.card, order.price)
            + "\n"@,
        Outcome::Traded(trade) => trade_line(
            t,
            trade.card,
            trade.price,
            trade.buyer,
            trade.seller,
        ) + "\n"@ + cancel_all_line(t) + "\n"@,
        _ => Seq::empty(),
    }
}

/// The trade of an outcome.
pub open spec fn trade_in(outcome: Outcome) -> Option<Trade> {
    match outcome {
        Outcome::Traded(trade) => Some(trade),
        _ => None,
    }
}

/// What the players are told of an order: the books, unless the order was passed over or
/// refused.
pub open spec fn order_update(books: Books, outcome: Outcome) -> Option<Update> {
    if outcome is Ignored || outcome is NoInventory {
        None
    } else {
        Some(update_of(books, trade_in(outcome)))
    }
}

/// What is to be done about an order: the bot is told, a trade throws away the orders that were
/// made before it, and all players are told.
pub open spec fn order_steps(order: Order, outcome: Outcome, books: Books) -> Seq<StepView> {
    let told = order_messages(order, outcome).map_values(|msg: MsgView| StepView::Tell(msg));
    let drained = if outcome is Traded {
        told.push(StepView::DrainOrders)
    } else {
        told
    };
    match order_update(books, outcome) {
        Some(update) => drained.push(StepView::Broadcast(EventView::Update(update))),
        None => drained,
    }
}

/// What became of an order and what is to be done about it.
pub struct Reaction {
    pub outcome: Outcome,
    pub steps: Vec<Step>,
}

/// Tells the bot of a quote.
fn quote_message(side: &'static str, order: &Order) -> (msg: SidecarMsg)
    ensures
        msg@ == (MsgView::Quote {
            side: side@,
            player: name_text(order.player_name),
            suit: suit_text(order.card),
            price: order.price as nat,
        }),
{
    SidecarMsg::Quote {
        side,
        player: player_name_to_str(&order.player_name).to_string(),
        suit: card_to_suit(&order.card),
        price: order.price,
    }
}

/// Takes an order down in the log.
pub fn log_order(logger: &mut EventLogger, t: &str, order: &Order, outcome: &Outcome)
    ensures
        final(logger)@ == old(logger)@ + order_records(t@, *order, *outcome),
        final(logger).file() == old(logger).file(),
{
    match outcome {
        Outcome::NoInventory => {
            logger.log_order_rejected(t, &order.player_name, &order.card, "no_inventory");
        },
        Outcome::NewBid => {
            logger.log_quote(t, "bid", &order.player_name, &order.card, order.price);
        },
        Outcome::NewAsk => {
            logger.log_quote(t, "offer", &order.player_name, &order.card, order.price);
        },
        Outcome::Traded(trade) => {
            logger.log_trade(t, &trade.card, trade.price, &trade.buyer, &trade.seller);
            logger.log_cancel_all(t);
        },
        _ => {},
    }
    proof {
        let start = old(logger)@;
        match *outcome {
            Outcome::NoInventory => {
                let line = rejected_line(t@, order.player_name, order.card, "no_inventory"@);
                lemma_concat(start, line, "\n"@);
            },
            Outcome::NewBid => {
                let line = quote_line(t@, "bid"@, order.player_name, order.card, order.price);
                lemma_concat(start, line, "\n"@);
            },
            Outcome::NewAsk => {
                let line = quote_line(t@, "offer"@, order.player_name, order.card, order.price);
                lemma_concat(start, line, "\n"@);
            },
            Outcome::Traded(trade) => {
                let line = trade_line(t@, trade.card, trade.price, trade.buyer, trade.seller);
                lemma_concat(start, line, "\n"@);
                lemma_concat(start, line + "\n"@, cancel_all_line(t@));
                lemma_concat(start, line + "\n"@ + cancel_all_line(t@), "\n"@);
            },
            _ => {
                assert(start + Seq::<char>::empty() =~= start);
            },
        }
    }
}

/// Texts can be put together in either order.
proof fn lemma_concat(a: Seq<char>, b: Seq<char>, c: Seq<char>)
    ensures
        a + b + c == a + (b + c),
{
    assert(a + b + c =~= a + (b + c));
}

impl MatchMaker {
    /// Sets a table up: everyone with the same points and no cards, empty books, and the generator
    /// for the seed.
    pub fn new(
        starting_balance: usize,
        player_names: Vec<PlayerName>,
        seed: u64,
        max_rounds: Option<u32>,
        round_duration_secs: u64,
        inter_round_sleep_secs: u64,
        deal_warmup_secs: u64,
        quiet: bool,
    ) -> (table: MatchMaker)
        ensures
            table.round == 0,
            table.player_names == player_names,
            table.suits@ == seq![Card::Spade, Card::Club, Card::Diamond, Card::Heart],
            table.goal_suit == Card::Spade,
            table.common_suit == Card::Club,
            table.player_points@ == everyone(player_names@, starting_balance),
            table.player_inventories@ == everyone(player_names@, Inventory::nothing()),
            forall|c: Card| #[trigger] table.books.of(c) == Book::unquoted(None),
            table.rng == generator_for(seed),
            table.base_seed == seed,
            table.max_rounds == max_rounds,
            table.round_duration_secs == round_duration_secs,
            table.inter_round_sleep_secs == inter_round_sleep_secs,
            table.deal_warmup_secs == deal_warmup_secs,
            table.quiet == quiet,
    {
        let mut player_points: PlayerMap<usize> = PlayerMap::new();
        let mut player_inventories: PlayerMap<Inventory> = PlayerMap::new();
        assert(player_points@ =~= everyone(player_names@.take(0), starting_balance));
        assert(player_inventories@ =~= everyone(player_names@.take(0), Inventory::nothing()));
        for i in 0..player_names.len()
            invariant
                player_points@ == everyone(player_names@.take(i as int), starting_balance),
                player_inventories@ == everyone(
                    player_names@.take(i as int),
                    Inventory::nothing(),
                ),
        {
            let name: PlayerName = player_names[i];
            player_points.insert(name, starting_balance);
            player_inventories.insert(name, Inventory::new());
            proof {
                lemma_everyone_push(player_names@, i as int, starting_balance);
                lemma_everyone_push(player_names@, i as int, Inventory::nothing());
            }
        }
        assert(player_names@.take(player_names@.len() as int) =~= player_names@);
        let suits: [Card; 4] = [Card::Spade, Card::Club, Card::Diamond, Card::Heart];
        assert(suits@ =~= seq![Card::Spade, Card::Club, Card::Diamond, Card::Heart]);
        MatchMaker {
            round: 0,
            player_names,
            suits,
            goal_suit: Card::Spade,
            common_suit: Card::Club,
            player_points,
            books: Books::new(),
            player_inventories,
            rng: seeded(seed),
            base_seed: seed,
            max_rounds,
            round_duration_secs,
            inter_round_sleep_secs,
            deal_warmup_secs,
            quiet,
        }
    }

    /// The number of the game that the current round is.
    pub fn game_id(&self) -> (id: u64)
        ensures
            id == game_number(self.base_seed, self.round),
            id == (if self.base_seed + self.round <= u64::MAX {
                self.base_seed + self.round
            } else {
                self.base_seed + self.round - 0x1_0000_0000_0000_0000
            }),
    {
        self.base_seed.wrapping_add(self.round as u64)
    }

    /// Opens a round: the players put in their antes, a common suit is drawn, and the cards are
    /// dealt.
    pub fn open_round(&mut self) -> (opening: RoundOpening)
        requires
            0 < old(self).player_names@.len() <= DECK_SIZE,
        ensures
            is_opened(*old(self), *final(self), opening),
            opening.ante == 200int / old(self).player_names@.len() as int,
            old(self).player_points@.contains_key(old(self).player_names@[0]) && (forall|
                p: PlayerName,
            |
                old(self).player_points@.contains_key(p) ==> #[trigger] old(self).player_points@[p]
                    >= opening.ante) ==> {
                &&& opening.antes.pot == old(self).player_points@.dom().len() * opening.ante
                &&& opening.antes.unable is None
                &&& forall|p: PlayerName| #[trigger]
                    old(self).player_points@.contains_key(p) ==> final(self).player_points@[p]
                        == old(self).player_points@[p] - opening.ante
                &&& old(self).player_names@.no_duplicates() && old(self).player_names@.to_set()
                    == old(self).player_points@.dom() ==> 200 - old(self).player_names@.len()
                    < opening.antes.pot <= 200
            },
    {
        let ghost before = *self;
        let ante: usize = FULL_POT / self.player_names.len();
        assert(ante <= FULL_POT) by (nonlinear_arith)
            requires
                ante == FULL_POT as int / before.player_names@.len() as int,
                before.player_names@.len() > 0,
        ;
        let initial_points: PlayerMap<usize> = self.player_points.copy();
        let antes: Antes = self.collect_antes(ante);
        self.pick_new_common_suit();
        let counts: Inventory = self.get_new_inventories();
        let opening = RoundOpening { ante, antes, initial_points, counts };
        proof {
            assert(is_opened(before, *self, opening));
            assert forall|p: PlayerName| #[trigger]
                before.player_points@.contains_key(p) && (forall|q: PlayerName|
                    before.player_points@.contains_key(q) ==> #[trigger] before.player_points@[q]
                        >= opening.ante) implies self.player_points@[p] == before.player_points@[p]
                - opening.ante by {
                law_rounds_open_with_equal_antes(before, *self, opening, p);
            }
            if before.player_points@.contains_key(before.player_names@[0]) {
                law_rounds_open_with_equal_antes(
                    before,
                    *self,
                    opening,
                    before.player_names@[0],
                );
            }
        }
        opening
    }

    /// Takes the opening of a round down in the log.
    pub fn log_opening(&self, logger: &mut EventLogger, opening: &RoundOpening)
        ensures
            final(logger)@ == old(logger)@ + round_start_line(
                "0.000"@,
                self.round,
                opening.ante,
                opening.antes.pot,
                self.player_names@,
            ) + "\n"@ + deal_line(
                "0.000"@,
                self.player_names@,
                self.player_inventories@,
                self.common_suit,
                self.goal_suit,
                opening.counts,
            ) + "\n"@,
            final(logger).file() == old(logger).file(),
    {
        logger.log_round_start(
            "0.000",
            self.round,
            opening.ante,
            opening.antes.pot,
            &self.player_names,
        );
        logger.log_deal(
            "0.000",
            &self.player_names,
            &self.player_inventories,
            &self.common_suit,
            &self.goal_suit,
            &opening.counts,
        );
    }

    /// What is to be done once the cards are dealt: the bot, who has the first place, is told of
    /// the round and of its hand, and after a pause to get ready all players are told of their
    /// cards and, after another to order them, of the books.
    pub open spec fn opening(self) -> Seq<StepView> {
        let hand = hand_at(self.player_inventories@, self.player_names@[0]);
        seq![
            StepView::Tell(
                MsgView::RoundStart { players: names_text(self.player_names@), bot_index: 0 },
            ),
            StepView::Tell(
                MsgView::Deal {
                    s: hand.spades as nat,
                    c: hand.clubs as nat,
                    h: hand.hearts as nat,
                    d: hand.diamonds as nat,
                },
            ),
            StepView::Sleep(self.deal_warmup_secs),
            StepView::Broadcast(EventView::DealCards(self.player_inventories@)),
            StepView::Sleep(2),
            StepView::Broadcast(EventView::Update(update_of(self.books, None))),
        ]
    }

    /// Decides what is to be done once the cards are dealt.
    pub fn opening_steps(&self) -> (steps: Vec<Step>)
        requires
            self.player_names@.len() > 0,
        ensures
            steps_view(steps@) == self.opening(),
            forall|i: int|
                0 <= i < steps@.len() ==> (#[trigger] steps@[i] matches Step::Broadcast(
                    Event::Update(update),
                ) ==> update.spades == self.books.spades && update.clubs == self.books.clubs
                    && update.diamonds == self.books.diamonds && update.hearts == self.books.hearts),
    {
        let hand: Inventory = match self.player_inventories.get(&self.player_names[0]) {
            Some(hand) => *hand,
            None => Inventory::new(),
        };
        let mut steps: Vec<Step> = Vec::new();
        steps.push(
            Step::Tell(
                SidecarMsg::RoundStart { players: name_strings(&self.player_names), bot_index: 0 },
            ),
        );
        steps.push(
            Step::Tell(
                SidecarMsg::Deal {
                    s: hand.spades,
                    c: hand.clubs,
                    h: hand.hearts,
                    d: hand.diamonds,
                },
            ),
        );
        steps.push(Step::Sleep(self.deal_warmup_secs));
        steps.push(Step::Broadcast(Event::DealCards(self.player_inventories.copy())));
        steps.push(Step::Sleep(2));
        steps.push(Step::Broadcast(Event::Update(self.book_update(None))));
        assert(steps_view(steps@) =~= self.opening());
        steps
    }

    /// Tells the players of the books, and of a trade.
    pub fn book_update(&self, trade: Option<Trade>) -> (update: Update)
        ensures
            update == update_of(self.books, trade),
            update.spades == self.books.spades,
            update.clubs == self.books.clubs,
            update.diamonds == self.books.diamonds,
            update.hearts == self.books.hearts,
            update.trade == trade,
    {
        Update {
            spades: self.books.spades,
            clubs: self.books.clubs,
            diamonds: self.books.diamonds,
            hearts: self.books.hearts,
            trade,
        }
    }

    /// Carries an order out and decides who is told what.
    pub fn handle_order(&mut self, order: Order) -> (reaction: Reaction)
        requires
            old(self).market().admits(order),
        ensures
            reaction.outcome == old(self).market().outcome(order),
            final(self).market() == old(self).market().after(order),
            same_but_market(*old(self), *final(self)),
            steps_view(reaction.steps@) == order_steps(
                order,
                reaction.outcome,
                final(self).books,
            ),
            forall|i: int|
                0 <= i < reaction.steps@.len() ==> (#[trigger] reaction.steps@[i] matches Step::Broadcast(
                    Event::Update(update),
                ) ==> update.spades == final(self).books.spades && update.clubs == final(self).books.clubs
                    && update.diamonds == final(self).books.diamonds && update.hearts == final(self).books.hearts),
    {
        let outcome: Outcome = self.process_order(order);
        let steps: Vec<Step> = self.steps_for(&order, &outcome);
        Reaction { outcome, steps }
    }

    /// Decides what is to be done about an order.
    pub fn steps_for(&self, order: &Order, outcome: &Outcome) -> (steps: Vec<Step>)
        ensures
            steps_view(steps@) == order_steps(*order, *outcome, self.books),
            forall|i: int|
                0 <= i < steps@.len() ==> (#[trigger] steps@[i] matches Step::Broadcast(
                    Event::Update(update),
                ) ==> update.spades == self.books.spades && update.clubs == self.books.clubs
                    && update.diamonds == self.books.diamonds && update.hearts == self.books.hearts),
    {
        let mut steps: Vec<Step> = Vec::new();
        let mut trade: Option<Trade> = None;
        match outcome {
            Outcome::Ignored => {
                assert(steps_view(steps@) =~= order_steps(*order, *outcome, self.books));
                return steps;
            },
            Outcome::NoInventory => {
                assert(steps_view(steps@) =~= order_steps(*order, *outcome, self.books));
                return steps;
            },
            Outcome::NotBest => {},
            Outcome::NewBid => {
                steps.push(Step::Tell(quote_message("bid", order)));
            },
            Outcome::NewAsk => {
                steps.push(Step::Tell(quote_message("offer", order)));
            },
            Outcome::Traded(made) => {
                steps.push(
                    Step::Tell(
                        SidecarMsg::TradeExec {
                            suit: card_to_suit(&made.card),
                            price: made.price,
                            buyer: player_name_to_str(&made.buyer).to_string(),
                            seller: player_name_to_str(&made.seller).to_string(),
                        },
                    ),
                );
                steps.push(Step::Tell(SidecarMsg::CancelAll));
                steps.push(Step::DrainOrders);
                trade = Some(*made);
            },
        }
        steps.push(Step::Broadcast(Event::Update(self.book_update(trade))));
        assert(steps_view(steps@) =~= order_steps(*order, *outcome, self.books));
        steps
    }

    /// Closes a round: it is counted, and the pot is paid out.
    pub fn close_round(&mut self, pot: usize) -> (result: RoundResult)
        requires
            old(self).round < u32::MAX,
            can_score(
                amounts(old(self).player_points@),
                old(self).player_names@,
                old(self).player_inventories@,
                old(self).goal_suit,
                pot as int,
            ),
        ensures
            is_closed(*old(self), *final(self), pot, result),
    {
        self.round = self.round + 1;
        self.score_round(pot)
    }

    /// Takes the end of a round down in the log.
    pub fn log_closing(&self, logger: &mut EventLogger, t: &str, initial_points: &PlayerMap<usize>)
        requires
            gains_fit(self.player_names@, initial_points@, self.player_points@),
        ensures
            final(logger)@ == old(logger)@ + round_end_line(
                t@,
                self.player_names@,
                self.goal_suit,
                self.common_suit,
                self.player_inventories@,
                initial_points@,
                self.player_points@,
            ) + "\n"@,
            final(logger).file() == old(logger).file(),
    {
        logger.log_round_end(
            t,
            &self.player_names,
            &self.goal_suit,
            &self.common_suit,
            &self.player_inventories,
            initial_points,
            &self.player_points,
        );
    }

    /// As many rounds have been played as were asked for.
    pub open spec fn over(self) -> bool {
        self.max_rounds matches Some(max) && self.round >= max
    }

    /// What is to be done once a round is closed: the bot is told, and the program ends after
    /// the last round or pauses before the next.
    pub open spec fn closing(self) -> Seq<StepView> {
        seq![
            StepView::Tell(MsgView::RoundEnd { goal_suit: suit_text(self.goal_suit) }),
            if self.over() {
                StepView::Exit
            } else {
                StepView::Sleep(self.inter_round_sleep_secs)
            },
        ]
    }

    /// Whether as many rounds have been played as were asked for.
    pub fn is_over(&self) -> (over: bool)
        ensures
            over == self.over(),
    {
        match self.max_rounds {
            Some(max) => self.round >= max,
            None => false,
        }
    }

    /// Decides what is to be done once a round is closed.
    pub fn closing_steps(&self) -> (steps: Vec<Step>)
        ensures
            steps_view(steps@) == self.closing(),
    {
        let mut steps: Vec<Step> = Vec::new();
        steps.push(Step::Tell(SidecarMsg::RoundEnd { goal_suit: card_to_suit(&self.goal_suit) }));
        if self.is_over() {
            steps.push(Step::Exit);
        } else {
            steps.push(Step::Sleep(self.inter_round_sleep_secs));
        }
        assert(steps_view(steps@) =~= self.closing());
        steps
    }
}

/// What a player's points changed by, as 32-bit numbers.
pub fn point_change(initial: usize, now: usize) -> (change: i32)
    requires
        i32::MIN <= (now as i32) - (initial as i32) <= i32::MAX,
    ensures
        change == (now as i32) - (initial as i32),
{
    now as i32 - initial as i32
}

/// A game's number is its seed and its round added up, as far as 64-bit numbers reach, and begins
/// again at zero beyond them.
pub proof fn law_game_numbers_count_up(seed: u64, round: u32)
    ensures
        seed + round <= u64::MAX ==> game_number(seed, round) == seed + round,
        seed + round > u64::MAX ==> game_number(seed, round) == seed + round
            - 0x1_0000_0000_0000_0000,
{
}

/// Two games share a number exactly where seed and round add up to the same, or to numbers that are
/// as far apart as the 64-bit numbers reach.
pub proof fn law_shared_game_numbers(a: u64, i: u32, b: u64, j: u32)
    ensures
        game_number(a, i) == game_number(b, j) <==> (a + i) % 0x1_0000_0000_0000_0000 == (b + j)
            % 0x1_0000_0000_0000_0000,
        game_number(a, i) == game_number(b, j) <==> (a + i == b + j || a + i == b + j
            + 0x1_0000_0000_0000_0000 || b + j == a + i + 0x1_0000_0000_0000_0000),
{
}

/// Two games log to the same file exactly where they share a number.
pub proof fn law_shared_log_files(a: u64, i: u32, b: u64, j: u32)
    ensures
        log_file_name(game_number(a, i) as u64) == log_file_name(game_number(b, j) as u64)
            <==> game_number(a, i) == game_number(b, j),
{
    if log_file_name(game_number(a, i) as u64) == log_file_name(game_number(b, j) as u64) {
        law_games_log_to_different_files(game_number(a, i) as u64, game_number(b, j) as u64);
    }
}

/// Two rounds of a run have different numbers.
pub proof fn law_rounds_have_different_numbers(seed: u64, a: u32, b: u32)
    requires
        game_number(seed, a) == game_number(seed, b),
    ensures
        a == b,
{
}

/// Equal rounds of runs with different seeds have different numbers.
pub proof fn law_runs_have_different_numbers(a: u64, b: u64, round: u32)
    requires
        game_number(a, round) == game_number(b, round),
    ensures
        a == b,
{
}

} // verus!
