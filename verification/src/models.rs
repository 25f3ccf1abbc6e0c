//! Cards, hands, order books, and what passes between the table and its players.

use vstd::prelude::*;

use crate::player::PlayerMap;
use crate::player::PlayerName;

verus! {

/// The four suits. A card is known by its suit alone.
#[derive(Debug, Clone, Copy, PartialEq, Eq, Structural, Hash)]
pub enum Card {
    Spade,
    Club,
    Diamond,
    Heart,
}

impl Card {
    /// Whether the suit is printed in black.
    pub open spec fn is_black(self) -> bool {
        self is Spade || self is Club
    }

    /// The other suit of the same colour.
    pub open spec fn partner(self) -> Card {
        match self {
            Card::Spade => Card::Club,
            Card::Club => Card::Spade,
            Card::Diamond => Card::Heart,
            Card::Heart => Card::Diamond,
        }
    }

    /// The two suits of the other colour.
    pub open spec fn opposites(self) -> (Card, Card) {
        match self {
            Card::Spade | Card::Club => (Card::Diamond, Card::Heart),
            Card::Diamond | Card::Heart => (Card::Spade, Card::Club),
        }
    }

    /// The goal suit that goes with this common suit, then the two suits of the other colour.
    pub fn get_other_cards(&self) -> (others: (Card, Card, Card))
        ensures
            others == (self.partner(), self.opposites().0, self.opposites().1),
    {
        match self {
            Card::Spade => (Card::Club, Card::Diamond, Card::Heart),
            Card::Club => (Card::Spade, Card::Diamond, Card::Heart),
            Card::Diamond => (Card::Heart, Card::Spade, Card::Club),
            Card::Heart => (Card::Diamond, Card::Spade, Card::Club),
        }
    }
}

/// The goal suit has the colour of the common suit and is another one; with the two suits of
/// the other colour these are all four suits.
pub proof fn law_goal_suit(common: Card, card: Card)
    ensures
        common.partner() != common,
        common.partner().is_black() == common.is_black(),
        common.partner().partner() == common,
        card == common || card == common.partner() || card == common.opposites().0 || card
            == common.opposites().1,
        common.opposites().0 != common.opposites().1,
        common.opposites().0.is_black() != common.is_black(),
        common.opposites().1.is_black() != common.is_black(),
{
}

/// How often a suit occurs among cards.
pub open spec fn card_count(cards: Seq<Card>, card: Card) -> nat
    decreases cards.len(),
{
    if cards.len() == 0 {
        0
    } else {
        card_count(cards.drop_last(), card) + if cards.last() == card {
            1nat
        } else {
            0nat
        }
    }
}

/// A number of cards of each suit: a player's hand, or the make-up of a deck.
#[derive(Debug, Clone, Copy, PartialEq, Eq, Structural)]
pub struct Inventory {
    pub spades: usize,
    pub clubs: usize,
    pub diamonds: usize,
    pub hearts: usize,
}

impl Inventory {
    /// The number of cards of one suit.
    pub open spec fn of(self, card: Card) -> usize {
        match card {
            Card::Spade => self.spades,
            Card::Club => self.clubs,
            Card::Diamond => self.diamonds,
            Card::Heart => self.hearts,
        }
    }

    /// The same hand with another number of cards of one suit.
    pub open spec fn with(self, card: Card, n: usize) -> Inventory {
        match card {
            Card::Spade => Inventory { spades: n, ..self },
            Card::Club => Inventory { clubs: n, ..self },
            Card::Diamond => Inventory { diamonds: n, ..self },
            Card::Heart => Inventory { hearts: n, ..self },
        }
    }

    /// The empty hand.
    pub open spec fn nothing() -> Inventory {
        Inventory { spades: 0, clubs: 0, diamonds: 0, hearts: 0 }
    }

    /// The number of cards of all suits together.
    pub open spec fn size(self) -> int {
        self.spades + self.clubs + self.diamonds + self.hearts
    }

    /// An empty hand.
    pub fn new() -> (hand: Inventory)
        ensures
            hand == Inventory::nothing(),
    {
        Inventory { spades: 0, clubs: 0, diamonds: 0, hearts: 0 }
    }

    /// The number of cards of one suit.
    pub fn get(&self, card: &Card) -> (n: usize)
        ensures
            n == self.of(*card),
    {
        match card {
            Card::Spade => self.spades,
            Card::Club => self.clubs,
            Card::Diamond => self.diamonds,
            Card::Heart => self.hearts,
        }
    }

    /// Sets the number of cards of one suit.
    pub fn set(&mut self, card: Card, n: usize)
        ensures
            *final(self) == old(self).with(card, n),
    {
        match card {
            Card::Spade => {
                self.spades = n;
            },
            Card::Club => {
                self.clubs = n;
            },
            Card::Diamond => {
                self.diamonds = n;
            },
            Card::Heart => {
                self.hearts = n;
            },
        }
    }

    /// Takes one card of a suit in, or gives one away.
    pub fn change(&mut self, card: Card, increase: bool)
        requires
            increase ==> old(self).of(card) < usize::MAX,
            !increase ==> old(self).of(card) > 0,
        ensures
            *final(self) == old(self).with(
                card,
                (if increase {
                    old(self).of(card) + 1
                } else {
                    old(self).of(card) - 1
                }) as usize,
            ),
    {
        let n: usize = self.get(&card);
        if increase {
            self.set(card, n + 1);
        } else {
            self.set(card, n - 1);
        }
    }

    /// Takes cards in.
    pub fn count(&mut self, cards: Vec<Card>)
        requires
            forall|c: Card| #[trigger] old(self).of(c) + card_count(cards@, c) <= usize::MAX,
        ensures
            forall|c: Card|
                #[trigger] final(self).of(c) == old(self).of(c) + card_count(cards@, c),
    {
        let ghost start = *self;
        assert(cards@.take(0) =~= Seq::empty());
        for i in 0..cards.len()
            invariant
                forall|c: Card| #[trigger] start.of(c) + card_count(cards@, c) <= usize::MAX,
                forall|c: Card|
                    #[trigger] self.of(c) == start.of(c) + card_count(cards@.take(i as int), c),
        {
            let ghost before = *self;
            let card: Card = cards[i];
            proof {
                lemma_card_count_take(cards@, i + 1, card);
                assert(cards@.take(i + 1).drop_last() =~= cards@.take(i as int));
                assert(start.of(card) + card_count(cards@, card) <= usize::MAX);
            }
            self.change(card, true);
            assert forall|c: Card| #[trigger]
                self.of(c) == start.of(c) + card_count(cards@.take(i + 1), c) by {
                assert(before.of(c) == start.of(c) + card_count(cards@.take(i as int), c));
            }
        }
        assert(cards@.take(cards@.len() as int) =~= cards@);
    }
}

/// A first part of some cards holds no more of a suit than all of them.
pub proof fn lemma_card_count_take(cards: Seq<Card>, n: int, card: Card)
    requires
        0 <= n <= cards.len(),
    ensures
        card_count(cards.take(n), card) <= card_count(cards, card),
    decreases cards.len(),
{
    if n == cards.len() {
        assert(cards.take(n) =~= cards);
    } else {
        lemma_card_count_take(cards.drop_last(), n, card);
        assert(cards.drop_last().take(n) =~= cards.take(n));
    }
}

/// The side of the market that an order takes.
#[derive(Debug, Clone, Copy, PartialEq, Eq, Structural)]
pub enum Direction {
    Buy,
    Sell,
}

/// The price of an ask that nobody made: no order is expected to reach it.
pub const NO_ASK: usize = usize::MAX;

/// A standing price and the player who stands behind it.
#[derive(Debug, Clone, Copy, PartialEq, Eq, Structural)]
pub struct Quote {
    pub player_name: PlayerName,
    pub price: usize,
}

/// The best bid and the best ask for one suit, and the price of its last trade.
#[derive(Debug, Clone, Copy)]
pub struct Book {
    pub bid: Quote,
    pub ask: Quote,
    pub last_trade: Option<usize>,
}

impl Book {
    /// The book with no quote on either side.
    pub open spec fn unquoted(last_trade: Option<usize>) -> Book {
        Book {
            bid: Quote { player_name: PlayerName::Nobody, price: 0 },
            ask: Quote { player_name: PlayerName::Nobody, price: NO_ASK },
            last_trade,
        }
    }

    /// The best bid stands below the best ask.
    pub open spec fn is_uncrossed(self) -> bool {
        self.bid.price < self.ask.price
    }

    /// A book with neither quotes nor trades.
    pub fn new() -> (book: Book)
        ensures
            book == Book::unquoted(None),
    {
        Book {
            bid: Quote { player_name: PlayerName::Nobody, price: 0 },
            ask: Quote { player_name: PlayerName::Nobody, price: NO_ASK },
            last_trade: None,
        }
    }

    /// Withdraws both quotes. The last trade stays on record.
    pub fn reset_quotes(&mut self)
        ensures
            *final(self) == Book::unquoted(old(self).last_trade),
    {
        self.bid = Quote { player_name: PlayerName::Nobody, price: 0 };
        self.ask = Quote { player_name: PlayerName::Nobody, price: NO_ASK };
    }
}

/// The four order books.
#[derive(Debug, Clone, Copy)]
pub struct Books {
    pub spades: Book,
    pub clubs: Book,
    pub diamonds: Book,
    pub hearts: Book,
}

impl Books {
    /// The book of one suit.
    pub open spec fn of(self, card: Card) -> Book {
        match card {
            Card::Spade => self.spades,
            Card::Club => self.clubs,
            Card::Diamond => self.diamonds,
            Card::Heart => self.hearts,
        }
    }

    /// The same books with another book for one suit.
    pub open spec fn with(self, card: Card, book: Book) -> Books {
        match card {
            Card::Spade => Books { spades: book, ..self },
            Card::Club => Books { clubs: book, ..self },
            Card::Diamond => Books { diamonds: book, ..self },
            Card::Heart => Books { hearts: book, ..self },
        }
    }

    /// The books once every quote has been withdrawn.
    pub open spec fn without_quotes(self) -> Books {
        Books {
            spades: Book::unquoted(self.spades.last_trade),
            clubs: Book::unquoted(self.clubs.last_trade),
            diamonds: Book::unquoted(self.diamonds.last_trade),
            hearts: Book::unquoted(self.hearts.last_trade),
        }
    }

    /// Four books with neither quotes nor trades.
    pub fn new() -> (books: Books)
        ensures
            forall|c: Card| #[trigger] books.of(c) == Book::unquoted(None),
    {
        Books { spades: Book::new(), clubs: Book::new(), diamonds: Book::new(), hearts: Book::new() }
    }

    /// The book of one suit.
    pub fn get(&self, card: &Card) -> (book: Book)
        ensures
            book == self.of(*card),
    {
        match card {
            Card::Spade => self.spades,
            Card::Club => self.clubs,
            Card::Diamond => self.diamonds,
            Card::Heart => self.hearts,
        }
    }

    /// Puts a book in the place of one suit's book.
    pub fn set(&mut self, card: Card, book: Book)
        ensures
            *final(self) == old(self).with(card, book),
    {
        match card {
            Card::Spade => {
                self.spades = book;
            },
            Card::Club => {
                self.clubs = book;
            },
            Card::Diamond => {
                self.diamonds = book;
            },
            Card::Heart => {
                self.hearts = book;
            },
        }
    }

    /// Withdraws the quotes in all four books.
    pub fn reset_quotes(&mut self)
        ensures
            *final(self) == old(self).without_quotes(),
    {
        self.spades.reset_quotes();
        self.clubs.reset_quotes();
        self.diamonds.reset_quotes();
        self.hearts.reset_quotes();
    }
}

/// A player's offer to buy or sell one card.
#[derive(Debug, Clone, Copy)]
pub struct Order {
    pub player_name: PlayerName,
    pub price: usize,
    pub direction: Direction,
    pub card: Card,
}

/// One card that changed hands.
#[derive(Debug, Clone, Copy)]
pub struct Trade {
    pub card: Card,
    pub price: usize,
    pub buyer: PlayerName,
    pub seller: PlayerName,
}

/// The state of the books after an order, and the trade that it made.
#[derive(Debug, Clone, Copy)]
pub struct Update {
    pub spades: Book,
    pub clubs: Book,
    pub diamonds: Book,
    pub hearts: Book,
    pub trade: Option<Trade>,
}

/// What the table tells the players.
pub enum Event {
    DealCards(PlayerMap<Inventory>),
    Update(Update),
    EndRound,
}

} // verus!
