//! The deck and how it is dealt.

use rand::rngs::StdRng;

use vstd::prelude::*;

use super::MatchMaker;
use super::matching::holdings;
use super::scoring::sum_of;
use crate::models::Card;
use crate::models::Inventory;
use crate::models::card_count;
use crate::player::PlayerName;
use crate::player::totals::lemma_total_empty;
use crate::player::totals::lemma_total_insert;
use crate::player::totals::total;
use crate::rng::bool_drawn;
use crate::rng::cards_shuffled;
use crate::rng::draw_between;
use crate::rng::draw_bool;
use crate::rng::number_drawn;
use crate::rng::shuffle_cards;

verus! {

/// The number of cards in the deck.
pub const DECK_SIZE: usize = 40;

/// The suit that is left with eight cards: the first of the two suits of the other colour that
/// is lucky, else the goal suit.
pub open spec fn short_suit(common: Card, first_lucky: bool, second_lucky: bool) -> Card {
    if first_lucky {
        common.opposites().0
    } else if second_lucky {
        common.opposites().1
    } else {
        common.partner()
    }
}

/// How many cards of a suit are in the deck: twelve of the common suit, eight of the short suit,
/// ten of each other suit.
pub open spec fn suit_size(common: Card, short: Card, card: Card) -> nat {
    if card == common {
        12
    } else if card == short {
        8
    } else {
        10
    }
}

/// The make-up of the deck.
pub open spec fn deck_counts(common: Card, short: Card) -> Inventory {
    Inventory {
        spades: suit_size(common, short, Card::Spade) as usize,
        clubs: suit_size(common, short, Card::Club) as usize,
        diamonds: suit_size(common, short, Card::Diamond) as usize,
        hearts: suit_size(common, short, Card::Heart) as usize,
    }
}

/// Some cards of one suit.
pub open spec fn copies(card: Card, n: nat) -> Seq<Card> {
    Seq::new(n, |i: int| card)
}

/// The deck before it is shuffled: the common suit, the two suits of the other colour, the goal
/// suit.
pub open spec fn deck_of(common: Card, short: Card) -> Seq<Card> {
    let (first, second) = common.opposites();
    let goal = common.partner();
    copies(common, suit_size(common, short, common)) + copies(first, suit_size(common, short, first))
        + copies(second, suit_size(common, short, second)) + copies(
        goal,
        suit_size(common, short, goal),
    )
}

/// The hand that some cards make.
pub open spec fn hand_of(cards: Seq<Card>) -> Inventory {
    Inventory {
        spades: card_count(cards, Card::Spade) as usize,
        clubs: card_count(cards, Card::Club) as usize,
        diamonds: card_count(cards, Card::Diamond) as usize,
        hearts: card_count(cards, Card::Heart) as usize,
    }
}

/// The cards that fall to the player in one place when the deck is cut into equal hands.
pub open spec fn cut(deck: Seq<Card>, hand_size: int, place: int) -> Seq<Card> {
    deck.subrange(place * hand_size, (place + 1) * hand_size)
}

/// The hands after the first `n` players in turn were dealt theirs. A player who sits in several
/// places keeps the last hand.
pub open spec fn dealt(
    hands: Map<PlayerName, Inventory>,
    names: Seq<PlayerName>,
    deck: Seq<Card>,
    hand_size: int,
    n: nat,
) -> Map<PlayerName, Inventory>
    decreases n,
{
    if n == 0 {
        hands
    } else {
        dealt(hands, names, deck, hand_size, (n - 1) as nat).insert(
            names[n - 1],
            hand_of(cut(deck, hand_size, n - 1)),
        )
    }
}

/// The hands after the deck was cut between all players.
pub open spec fn deal(
    hands: Map<PlayerName, Inventory>,
    names: Seq<PlayerName>,
    deck: Seq<Card>,
) -> Map<PlayerName, Inventory> {
    dealt(hands, names, deck, DECK_SIZE as int / names.len() as int, names.len())
}

/// Makes the deck for a common suit and a short suit, with its make-up.
pub fn build_deck(common: Card, short: Card) -> (deck: (Vec<Card>, Inventory))
    requires
        short != common,
    ensures
        deck.0@ == deck_of(common, short),
        deck.1 == deck_counts(common, short),
{
    let (goal, first, second) = common.get_other_cards();
    let mut cards: Vec<Card> = Vec::new();
    let mut counts: Inventory = Inventory::new();
    push_copies(&mut cards, common, 12);
    counts.set(common, 12);
    let n: usize = if first == short {
        8
    } else {
        10
    };
    push_copies(&mut cards, first, n);
    counts.set(first, n);
    let n: usize = if second == short {
        8
    } else {
        10
    };
    push_copies(&mut cards, second, n);
    counts.set(second, n);
    let n: usize = if goal == short {
        8
    } else {
        10
    };
    push_copies(&mut cards, goal, n);
    counts.set(goal, n);
    assert(cards@ =~= deck_of(common, short));
    (cards, counts)
}

/// Puts some cards of one suit on top of others.
fn push_copies(cards: &mut Vec<Card>, card: Card, n: usize)
    ensures
        final(cards)@ == old(cards)@ + copies(card, n as nat),
{
    let ghost before = cards@;
    for i in 0..n
        invariant
            cards@ == before + copies(card, i as nat),
    {
        cards.push(card);
        assert(cards@ =~= before + copies(card, (i + 1) as nat));
    }
    assert(cards@ =~= before + copies(card, n as nat));
}

/// The suit that is left with eight cards.
pub fn pick_short_suit(common: Card, first_lucky: bool, second_lucky: bool) -> (short: Card)
    ensures
        short == short_suit(common, first_lucky, second_lucky),
{
    let (goal, first, second) = common.get_other_cards();
    if first_lucky {
        first
    } else if second_lucky {
        second
    } else {
        goal
    }
}

/// A deal that can come out of the draws: some suit other than the common one is short, the
/// deck holds the cards that go with it, in any order, and is cut between all players.
pub open spec fn is_deal(
    common: Card,
    names: Seq<PlayerName>,
    before: Map<PlayerName, Inventory>,
    after: Map<PlayerName, Inventory>,
    counts: Inventory,
    short: Card,
    deck: Seq<Card>,
) -> bool {
    &&& short != common
    &&& counts == deck_counts(common, short)
    &&& deck.to_multiset() == deck_of(common, short).to_multiset()
    &&& after == deal(before, names, deck)
}

/// The suit that becomes common, and the generator after that draw.
pub open spec fn common_drawn(rng: StdRng, suits: Seq<Card>) -> (Card, StdRng) {
    let (index, after) = number_drawn(rng, 0, 3, usize::BITS as int);
    (suits[index], after)
}

/// What the draws of a deal come to.
pub struct Dealing {
    /// The suit that is left with eight cards.
    pub short: Card,
    /// The shuffled deck.
    pub deck: Seq<Card>,
    /// The generator after the deal.
    pub rng: StdRng,
}

/// What a generator deals for a common suit: a draw each for the two suits of the other colour and
/// the goal suit, of which the last is without effect, and the shuffle.
pub open spec fn dealing(rng: StdRng, common: Card) -> Dealing {
    let (first_lucky, rng) = bool_drawn(rng);
    let (second_lucky, rng) = bool_drawn(rng);
    let (_, rng) = bool_drawn(rng);
    let short = short_suit(common, first_lucky, second_lucky);
    let (deck, rng) = cards_shuffled(rng, deck_of(common, short));
    Dealing { short, deck, rng }
}

/// One table is another one once the other's generator has dealt the cards for its common suit.
pub open spec fn is_dealt(before: MatchMaker, after: MatchMaker, counts: Inventory) -> bool {
    let drawn = dealing(before.rng, before.common_suit);
    &&& is_deal(
        before.common_suit,
        before.player_names@,
        before.player_inventories@,
        after.player_inventories@,
        counts,
        drawn.short,
        drawn.deck,
    )
    &&& after == (MatchMaker {
        goal_suit: before.common_suit.partner(),
        player_inventories: after.player_inventories,
        rng: drawn.rng,
        ..before
    })
}

impl MatchMaker {
    /// Makes one of the suits the common suit.
    pub fn set_common_suit(&mut self, index: usize)
        requires
            index < 4,
        ensures
            *final(self) == (MatchMaker { common_suit: old(self).suits@[index as int], ..*old(self) }),
    {
        self.common_suit = self.suits[index];
    }

    /// Draws a new common suit, any of the four.
    pub fn pick_new_common_suit(&mut self)
        ensures
            exists|i: int| 0 <= i < 4 && final(self).common_suit == #[trigger] old(self).suits@[i],
            *final(self) == ({
                let (common_suit, rng) = common_drawn(old(self).rng, old(self).suits@);
                MatchMaker { common_suit, rng, ..*old(self) }
            }),
            ({
                let drawn = number_drawn(old(self).rng, 0, 3, usize::BITS as int);
                &&& 0 <= drawn.0 <= 3
                &&& final(self).common_suit == old(self).suits@[drawn.0]
                &&& final(self).rng == drawn.1
            }),
    {
        let index: usize = draw_between(&mut self.rng, 0, 3);
        self.set_common_suit(index);
    }

    /// Cuts a deck between the players.
    pub fn deal_hands(&mut self, deck: &Vec<Card>)
        requires
            deck@.len() == DECK_SIZE,
            0 < old(self).player_names@.len() <= DECK_SIZE,
        ensures
            final(self).player_inventories@ == deal(
                old(self).player_inventories@,
                old(self).player_names@,
                deck@,
            ),
            *final(self) == (MatchMaker {
                player_inventories: final(self).player_inventories,
                ..*old(self)
            }),
    {
        let ghost before = *self;
        let n: usize = self.player_names.len();
        let hand_size: usize = DECK_SIZE / n;
        assert(n * hand_size <= DECK_SIZE) by (nonlinear_arith)
            requires
                hand_size == DECK_SIZE as int / n as int,
                n > 0,
        ;
        for i in 0..n
            invariant
                n == before.player_names@.len(),
                *self == (MatchMaker { player_inventories: self.player_inventories, ..before }),
                hand_size == DECK_SIZE as int / n as int,
                deck@.len() == DECK_SIZE,
                n * hand_size <= DECK_SIZE,
                self.player_inventories@ == dealt(
                    before.player_inventories@,
                    before.player_names@,
                    deck@,
                    hand_size as int,
                    i as nat,
                ),
        {
            assert((i + 1) * hand_size <= n * hand_size && i * hand_size + hand_size == (i + 1)
                * hand_size && 0 <= i * hand_size) by (nonlinear_arith)
                requires
                    i < n,
                    0 <= hand_size,
            ;
            let hand: Inventory = count_hand(deck, i * hand_size, i * hand_size + hand_size);
            let name: PlayerName = self.player_names[i];
            self.player_inventories.insert(name, hand);
        }
    }

    /// Draws which suit is short, shuffles the deck and deals it. Returns the make-up of the
    /// deck.
    pub fn get_new_inventories(&mut self) -> (counts: Inventory)
        requires
            0 < old(self).player_names@.len() <= DECK_SIZE,
        ensures
            is_dealt(*old(self), *final(self), counts),
    {
        let ghost before = *self;
        let (goal, _first, _second) = self.common_suit.get_other_cards();
        self.goal_suit = goal;
        let first_lucky: bool = draw_bool(&mut self.rng);
        let second_lucky: bool = draw_bool(&mut self.rng);
        // The goal suit draws too, though it is short exactly when the others are not.
        let _third_lucky: bool = draw_bool(&mut self.rng);
        let short: Card = pick_short_suit(self.common_suit, first_lucky, second_lucky);
        let (mut deck, counts) = build_deck(self.common_suit, short);
        shuffle_cards(&mut self.rng, &mut deck);
        proof {
            deck@.to_multiset_ensures();
            deck_of(before.common_suit, short).to_multiset_ensures();
            lemma_deck_size(before.common_suit, short);
        }
        self.deal_hands(&deck);
        counts
    }
}

/// Counts the cards between two places of the deck into a hand.
fn count_hand(deck: &Vec<Card>, from: usize, to: usize) -> (hand: Inventory)
    requires
        from <= to <= deck@.len(),
        deck@.len() == DECK_SIZE,
    ensures
        hand == hand_of(deck@.subrange(from as int, to as int)),
{
    let mut cards: Vec<Card> = Vec::new();
    for i in from..to
        invariant
            from <= to <= deck@.len(),
            cards@ == deck@.subrange(from as int, i as int),
    {
        cards.push(deck[i]);
        assert(cards@ =~= deck@.subrange(from as int, i + 1));
    }
    assert(cards@ =~= deck@.subrange(from as int, to as int));
    let mut hand: Inventory = Inventory::new();
    let ghost taken = cards@;
    proof {
        assert forall|c: Card| #[trigger]
            Inventory::nothing().of(c) + card_count(taken, c) <= usize::MAX by {
            lemma_card_count_bound(taken, c);
        }
    }
    hand.count(cards);
    proof {
        assert(hand.of(Card::Spade) == card_count(taken, Card::Spade));
        assert(hand.of(Card::Club) == card_count(taken, Card::Club));
        assert(hand.of(Card::Diamond) == card_count(taken, Card::Diamond));
        assert(hand.of(Card::Heart) == card_count(taken, Card::Heart));
    }
    hand
}

/// A suit occurs at most as often as there are cards.
pub proof fn lemma_card_count_bound(cards: Seq<Card>, card: Card)
    ensures
        card_count(cards, card) <= cards.len(),
    decreases cards.len(),
{
    if cards.len() > 0 {
        lemma_card_count_bound(cards.drop_last(), card);
    }
}

/// The deck holds forty cards.
proof fn lemma_deck_size(common: Card, short: Card)
    requires
        short != common,
    ensures
        deck_of(common, short).len() == DECK_SIZE,
{
}

/// Counting goes through the parts of a pile.
proof fn lemma_card_count_concat(a: Seq<Card>, b: Seq<Card>, card: Card)
    ensures
        card_count(a + b, card) == card_count(a, card) + card_count(b, card),
    decreases b.len(),
{
    if b.len() == 0 {
        assert(a + b =~= a);
    } else {
        lemma_card_count_concat(a, b.drop_last(), card);
        assert((a + b).drop_last() =~= a + b.drop_last());
    }
}

proof fn lemma_card_count_copies(suit: Card, n: nat, card: Card)
    ensures
        card_count(copies(suit, n), card) == (if suit == card {
            n
        } else {
            0
        }),
    decreases n,
{
    if n > 0 {
        lemma_card_count_copies(suit, (n - 1) as nat, card);
        assert(copies(suit, n).drop_last() =~= copies(suit, (n - 1) as nat));
    }
}

/// A suit is counted as often as it occurs in the multiset of the cards.
pub proof fn lemma_card_count_multiset(cards: Seq<Card>, card: Card)
    ensures
        card_count(cards, card) == cards.to_multiset().count(card),
    decreases cards.len(),
{
    cards.to_multiset_ensures();
    if cards.len() > 0 {
        lemma_card_count_multiset(cards.drop_last(), card);
        cards.drop_last().to_multiset_ensures();
        assert(cards.drop_last().push(cards.last()) =~= cards);
    }
}

/// The deck has forty cards: twelve of the common suit, eight of one other suit and ten of each
/// of the last two. Its make-up says so.
pub proof fn law_deck(common: Card, short: Card, card: Card)
    requires
        short != common,
    ensures
        deck_of(common, short).len() == DECK_SIZE,
        card_count(deck_of(common, short), card) == suit_size(common, short, card),
        deck_counts(common, short).of(card) == suit_size(common, short, card),
        deck_counts(common, short).size() == DECK_SIZE,
        deck_counts(common, short).of(common.partner()) == 8 || deck_counts(common, short).of(
            common.partner(),
        ) == 10,
{
    let (first, second) = common.opposites();
    let goal = common.partner();
    let a = copies(common, suit_size(common, short, common));
    let b = copies(first, suit_size(common, short, first));
    let c = copies(second, suit_size(common, short, second));
    let d = copies(goal, suit_size(common, short, goal));
    lemma_card_count_concat(a, b, card);
    lemma_card_count_concat(a + b, c, card);
    lemma_card_count_concat(a + b + c, d, card);
    lemma_card_count_copies(common, suit_size(common, short, common), card);
    lemma_card_count_copies(first, suit_size(common, short, first), card);
    lemma_card_count_copies(second, suit_size(common, short, second), card);
    lemma_card_count_copies(goal, suit_size(common, short, goal), card);
}

/// Whatever order the shuffle brings, the deck holds the same number of cards of each suit.
pub proof fn law_shuffled_deck(common: Card, short: Card, deck: Seq<Card>, card: Card)
    requires
        short != common,
        deck.to_multiset() == deck_of(common, short).to_multiset(),
    ensures
        deck.len() == DECK_SIZE,
        card_count(deck, card) == suit_size(common, short, card),
{
    law_deck(common, short, card);
    lemma_card_count_multiset(deck, card);
    lemma_card_count_multiset(deck_of(common, short), card);
    deck.to_multiset_ensures();
    deck_of(common, short).to_multiset_ensures();
}

/// A hand has as many cards as it was made of.
pub proof fn lemma_hand_size(cards: Seq<Card>)
    requires
        cards.len() <= DECK_SIZE,
    ensures
        hand_of(cards).size() == cards.len(),
        forall|c: Card| #[trigger] hand_of(cards).of(c) == card_count(cards, c),
    decreases cards.len(),
{
    lemma_card_count_bound(cards, Card::Spade);
    lemma_card_count_bound(cards, Card::Club);
    lemma_card_count_bound(cards, Card::Diamond);
    lemma_card_count_bound(cards, Card::Heart);
    if cards.len() > 0 {
        lemma_hand_size(cards.drop_last());
    }
}

/// Where the hands of the first `n` players lie in the deck.
pub proof fn lemma_cut_bounds(players: int, n: int)
    requires
        0 < players <= DECK_SIZE,
        0 <= n <= players,
    ensures
        0 <= n * (DECK_SIZE as int / players) <= DECK_SIZE,
        n > 0 ==> (n - 1) * (DECK_SIZE as int / players) + (DECK_SIZE as int / players) == n * (
        DECK_SIZE as int / players),
        1 <= DECK_SIZE as int / players,
{
    let h = DECK_SIZE as int / players;
    assert(players * h <= DECK_SIZE && h >= 1) by (nonlinear_arith)
        requires
            h == DECK_SIZE as int / players,
            0 < players <= DECK_SIZE,
    ;
    assert(0 <= n * h <= players * h && (n - 1) * h + h == n * h) by (nonlinear_arith)
        requires
            0 <= n <= players,
            h >= 0,
    ;
}

proof fn lemma_dealt_sizes(
    hands: Map<PlayerName, Inventory>,
    names: Seq<PlayerName>,
    deck: Seq<Card>,
    n: nat,
    place: int,
)
    requires
        0 < names.len() <= DECK_SIZE,
        deck.len() == DECK_SIZE,
        0 <= place < n <= names.len(),
    ensures
        ({
            let h = DECK_SIZE as int / names.len() as int;
            let after = dealt(hands, names, deck, h, n);
            &&& after.contains_key(names[place])
            &&& after[names[place]].size() == h
        }),
    decreases n,
{
    let h = DECK_SIZE as int / names.len() as int;
    lemma_cut_bounds(names.len() as int, n as int);
    lemma_cut_bounds(names.len() as int, n - 1);
    lemma_hand_size(cut(deck, h, n - 1));
    if names[place] != names[n - 1] {
        lemma_dealt_sizes(hands, names, deck, (n - 1) as nat, place);
    }
}

/// Every player is dealt a hand of the same size, forty cards shared out evenly.
pub proof fn law_hands_are_even(
    hands: Map<PlayerName, Inventory>,
    names: Seq<PlayerName>,
    deck: Seq<Card>,
    place: int,
)
    requires
        0 < names.len() <= DECK_SIZE,
        deck.len() == DECK_SIZE,
        0 <= place < names.len(),
    ensures
        deal(hands, names, deck).contains_key(names[place]),
        deal(hands, names, deck)[names[place]].size() == DECK_SIZE as int / names.len() as int,
{
    lemma_dealt_sizes(hands, names, deck, names.len(), place);
}

/// What the first `n` players together hold of a suit is what the cards dealt to them hold of it.
proof fn lemma_dealt_total(
    names: Seq<PlayerName>,
    deck: Seq<Card>,
    n: nat,
    card: Card,
)
    requires
        0 < names.len() <= DECK_SIZE,
        deck.len() == DECK_SIZE,
        n <= names.len(),
        names.no_duplicates(),
    ensures
        ({
            let h = DECK_SIZE as int / names.len() as int;
            let after = dealt(Map::empty(), names, deck, h, n);
            &&& total(holdings(after, card)) == card_count(deck.take(n * h), card)
            &&& forall|p: PlayerName| #[trigger]
                after.contains_key(p) ==> names.take(n as int).contains(p)
        }),
    decreases n,
{
    let h = DECK_SIZE as int / names.len() as int;
    let after = dealt(Map::empty(), names, deck, h, n);
    lemma_cut_bounds(names.len() as int, n as int);
    if n == 0 {
        assert(holdings(after, card) =~= Map::empty());
        lemma_total_empty();
        assert(n * h == 0) by (nonlinear_arith)
            requires
                n == 0,
        ;
        assert(deck.take(0) =~= Seq::empty());
    } else {
        let before = dealt(Map::empty(), names, deck, h, (n - 1) as nat);
        lemma_dealt_total(names, deck, (n - 1) as nat, card);
        lemma_cut_bounds(names.len() as int, n - 1);
        let p = names[n - 1];
        let cards = cut(deck, h, n - 1);
        lemma_hand_size(cards);
        assert(holdings(after, card) =~= holdings(before, card).insert(
            p,
            hand_of(cards).of(card) as int,
        ));
        lemma_total_insert(holdings(before, card), p, hand_of(cards).of(card) as int);
        if before.contains_key(p) {
            let i = names.take(n - 1).index_of(p);
            assert(names[i] == names[n - 1]);
        }
        assert(deck.take(n * h) =~= deck.take((n - 1) * h) + cards);
        lemma_card_count_concat(deck.take((n - 1) * h), cards, card);
        assert forall|q: PlayerName| #[trigger] after.contains_key(q) implies names.take(
            n as int,
        ).contains(q) by {
            if q == p {
                assert(names.take(n as int)[n - 1] == p);
            } else {
                let i = names.take(n - 1).index_of(q);
                assert(names.take(n as int)[i] == q);
            }
        }
    }
}

/// Hands from earlier rounds play no part for players who are dealt a new one.
pub proof fn lemma_dealt_forgets(
    hands: Map<PlayerName, Inventory>,
    names: Seq<PlayerName>,
    deck: Seq<Card>,
    hand_size: int,
    n: nat,
)
    requires
        n <= names.len(),
    ensures
        ({
            let fresh = dealt(Map::empty(), names, deck, hand_size, n);
            let after = dealt(hands, names, deck, hand_size, n);
            forall|p: PlayerName|
                names.take(n as int).contains(p) ==> (#[trigger] fresh.contains_key(p)
                    && after.contains_key(p) && after[p] == fresh[p])
        }),
        ({
            let after = dealt(hands, names, deck, hand_size, n);
            forall|p: PlayerName| #[trigger]
                after.contains_key(p) ==> hands.contains_key(p) || names.take(n as int).contains(p)
        }),
    decreases n,
{
    if n > 0 {
        lemma_dealt_forgets(hands, names, deck, hand_size, (n - 1) as nat);
        let fresh = dealt(Map::empty(), names, deck, hand_size, n);
        let after = dealt(hands, names, deck, hand_size, n);
        let fresh_before = dealt(Map::empty(), names, deck, hand_size, (n - 1) as nat);
        let before = dealt(hands, names, deck, hand_size, (n - 1) as nat);
        assert forall|p: PlayerName| names.take(n as int).contains(p) implies (
        #[trigger] fresh.contains_key(p) && after.contains_key(p) && after[p] == fresh[p]) by {
            if p != names[n - 1] {
                let i = names.take(n as int).index_of(p);
                assert(names.take(n - 1)[i] == p);
                assert(fresh_before.contains_key(p));
            }
        }
        assert forall|p: PlayerName| #[trigger] after.contains_key(p) implies hands.contains_key(p)
            || names.take(n as int).contains(p) by {
            if p == names[n - 1] {
                assert(names.take(n as int)[n - 1] == p);
            } else if !hands.contains_key(p) {
                assert(before.contains_key(p));
                let i = names.take(n - 1).index_of(p);
                assert(names.take(n as int)[i] == p);
            }
        }
    }
}

/// Where no player sits twice and nobody else holds cards, all hands together hold what was dealt.
pub proof fn lemma_dealt_holdings(
    hands: Map<PlayerName, Inventory>,
    names: Seq<PlayerName>,
    deck: Seq<Card>,
    card: Card,
)
    requires
        0 < names.len() <= DECK_SIZE,
        deck.len() == DECK_SIZE,
        names.no_duplicates(),
        forall|p: PlayerName| #[trigger] hands.contains_key(p) ==> names.contains(p),
    ensures
        total(holdings(deal(hands, names, deck), card)) == card_count(
            deck.take(names.len() * (DECK_SIZE as int / names.len() as int)),
            card,
        ),
{
    let h = DECK_SIZE as int / names.len() as int;
    lemma_dealt_total(names, deck, names.len(), card);
    lemma_dealt_forgets(hands, names, deck, h, names.len());
    assert(names.take(names.len() as int) =~= names);
    let fresh = dealt(Map::empty(), names, deck, h, names.len());
    let after = deal(hands, names, deck);
    assert forall|p: PlayerName| #[trigger] after.contains_key(p) implies fresh.contains_key(p)
        && after[p] == fresh[p] by {
        assert(names.contains(p));
    }
    assert forall|p: PlayerName| #[trigger] fresh.contains_key(p) implies after.contains_key(p) by {
        assert(names.contains(p));
    }
    assert(after =~= fresh);
}

/// How many cards of a suit a player holds.
pub open spec fn held(hands: Map<PlayerName, Inventory>, card: Card) -> spec_fn(PlayerName) -> int {
    |name: PlayerName| hands[name].of(card) as int
}

/// What the players in the first `n` places hold of a suit, once each has the hand of that place.
proof fn lemma_cuts_total(
    after: Map<PlayerName, Inventory>,
    names: Seq<PlayerName>,
    deck: Seq<Card>,
    n: nat,
    card: Card,
)
    requires
        0 < names.len() <= DECK_SIZE,
        deck.len() == DECK_SIZE,
        n <= names.len(),
        forall|i: int|
            0 <= i < names.len() ==> after[#[trigger] names[i]] == hand_of(
                cut(deck, DECK_SIZE as int / names.len() as int, i),
            ),
    ensures
        sum_of(names.take(n as int), held(after, card)) == card_count(
            deck.take(n * (DECK_SIZE as int / names.len() as int)),
            card,
        ),
    decreases n,
{
    let h = DECK_SIZE as int / names.len() as int;
    lemma_cut_bounds(names.len() as int, n as int);
    if n == 0 {
        assert(n * h == 0) by (nonlinear_arith)
            requires
                n == 0,
        ;
        assert(deck.take(0) =~= Seq::empty());
    } else {
        lemma_cuts_total(after, names, deck, (n - 1) as nat, card);
        lemma_cut_bounds(names.len() as int, n - 1);
        let cards = cut(deck, h, n - 1);
        lemma_hand_size(cards);
        assert(hand_of(cards).of(card) == card_count(cards, card));
        assert(after[names[n - 1]] == hand_of(cards));
        assert(names.take(n as int).drop_last() =~= names.take(n - 1));
        assert(deck.take(n * h) =~= deck.take((n - 1) * h) + cards);
        lemma_card_count_concat(deck.take((n - 1) * h), cards, card);
    }
}

/// Where no player sits twice, each has the hand of the own place.
pub proof fn lemma_dealt_hand(
    hands: Map<PlayerName, Inventory>,
    names: Seq<PlayerName>,
    deck: Seq<Card>,
    hand_size: int,
    n: nat,
    place: int,
)
    requires
        names.no_duplicates(),
        0 <= place < n <= names.len(),
    ensures
        dealt(hands, names, deck, hand_size, n)[names[place]] == hand_of(
            cut(deck, hand_size, place),
        ),
    decreases n,
{
    if place < n - 1 {
        assert(names[place] != names[n - 1]);
        lemma_dealt_hand(hands, names, deck, hand_size, (n - 1) as nat, place);
    }
}

/// Where no player sits twice, the players together hold what was dealt, whatever anybody held
/// before: all of the deck but the cards that cannot be shared out evenly.
pub proof fn law_cards_are_dealt_out(
    hands: Map<PlayerName, Inventory>,
    names: Seq<PlayerName>,
    deck: Seq<Card>,
    card: Card,
)
    requires
        0 < names.len() <= DECK_SIZE,
        deck.len() == DECK_SIZE,
        names.no_duplicates(),
    ensures
        sum_of(names, held(deal(hands, names, deck), card)) == card_count(
            deck.take(names.len() * (DECK_SIZE as int / names.len() as int)),
            card,
        ),
        DECK_SIZE as int % names.len() as int == 0 ==> sum_of(
            names,
            held(deal(hands, names, deck), card),
        ) == card_count(deck, card),
{
    let n = names.len() as int;
    let h = DECK_SIZE as int / n;
    let after = deal(hands, names, deck);
    assert forall|i: int| 0 <= i < names.len() implies after[#[trigger] names[i]] == hand_of(
        cut(deck, h, i),
    ) by {
        lemma_dealt_hand(hands, names, deck, h, names.len(), i);
    }
    lemma_cuts_total(after, names, deck, names.len(), card);
    assert(names.take(n) =~= names);
    if DECK_SIZE as int % n == 0 {
        assert(n * h == DECK_SIZE) by (nonlinear_arith)
            requires
                h == DECK_SIZE as int / n,
                DECK_SIZE as int % n == 0,
                n > 0,
        ;
        assert(deck.take(n * h) =~= deck);
    }
}

/// Tables with the same generator, common suit and players deal equally, whatever else differs
/// between them, earlier hands included, and have the same generator afterwards.
pub proof fn law_equal_generators_deal_equally(
    a: MatchMaker,
    b: MatchMaker,
    dealt_a: MatchMaker,
    dealt_b: MatchMaker,
    counts_a: Inventory,
    counts_b: Inventory,
    name: PlayerName,
)
    requires
        a.rng == b.rng,
        a.common_suit == b.common_suit,
        a.player_names@ == b.player_names@,
        is_dealt(a, dealt_a, counts_a),
        is_dealt(b, dealt_b, counts_b),
        a.player_names@.contains(name),
    ensures
        counts_a == counts_b,
        dealt_a.goal_suit == dealt_b.goal_suit,
        dealt_a.rng == dealt_b.rng,
        dealt_a.player_inventories@.contains_key(name),
        dealt_b.player_inventories@.contains_key(name),
        dealt_a.player_inventories@[name] == dealt_b.player_inventories@[name],
{
    let names = a.player_names@;
    let deck = dealing(a.rng, a.common_suit).deck;
    let h = DECK_SIZE as int / names.len() as int;
    lemma_dealt_forgets(a.player_inventories@, names, deck, h, names.len());
    lemma_dealt_forgets(b.player_inventories@, names, deck, h, names.len());
    assert(names.take(names.len() as int) =~= names);
    let fresh = dealt(Map::empty(), names, deck, h, names.len());
    assert(fresh.contains_key(name));
}

} // verus!
