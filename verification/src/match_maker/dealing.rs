//! What is dealt to whom, said of the cards of the shuffled deck.

use rand::rngs::StdRng;

use vstd::prelude::*;

use super::MatchMaker;
use super::deal::DECK_SIZE;
use super::deal::common_drawn;
use super::deal::cut;
use super::deal::deal;
use super::deal::dealing;
use super::deal::dealt;
use super::deal::deck_counts;
use super::deal::deck_of;
use super::deal::hand_of;
use super::deal::is_dealt;
use super::deal::law_deck;
use super::deal::lemma_card_count_multiset;
use super::deal::lemma_cut_bounds;
use super::deal::lemma_hand_size;
use super::deal::short_suit;
use crate::models::Card;
use crate::models::Inventory;
use crate::models::card_count;
use crate::player::PlayerName;
use crate::rng::bool_drawn;
use crate::rng::cards_shuffled;
use crate::rng::number_drawn;

verus! {

/// Cards are counted as often as they occur.
pub proof fn law_cards_are_counted(cards: Seq<Card>, card: Card)
    ensures
        card_count(cards, card) == cards.to_multiset().count(card),
{
    lemma_card_count_multiset(cards, card);
}

/// The common suit is the one of the four suits at the place that is drawn.
pub proof fn law_common_suit_is_drawn(rng: StdRng, suits: Seq<Card>)
    ensures
        common_drawn(rng, suits).0 == suits[number_drawn(rng, 0, 3, usize::BITS as int).0],
        common_drawn(rng, suits).1 == number_drawn(rng, 0, 3, usize::BITS as int).1,
{
}

/// Before it is shuffled the deck lies suit by suit: twelve cards of the common suit, then the two
/// suits of the other colour, then the goal suit, each with the number of cards of the make-up.
pub open spec fn lies_by_suit(deck: Seq<Card>, common: Card, counts: Inventory) -> bool {
    let (first, second) = common.opposites();
    let goal = common.partner();
    let a = counts.of(common) as int;
    let b = a + counts.of(first);
    let c = b + counts.of(second);
    &&& deck.len() == 40
    &&& counts.of(common) == 12
    &&& c + counts.of(goal) == 40
    &&& forall|i: int| 0 <= i < a ==> #[trigger] deck[i] == common
    &&& forall|i: int| a <= i < b ==> #[trigger] deck[i] == first
    &&& forall|i: int| b <= i < c ==> #[trigger] deck[i] == second
    &&& forall|i: int| c <= i < 40 ==> #[trigger] deck[i] == goal
}

/// The deck for a common and a short suit lies suit by suit, eight cards of the short suit and ten
/// of each other, and holds as many cards of each suit as its make-up says.
pub proof fn law_deck_lies_by_suit(common: Card, short: Card, card: Card)
    requires
        short != common,
    ensures
        lies_by_suit(deck_of(common, short), common, deck_counts(common, short)),
        deck_counts(common, short).of(card) == (if card == common {
            12usize
        } else if card == short {
            8
        } else {
            10
        }),
        deck_of(common, short).to_multiset().count(card) == deck_counts(common, short).of(card),
{
    law_deck(common, short, card);
    lemma_card_count_multiset(deck_of(common, short), card);
}

/// The first of the suits of the other colour whose draw is lucky is short; without luck it is the
/// goal suit.
pub proof fn law_short_suit(common: Card, first_lucky: bool, second_lucky: bool)
    ensures
        first_lucky ==> short_suit(common, first_lucky, second_lucky) == common.opposites().0,
        !first_lucky && second_lucky ==> short_suit(common, first_lucky, second_lucky)
            == common.opposites().1,
        !first_lucky && !second_lucky ==> short_suit(common, first_lucky, second_lucky)
            == common.partner(),
{
}

/// A name stands in a row for the last time.
pub open spec fn is_last_place(names: Seq<PlayerName>, place: int) -> bool {
    &&& 0 <= place < names.len()
    &&& forall|j: int| place < j < names.len() ==> #[trigger] names[j] != names[place]
}

/// A player has the hand of the last place among those dealt to.
proof fn lemma_dealt_place(
    hands: Map<PlayerName, Inventory>,
    names: Seq<PlayerName>,
    deck: Seq<Card>,
    hand_size: int,
    n: nat,
    place: int,
)
    requires
        n <= names.len(),
        0 <= place < n,
        forall|j: int| place < j < n ==> #[trigger] names[j] != names[place],
    ensures
        dealt(hands, names, deck, hand_size, n).contains_key(names[place]),
        dealt(hands, names, deck, hand_size, n)[names[place]] == hand_of(
            cut(deck, hand_size, place),
        ),
    decreases n,
{
    if place < n - 1 {
        assert(names[n - 1] != names[place]);
        lemma_dealt_place(hands, names, deck, hand_size, (n - 1) as nat, place);
    }
}

/// Whoever has no place keeps what was held.
proof fn lemma_dealt_others(
    hands: Map<PlayerName, Inventory>,
    names: Seq<PlayerName>,
    deck: Seq<Card>,
    hand_size: int,
    n: nat,
    other: PlayerName,
)
    requires
        n <= names.len(),
        forall|j: int| 0 <= j < n ==> #[trigger] names[j] != other,
    ensures
        dealt(hands, names, deck, hand_size, n).contains_key(other) == hands.contains_key(other),
        dealt(hands, names, deck, hand_size, n)[other] == hands[other],
    decreases n,
{
    if n > 0 {
        assert(names[n - 1] != other);
        lemma_dealt_others(hands, names, deck, hand_size, (n - 1) as nat, other);
    }
}

/// The deck is cut in order: with hands of forty divided by the number of places, the player in a
/// place holds of each suit as many cards as lie in the deck at the places of that hand. A player
/// in several places has the hand of the last; whoever has no place keeps what was held.
pub proof fn law_hands_are_cut_from_the_deck(
    hands: Map<PlayerName, Inventory>,
    names: Seq<PlayerName>,
    deck: Seq<Card>,
    place: int,
    card: Card,
    other: PlayerName,
)
    requires
        0 < names.len() <= 40,
        deck.len() == 40,
        is_last_place(names, place),
        !names.contains(other),
    ensures
        ({
            let size = 40int / names.len() as int;
            let after = deal(hands, names, deck);
            &&& 0 <= place * size <= place * size + size <= 40
            &&& after.contains_key(names[place])
            &&& after[names[place]].of(card) == deck.subrange(
                place * size,
                place * size + size,
            ).to_multiset().count(card)
            &&& after.contains_key(other) == hands.contains_key(other)
            &&& after[other] == hands[other]
        }),
{
    let size = 40int / names.len() as int;
    lemma_cut_bounds(names.len() as int, place);
    lemma_cut_bounds(names.len() as int, place + 1);
    let cards = cut(deck, size, place);
    assert forall|j: int| 0 <= j < names.len() implies #[trigger] names[j] != other by {
        assert(names.contains(names[j]));
    }
    lemma_dealt_place(hands, names, deck, size, names.len(), place);
    lemma_dealt_others(hands, names, deck, size, names.len(), other);
    lemma_hand_size(cards);
    lemma_card_count_multiset(cards, card);
    assert(hand_of(cards).of(card) == card_count(cards, card));
}

/// What a deal does to a table: three draws decide the short suit; the whole deck of forty cards,
/// laid out suit by suit, goes through one shuffle, and the hands are cut from what the shuffle
/// gives and from nothing else, so that no card's place is fixed apart from it. The generator is
/// then the one after the shuffle, and nothing changes but it, the hands and the goal suit.
pub proof fn law_whole_deck_is_shuffled(
    before: MatchMaker,
    after: MatchMaker,
    counts: Inventory,
    place: int,
    card: Card,
)
    requires
        is_dealt(before, after, counts),
        0 < before.player_names@.len() <= 40,
        is_last_place(before.player_names@, place),
    ensures
        ({
            let common = before.common_suit;
            let first = bool_drawn(before.rng);
            let second = bool_drawn(first.1);
            let third = bool_drawn(second.1);
            let size = 40int / before.player_names@.len() as int;
            &&& counts.of(common) == 12
            &&& counts.of(common.opposites().0) == (if first.0 {
                8usize
            } else {
                10
            })
            &&& counts.of(common.opposites().1) == (if !first.0 && second.0 {
                8usize
            } else {
                10
            })
            &&& counts.of(common.partner()) == (if !first.0 && !second.0 {
                8usize
            } else {
                10
            })
            &&& exists|laid: Seq<Card>|
                {
                    &&& lies_by_suit(laid, common, counts)
                    &&& (#[trigger] cards_shuffled(third.1, laid)).1 == after.rng
                    &&& after.player_inventories@.contains_key(before.player_names@[place])
                    &&& after.player_inventories@[before.player_names@[place]].of(card)
                        == cards_shuffled(third.1, laid).0.subrange(
                        place * size,
                        place * size + size,
                    ).to_multiset().count(card)
                }
            &&& after.goal_suit == common.partner()
            &&& after.common_suit == common
            &&& after.player_points@ == before.player_points@
            &&& after.books == before.books
            &&& after.player_names@ == before.player_names@
            &&& after.suits@ == before.suits@
            &&& after.round == before.round
            &&& after.base_seed == before.base_seed
        }),
{
    let common = before.common_suit;
    let first = bool_drawn(before.rng);
    let second = bool_drawn(first.1);
    let third = bool_drawn(second.1);
    let names = before.player_names@;
    let drawn = dealing(before.rng, common);
    let laid = deck_of(common, drawn.short);
    law_short_suit(common, first.0, second.0);
    law_deck_lies_by_suit(common, drawn.short, common);
    law_deck_lies_by_suit(common, drawn.short, common.opposites().0);
    law_deck_lies_by_suit(common, drawn.short, common.opposites().1);
    law_deck_lies_by_suit(common, drawn.short, common.partner());
    drawn.deck.to_multiset_ensures();
    laid.to_multiset_ensures();
    let size = 40int / names.len() as int;
    lemma_cut_bounds(names.len() as int, place);
    lemma_cut_bounds(names.len() as int, place + 1);
    let cards = cut(drawn.deck, size, place);
    lemma_dealt_place(before.player_inventories@, names, drawn.deck, size, names.len(), place);
    lemma_hand_size(cards);
    lemma_card_count_multiset(cards, card);
    assert(hand_of(cards).of(card) == card_count(cards, card));
    assert(cards_shuffled(third.1, laid).0 == drawn.deck);
}

/// The deck has forty cards.
pub proof fn law_deck_size()
    ensures
        DECK_SIZE == 40,
{
}

} // verus!
