//! How the bot's lines are read, and when it is asked for one, said of the texts themselves.

use vstd::prelude::*;

use super::PlayerName;
use super::external::MsgView;
use super::external::SidecarMsg;
use super::external::bot_order;
use super::external::direction_of;
use super::external::number_value;
use super::external::quoted_value;
use super::external::suit_of;
use super::external::suit_text;
use super::external::turn_lines;
use crate::models::Card;
use crate::models::Direction;
use crate::models::Order;
use crate::text::find_from;
use crate::text::is_digit;
use crate::text::occurs_at;
use crate::text::parsed_digits;
use crate::text::skip_char;
use crate::text::skip_digits;

verus! {

/// A text stands in another one at a place.
pub open spec fn stands_at(s: Seq<char>, part: Seq<char>, i: int) -> bool {
    0 <= i && i + part.len() <= s.len() && s.subrange(i, i + part.len()) == part
}

/// A text stands in another one at a place and at none before it.
pub open spec fn stands_first_at(s: Seq<char>, part: Seq<char>, i: int) -> bool {
    stands_at(s, part, i) && forall|j: int| 0 <= j < i ==> !(#[trigger] stands_at(s, part, j))
}

/// A search finds the first place from where it starts, or nothing, where there is none.
proof fn lemma_search(s: Seq<char>, part: Seq<char>, from: int)
    requires
        0 <= from,
    ensures
        match find_from(s, part, from) {
            Some(i) => from <= i && stands_at(s, part, i) && forall|j: int|
                from <= j < i ==> !(#[trigger] stands_at(s, part, j)),
            None => forall|j: int| from <= j ==> !(#[trigger] stands_at(s, part, j)),
        },
    decreases s.len() - from + 1,
{
    if from + part.len() <= s.len() && !occurs_at(s, part, from) {
        lemma_search(s, part, from + 1);
        assert forall|j: int|
            from <= j && (match find_from(s, part, from) {
                Some(i) => j < i,
                None => true,
            }) implies !(#[trigger] stands_at(s, part, j)) by {
            if j == from {
                assert(!occurs_at(s, part, from));
            }
        }
    }
}

/// The text value of a key is what stands between the quote behind the first place of the key with
/// a quoted value and the next quote. It holds no quote. There is no value where the key does not
/// stand so, or no quote follows.
pub proof fn law_text_values(s: Seq<char>, key: Seq<char>)
    ensures
        ({
            let mark = "\""@ + key + "\":\""@;
            match quoted_value(s, key) {
                Some(value) => exists|at: int|
                    {
                        let start = at + mark.len();
                        &&& #[trigger] stands_first_at(s, mark, at)
                        &&& start + value.len() < s.len()
                        &&& s.subrange(start, start + value.len()) == value
                        &&& s[start + value.len()] == '"'
                        &&& forall|j: int| 0 <= j < value.len() ==> #[trigger] value[j] != '"'
                    },
                None => forall|at: int| #[trigger]
                    stands_first_at(s, mark, at) ==> forall|j: int|
                        at + mark.len() <= j < s.len() ==> #[trigger] s[j] != '"',
            }
        }),
{
    reveal_strlit("\"");
    let mark = "\""@ + key + "\":\""@;
    lemma_search(s, mark, 0);
    if let Some(at) = find_from(s, mark, 0) {
        let start = at + mark.len();
        lemma_search(s, "\""@, start);
        match find_from(s, "\""@, start) {
            Some(end) => {
                let value = s.subrange(start, end);
                assert(s.subrange(end, end + 1)[0] == "\""@[0]);
                assert forall|j: int| 0 <= j < value.len() implies #[trigger] value[j] != '"' by {
                    if value[j] == '"' {
                        assert(s.subrange(start + j, start + j + 1) =~= "\""@);
                        assert(stands_at(s, "\""@, start + j));
                    }
                }
                assert(stands_first_at(s, mark, at));
                assert(s.subrange(start, start + value.len()) == value);
            },
            None => {
                assert forall|other: int| #[trigger]
                    stands_first_at(s, mark, other) implies forall|j: int|
                    other + mark.len() <= j < s.len() ==> #[trigger] s[j] != '"' by {
                    if other < at {
                        assert(!stands_at(s, mark, other));
                    }
                    if at < other {
                        assert(stands_at(s, mark, at));
                    }
                    assert forall|j: int| other + mark.len() <= j < s.len() implies #[trigger] s[j]
                        != '"' by {
                        if s[j] == '"' {
                            assert(s.subrange(j, j + 1) =~= "\""@);
                            assert(stands_at(s, "\""@, j));
                        }
                    }
                }
            },
        }
    }
}

/// Skipping passes over every character of a kind and over no other.
proof fn lemma_skip(s: Seq<char>, from: int)
    requires
        0 <= from <= s.len(),
    ensures
        from <= skip_char(s, ' ', from) <= s.len(),
        forall|j: int| from <= j < skip_char(s, ' ', from) ==> #[trigger] s[j] == ' ',
        skip_char(s, ' ', from) < s.len() ==> s[skip_char(s, ' ', from)] != ' ',
    decreases s.len() - from,
{
    if from < s.len() && s[from] == ' ' {
        lemma_skip(s, from + 1);
    }
}

proof fn lemma_skip_digits(s: Seq<char>, from: int)
    requires
        0 <= from <= s.len(),
    ensures
        from <= skip_digits(s, from) <= s.len(),
        forall|j: int| from <= j < skip_digits(s, from) ==> is_digit(#[trigger] s[j]),
        skip_digits(s, from) < s.len() ==> !is_digit(s[skip_digits(s, from)]),
    decreases s.len() - from,
{
    if from < s.len() && is_digit(s[from]) {
        lemma_skip_digits(s, from + 1);
    }
}

/// A key stands first at a place, some spaces follow, and then all the digits that there are.
pub open spec fn has_digits(
    s: Seq<char>,
    mark: Seq<char>,
    at: int,
    spaces: int,
    digits: Seq<char>,
) -> bool {
    let start = at + mark.len();
    let from = start + spaces;
    let to = from + digits.len();
    &&& stands_first_at(s, mark, at)
    &&& 0 <= spaces
    &&& to <= s.len()
    &&& forall|j: int| start <= j < from ==> #[trigger] s[j] == ' '
    &&& from < s.len() ==> s[from] != ' '
    &&& s.subrange(from, to) == digits
    &&& forall|j: int| 0 <= j < digits.len() ==> '0' <= #[trigger] digits[j] <= '9'
    &&& to < s.len() ==> !('0' <= s[to] <= '9')
}

/// The number value of a key is written by the digits that follow its first place, after any
/// number of spaces; digits that write no number of a machine word, or none at all, are no value.
pub proof fn law_number_values(s: Seq<char>, key: Seq<char>)
    ensures
        ({
            let mark = "\""@ + key + "\":"@;
            match number_value(s, key) {
                Some(n) => exists|at: int, spaces: int, digits: Seq<char>| #[trigger]
                    has_digits(s, mark, at, spaces, digits) && parsed_digits(
                        digits,
                        usize::MAX as nat,
                    ) == Some(n),
                None => (forall|at: int| !(#[trigger] stands_at(s, mark, at))) || exists|
                    at: int,
                    spaces: int,
                    digits: Seq<char>,
                | #[trigger]
                    has_digits(s, mark, at, spaces, digits) && parsed_digits(
                        digits,
                        usize::MAX as nat,
                    ) is None,
            }
        }),
{
    let mark = "\""@ + key + "\":"@;
    lemma_search(s, mark, 0);
    match find_from(s, mark, 0) {
        Some(at) => {
            let start = at + mark.len();
            lemma_skip(s, start);
            let from = skip_char(s, ' ', start);
            lemma_skip_digits(s, from);
            let to = skip_digits(s, from);
            let digits = s.subrange(from, to);
            assert(has_digits(s, mark, at, from - start, digits));
        },
        None => {
            assert forall|at: int| !(#[trigger] stands_at(s, mark, at)) by {
                if at >= 0 {
                }
            }
        },
    }
}

/// Which lines place which order: those with an action of one of the two sides, the letter of a
/// suit, and a price, in whatever order they stand. The order is the bot's.
pub proof fn law_which_lines_place_orders(s: Seq<char>, order: Order)
    ensures
        bot_order(s) == Some(order) <==> {
            &&& order.player_name == PlayerName::External
            &&& quoted_value(s, "action"@) == Some(
                match order.direction {
                    Direction::Buy => "bid"@,
                    Direction::Sell => "offer"@,
                },
            )
            &&& quoted_value(s, "suit"@) == Some(suit_text(order.card))
            &&& number_value(s, "price"@) == Some(order.price as nat)
        },
{
    reveal_strlit("bid");
    reveal_strlit("offer");
    reveal_strlit("S");
    reveal_strlit("C");
    reveal_strlit("H");
    reveal_strlit("D");
    assert("bid"@.len() == 3 && "offer"@.len() == 5);
    assert("S"@[0] == 'S' && "C"@[0] == 'C' && "H"@[0] == 'H' && "D"@[0] == 'D');
    law_number_values(s, "price"@);
    if let Some(n) = number_value(s, "price"@) {
        assert(n <= usize::MAX);
    }
}

/// Suits and sides are known by their texts and by no others.
pub proof fn law_words_of_orders(text: Seq<char>, card: Card)
    ensures
        suit_of(text) == Some(card) <==> text == suit_text(card),
        direction_of(text) == Some(Direction::Buy) <==> text == "bid"@,
        direction_of(text) == Some(Direction::Sell) <==> text == "offer"@,
{
    reveal_strlit("bid");
    reveal_strlit("offer");
    reveal_strlit("S");
    reveal_strlit("C");
    reveal_strlit("H");
    reveal_strlit("D");
    assert("bid"@.len() == 3 && "offer"@.len() == 5);
    assert("S"@[0] == 'S' && "C"@[0] == 'C' && "H"@[0] == 'H' && "D"@[0] == 'D');
}

/// The bot has a turn after quotes, trades and withdrawals, and after nothing else: then a call for
/// an order follows the message, which is otherwise alone.
pub proof fn law_when_the_bot_has_a_turn(msg: SidecarMsg)
    ensures
        msg@.prompts() <==> msg is Quote || msg is TradeExec || msg is CancelAll,
        turn_lines(msg@)[0] == msg@.json(),
        msg@.prompts() ==> turn_lines(msg@).len() == 2 && turn_lines(msg@)[1]
            == "{\"type\":\"your_turn\"}"@,
        !msg@.prompts() ==> turn_lines(msg@).len() == 1,
{
}

/// What a message says is what it holds, field by field.
pub proof fn law_messages_say_what_they_hold(msg: SidecarMsg)
    ensures
        msg matches SidecarMsg::RoundStart { players, bot_index } ==> (
        msg@ matches MsgView::RoundStart { players: said, bot_index: place } && said.len()
            == players@.len() && place == bot_index && forall|i: int|
            0 <= i < players@.len() ==> #[trigger] said[i] == players@[i]@),
        msg matches SidecarMsg::Deal { s, c, h, d } ==> msg@ == (MsgView::Deal {
            s: s as nat,
            c: c as nat,
            h: h as nat,
            d: d as nat,
        }),
        msg matches SidecarMsg::Quote { side, player, suit, price } ==> msg@ == (MsgView::Quote {
            side: side@,
            player: player@,
            suit: suit@,
            price: price as nat,
        }),
        msg matches SidecarMsg::TradeExec { suit, price, buyer, seller } ==> msg@ == (
        MsgView::TradeExec {
            suit: suit@,
            price: price as nat,
            buyer: buyer@,
            seller: seller@,
        }),
        msg is CancelAll ==> msg@ is CancelAll,
        msg matches SidecarMsg::RoundEnd { goal_suit } ==> msg@ == (MsgView::RoundEnd {
            goal_suit: goal_suit@,
        }),
{
}

} // verus!
