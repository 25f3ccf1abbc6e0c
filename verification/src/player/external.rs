//! The external bot: the messages sent to it and the orders read from it.

use vstd::prelude::*;

use super::PlayerName;
use crate::models::Card;
use crate::models::Direction;
use crate::models::Order;
use crate::text::after_char;
use crate::text::after_digits;
use crate::text::chars_of;
use crate::text::comma_joined;
use crate::text::decimal;
use crate::text::find;
use crate::text::find_from;
use crate::text::is_digit;
use crate::text::join_with_commas;
use crate::text::law_decimal_reads_back;
use crate::text::lemma_digits_end;
use crate::text::lemma_found;
use crate::text::lemma_no_match;
use crate::text::occurs_at;
use crate::text::parse_digits;
use crate::text::parsed_digits;
use crate::text::push_decimal;
use crate::text::same_text;
use crate::text::skip_char;
use crate::text::skip_digits;
use crate::text::texts;
use crate::words::trim;
use crate::words::trimmed;

verus! {

/// What the table tells the external bot.
pub enum SidecarMsg {
    RoundStart { players: Vec<String>, bot_index: usize },
    Deal { s: usize, c: usize, h: usize, d: usize },
    Quote { side: &'static str, player: String, suit: &'static str, price: usize },
    TradeExec { suit: &'static str, price: usize, buyer: String, seller: String },
    CancelAll,
    RoundEnd { goal_suit: &'static str },
}

/// The letter of a suit.
pub open spec fn suit_text(card: Card) -> Seq<char> {
    match card {
        Card::Spade => "S"@,
        Card::Club => "C"@,
        Card::Heart => "H"@,
        Card::Diamond => "D"@,
    }
}

/// The name of a player.
pub open spec fn name_text(name: PlayerName) -> Seq<char> {
    match name {
        PlayerName::Spread => "Spread"@,
        PlayerName::Seller => "Seller"@,
        PlayerName::Taker => "Taker"@,
        PlayerName::Noisy => "Noisy"@,
        PlayerName::WildestDreams => "WildestDreams"@,
        PlayerName::PickOff => "PickOff"@,
        PlayerName::TiltInventory => "TiltInventory"@,
        PlayerName::TheHoarder => "TheHoarder"@,
        PlayerName::PrayingMantis => "PrayingMantis"@,
        PlayerName::External => "External"@,
        PlayerName::Nobody => "None"@,
    }
}

/// The entry of a player in a list of players: the place and the name.
pub open spec fn seat_entry(place: nat, name: Seq<char>) -> Seq<char> {
    "{\"idx\":"@ + decimal(place) + ",\"name\":\""@ + name + "\"}"@
}

/// The entries of all players in a list.
pub open spec fn seat_list(names: Seq<Seq<char>>) -> Seq<char> {
    comma_joined(Seq::new(names.len(), |i: int| seat_entry(i as nat, names[i])))
}

/// What a message says.
pub enum MsgView {
    RoundStart { players: Seq<Seq<char>>, bot_index: nat },
    Deal { s: nat, c: nat, h: nat, d: nat },
    Quote { side: Seq<char>, player: Seq<char>, suit: Seq<char>, price: nat },
    TradeExec { suit: Seq<char>, price: nat, buyer: Seq<char>, seller: Seq<char> },
    CancelAll,
    RoundEnd { goal_suit: Seq<char> },
}

impl View for SidecarMsg {
    type V = MsgView;

    open spec fn view(&self) -> MsgView {
        match *self {
            SidecarMsg::RoundStart { players, bot_index } => MsgView::RoundStart {
                players: texts(players@),
                bot_index: bot_index as nat,
            },
            SidecarMsg::Deal { s, c, h, d } => MsgView::Deal {
                s: s as nat,
                c: c as nat,
                h: h as nat,
                d: d as nat,
            },
            SidecarMsg::Quote { side, player, suit, price } => MsgView::Quote {
                side: side@,
                player: player@,
                suit: suit@,
                price: price as nat,
            },
            SidecarMsg::TradeExec { suit, price, buyer, seller } => MsgView::TradeExec {
                suit: suit@,
                price: price as nat,
                buyer: buyer@,
                seller: seller@,
            },
            SidecarMsg::CancelAll => MsgView::CancelAll,
            SidecarMsg::RoundEnd { goal_suit } => MsgView::RoundEnd { goal_suit: goal_suit@ },
        }
    }
}

impl MsgView {
    /// The message as a JSON object on one line. Names and letters stand in it as they are.
    pub open spec fn json(self) -> Seq<char> {
        match self {
            MsgView::RoundStart { players, bot_index } => {
                "{\"type\":\"round_start\",\"players\":["@ + seat_list(players)
                    + "],\"bot_index\":"@ + decimal(bot_index) + "}"@
            },
            MsgView::Deal { s, c, h, d } => {
                "{\"type\":\"deal\",\"hands\":[{\"player\":\"External\",\"S\":"@ + decimal(
                    s,
                ) + ",\"C\":"@ + decimal(c) + ",\"H\":"@ + decimal(h) + ",\"D\":"@
                    + decimal(d) + "}]}"@
            },
            MsgView::Quote { side, player, suit, price } => {
                "{\"type\":\""@ + side + "\",\"player\":\""@ + player + "\",\"suit\":\""@ + suit
                    + "\",\"price\":"@ + decimal(price) + "}"@
            },
            MsgView::TradeExec { suit, price, buyer, seller } => {
                "{\"type\":\"trade\",\"suit\":\""@ + suit + "\",\"price\":"@ + decimal(
                    price,
                ) + ",\"buyer\":\""@ + buyer + "\",\"seller\":\""@ + seller + "\"}"@
            },
            MsgView::CancelAll => "{\"type\":\"cancel_all\"}"@,
            MsgView::RoundEnd { goal_suit } => {
                "{\"type\":\"round_end\",\"goal_suit\":\""@ + goal_suit + "\"}"@
            },
        }
    }

    /// Whether the bot is asked for an order after the message: after everything that happens
    /// during trading.
    pub open spec fn prompts(self) -> bool {
        self is Quote || self is TradeExec || self is CancelAll
    }
}

impl SidecarMsg {
    /// Writes the message as a JSON object on one line.
    pub fn to_json(&self) -> (json: String)
        ensures
            json@ == self@.json(),
    {
        match self {
            SidecarMsg::RoundStart { players, bot_index } => {
                let mut out: String = "{\"type\":\"round_start\",\"players\":[".to_string();
                out.append(seats_json(players).as_str());
                out.append("],\"bot_index\":");
                push_decimal(&mut out, *bot_index as u64);
                out.append("}");
                out
            },
            SidecarMsg::Deal { s, c, h, d } => {
                let mut out: String =
                    "{\"type\":\"deal\",\"hands\":[{\"player\":\"External\",\"S\":".to_string();
                push_decimal(&mut out, *s as u64);
                out.append(",\"C\":");
                push_decimal(&mut out, *c as u64);
                out.append(",\"H\":");
                push_decimal(&mut out, *h as u64);
                out.append(",\"D\":");
                push_decimal(&mut out, *d as u64);
                out.append("}]}");
                out
            },
            SidecarMsg::Quote { side, player, suit, price } => {
                let mut out: String = "{\"type\":\"".to_string();
                out.append(side);
                out.append("\",\"player\":\"");
                out.append(player.as_str());
                out.append("\",\"suit\":\"");
                out.append(suit);
                out.append("\",\"price\":");
                push_decimal(&mut out, *price as u64);
                out.append("}");
                out
            },
            SidecarMsg::TradeExec { suit, price, buyer, seller } => {
                let mut out: String = "{\"type\":\"trade\",\"suit\":\"".to_string();
                out.append(suit);
                out.append("\",\"price\":");
                push_decimal(&mut out, *price as u64);
                out.append(",\"buyer\":\"");
                out.append(buyer.as_str());
                out.append("\",\"seller\":\"");
                out.append(seller.as_str());
                out.append("\"}");
                out
            },
            SidecarMsg::CancelAll => "{\"type\":\"cancel_all\"}".to_string(),
            SidecarMsg::RoundEnd { goal_suit } => {
                let mut out: String = "{\"type\":\"round_end\",\"goal_suit\":\"".to_string();
                out.append(goal_suit);
                out.append("\"}");
                out
            },
        }
    }

    /// Whether the bot is asked for an order after the message.
    pub fn needs_your_turn(&self) -> (yes: bool)
        ensures
            yes == self@.prompts(),
    {
        matches!(
            self,
            SidecarMsg::Quote { .. } | SidecarMsg::TradeExec { .. } | SidecarMsg::CancelAll
        )
    }
}

/// Writes the list of players with their places.
pub fn seats_json(names: &Vec<String>) -> (json: String)
    ensures
        json@ == seat_list(texts(names@)),
{
    let mut entries: Vec<String> = Vec::new();
    for i in 0..names.len()
        invariant
            entries@.len() == i,
            forall|j: int|
                0 <= j < i ==> (#[trigger] entries@[j])@ == seat_entry(j as nat, names@[j]@),
    {
        let mut entry: String = "{\"idx\":".to_string();
        push_decimal(&mut entry, i as u64);
        entry.append(",\"name\":\"");
        entry.append(names[i].as_str());
        entry.append("\"}");
        entries.push(entry);
    }
    assert(texts(entries@) =~= Seq::new(
        texts(names@).len(),
        |i: int| seat_entry(i as nat, texts(names@)[i]),
    ));
    join_with_commas(&entries)
}

/// The letter of a suit.
pub fn card_to_suit(c: &Card) -> (text: &'static str)
    ensures
        text@ == suit_text(*c),
{
    match c {
        Card::Spade => "S",
        Card::Club => "C",
        Card::Heart => "H",
        Card::Diamond => "D",
    }
}

/// The name of a player.
pub fn player_name_to_str(p: &PlayerName) -> (text: &'static str)
    ensures
        text@ == name_text(*p),
{
    match p {
        PlayerName::Spread => "Spread",
        PlayerName::Seller => "Seller",
        PlayerName::Taker => "Taker",
        PlayerName::Noisy => "Noisy",
        PlayerName::WildestDreams => "WildestDreams",
        PlayerName::PickOff => "PickOff",
        PlayerName::TiltInventory => "TiltInventory",
        PlayerName::TheHoarder => "TheHoarder",
        PlayerName::PrayingMantis => "PrayingMantis",
        PlayerName::External => "External",
        PlayerName::Nobody => "None",
    }
}

/// What is written to the bot for a message, and whether it then has a turn to answer.
pub struct Turn {
    pub lines: Vec<String>,
    pub awaits_reply: bool,
}

/// The lines for a message: the message, and the call for an order where the bot has a turn.
pub open spec fn turn_lines(msg: MsgView) -> Seq<Seq<char>> {
    if msg.prompts() {
        seq![msg.json(), "{\"type\":\"your_turn\"}"@]
    } else {
        seq![msg.json()]
    }
}

/// Decides what is written to the bot for a message.
pub fn take_turn(msg: &SidecarMsg) -> (turn: Turn)
    ensures
        texts(turn.lines@) == turn_lines(msg@),
        turn.awaits_reply == msg@.prompts(),
{
    let mut lines: Vec<String> = Vec::new();
    lines.push(msg.to_json());
    let awaits_reply: bool = msg.needs_your_turn();
    if awaits_reply {
        lines.push("{\"type\":\"your_turn\"}".to_string());
    }
    assert(texts(lines@) =~= turn_lines(msg@));
    Turn { lines, awaits_reply }
}

/// The text between the quotes that follow a key in a line of JSON, up to the next quote. The
/// key counts where it first stands with a quoted value right behind its colon.
pub open spec fn quoted_value(s: Seq<char>, key: Seq<char>) -> Option<Seq<char>> {
    let needle = "\""@ + key + "\":\""@;
    match find_from(s, needle, 0) {
        None => None,
        Some(at) => match find_from(s, "\""@, at + needle.len()) {
            None => None,
            Some(end) => Some(s.subrange(at + needle.len(), end)),
        },
    }
}

/// The number that follows a key in a line of JSON, after any number of spaces, where it fits a
/// machine word. The key counts where it first stands.
pub open spec fn number_value(s: Seq<char>, key: Seq<char>) -> Option<nat> {
    let needle = "\""@ + key + "\":"@;
    match find_from(s, needle, 0) {
        None => None,
        Some(at) => {
            let from = skip_char(s, ' ', at + needle.len());
            parsed_digits(s.subrange(from, skip_digits(s, from)), usize::MAX as nat)
        },
    }
}

/// The suit with a letter.
pub open spec fn suit_of(text: Seq<char>) -> Option<Card> {
    if text == "S"@ {
        Some(Card::Spade)
    } else if text == "C"@ {
        Some(Card::Club)
    } else if text == "H"@ {
        Some(Card::Heart)
    } else if text == "D"@ {
        Some(Card::Diamond)
    } else {
        None
    }
}

/// The side of the market that an action takes.
pub open spec fn direction_of(action: Seq<char>) -> Option<Direction> {
    if action == "bid"@ {
        Some(Direction::Buy)
    } else if action == "offer"@ {
        Some(Direction::Sell)
    } else {
        None
    }
}

/// The order that a line from the bot places: one with an action, a suit and a price, each of
/// them known.
pub open spec fn bot_order(s: Seq<char>) -> Option<Order> {
    match (quoted_value(s, "action"@), quoted_value(s, "suit"@), number_value(s, "price"@)) {
        (Some(action), Some(suit), Some(price)) => match (direction_of(action), suit_of(suit)) {
            (Some(direction), Some(card)) => Some(
                Order {
                    player_name: PlayerName::External,
                    price: price as usize,
                    direction,
                    card,
                },
            ),
            _ => None,
        },
        _ => None,
    }
}

/// Reads the quoted value of a key.
pub fn json_str(s: &str, key: &str) -> (value: Option<String>)
    ensures
        match value {
            Some(text) => quoted_value(s@, key@) == Some(text@),
            None => quoted_value(s@, key@) is None,
        },
{
    let mut needle: String = "\"".to_string();
    needle.append(key);
    needle.append("\":\"");
    let chars: Vec<char> = chars_of(s);
    let pattern: Vec<char> = chars_of(needle.as_str());
    let at: usize = match find(&chars, &pattern, 0) {
        Some(at) => at,
        None => {
            return None;
        },
    };
    let start: usize = at + pattern.len();
    match find(&chars, &chars_of("\""), start) {
        Some(end) => Some(s.substring_char(start, end).to_string()),
        None => None,
    }
}

/// Reads the number behind a key.
pub fn json_num(s: &str, key: &str) -> (value: Option<usize>)
    ensures
        match value {
            Some(n) => number_value(s@, key@) == Some(n as nat),
            None => number_value(s@, key@) is None,
        },
{
    let mut needle: String = "\"".to_string();
    needle.append(key);
    needle.append("\":");
    let chars: Vec<char> = chars_of(s);
    let pattern: Vec<char> = chars_of(needle.as_str());
    let at: usize = match find(&chars, &pattern, 0) {
        Some(at) => at,
        None => {
            return None;
        },
    };
    let from: usize = after_char(&chars, ' ', at + pattern.len());
    let to: usize = after_digits(&chars, from);
    match parse_digits(&chars, from, to, usize::MAX as u64) {
        Some(n) => Some(n as usize),
        None => None,
    }
}

/// Reads an order from a line of the bot.
pub fn parse_bot_order(s: &str) -> (order: Option<Order>)
    ensures
        order == bot_order(s@),
{
    if s.is_empty() {
        assert(find_from(s@, "\""@ + "action"@ + "\":\""@, 0) is None) by {
            reveal_strlit("\"");
        }
        return None;
    }
    let action: String = match json_str(s, "action") {
        Some(action) => action,
        None => {
            return None;
        },
    };
    if same_text(action.as_str(), "pass") {
        proof {
            reveal_strlit("pass");
            reveal_strlit("bid");
            reveal_strlit("offer");
            assert("pass"@.len() != "bid"@.len());
            assert("pass"@.len() != "offer"@.len());
        }
        return None;
    }
    let suit: String = match json_str(s, "suit") {
        Some(suit) => suit,
        None => {
            return None;
        },
    };
    let price: usize = match json_num(s, "price") {
        Some(price) => price,
        None => {
            return None;
        },
    };
    let card: Card = if same_text(suit.as_str(), "S") {
        Card::Spade
    } else if same_text(suit.as_str(), "C") {
        Card::Club
    } else if same_text(suit.as_str(), "H") {
        Card::Heart
    } else if same_text(suit.as_str(), "D") {
        Card::Diamond
    } else {
        return None;
    };
    let direction: Direction = if same_text(action.as_str(), "bid") {
        Direction::Buy
    } else if same_text(action.as_str(), "offer") {
        Direction::Sell
    } else {
        return None;
    };
    Some(Order { player_name: PlayerName::External, price, direction, card })
}

/// Reads an order from a line as it comes from the bot, with white space around it.
pub fn read_reply(line: &str) -> (order: Option<Order>)
    ensures
        order == bot_order(trimmed(line@)),
{
    parse_bot_order(trim(line).as_str())
}

/// A text without quotes.
pub open spec fn unquoted(text: Seq<char>) -> bool {
    forall|i: int| 0 <= i < text.len() ==> #[trigger] text[i] != '"'
}

/// A line as a bot writes it: an object with an action, a suit and a price.
pub open spec fn order_line(action: Seq<char>, suit: Seq<char>, price: nat) -> Seq<char> {
    "{\"action\":\""@ + action + "\",\"suit\":\""@ + suit + "\",\"price\":"@ + decimal(price)
        + "}"@
}

/// The parts of a bot's line, and where in it a quote can stand before a colon.
proof fn lemma_order_line(action: Seq<char>, suit: Seq<char>, price: nat)
    requires
        unquoted(action),
        unquoted(suit),
    ensures
        ({
            let s = order_line(action, suit, price);
            let q1 = 11 + action.len();
            let q3 = q1 + 10 + suit.len();
            let q4 = q3 + 10;
            &&& s.len() == q4 + decimal(price).len() + 1
            &&& forall|i: int| 0 <= i < 11 ==> #[trigger] s[i] == "{\"action\":\""@[i]
            &&& forall|i: int| 11 <= i < q1 ==> #[trigger] s[i] == action[i - 11]
            &&& forall|i: int| q1 <= i < q1 + 10 ==> #[trigger] s[i] == "\",\"suit\":\""@[i - q1]
            &&& forall|i: int| q1 + 10 <= i < q3 ==> #[trigger] s[i] == suit[i - q1 - 10]
            &&& forall|i: int| q3 <= i < q4 ==> #[trigger] s[i] == "\",\"price\":"@[i - q3]
            &&& forall|i: int|
                q4 <= i < q4 + decimal(price).len() ==> #[trigger] s[i] == decimal(price)[i - q4]
            &&& s[s.len() - 1] == '}'
            &&& forall|i: int|
                0 <= i < q3 + 8 && #[trigger] s[i] == '"' && s[i + 1] == ':' ==> i == 8 || i
                    == 10 || i == q1 + 7 || i == q1 + 9
        }),
{
    reveal_strlit("{\"action\":\"");
    reveal_strlit("\",\"suit\":\"");
    reveal_strlit("\",\"price\":");
    reveal_strlit("}");
    let s = order_line(action, suit, price);
    let q1 = 11 + action.len();
    let q3 = q1 + 10 + suit.len();
    assert forall|i: int|
        0 <= i < q3 + 8 && #[trigger] s[i] == '"' && s[i + 1] == ':' implies i == 8 || i == 10 || i
        == q1 + 7 || i == q1 + 9 by {
        if i < 11 {
            assert(s[i] == "{\"action\":\""@[i]);
            if i < 10 {
                assert(s[i + 1] == "{\"action\":\""@[i + 1]);
            }
        } else if i < q1 {
            assert(s[i] == action[i - 11]);
        } else if i < q1 + 10 {
            assert(s[i] == "\",\"suit\":\""@[i - q1]);
            if i < q1 + 9 {
                assert(s[i + 1] == "\",\"suit\":\""@[i + 1 - q1]);
            }
        } else if i < q3 {
            assert(s[i] == suit[i - q1 - 10]);
        } else {
            assert(s[i] == "\",\"price\":"@[i - q3]);
            assert(s[i + 1] == "\",\"price\":"@[i + 1 - q3]);
        }
    }
}

/// A line as a bot writes it reads back: its action and its suit, whatever texts without quotes
/// they are, and its price.
pub proof fn law_order_line_reads_back(action: Seq<char>, suit: Seq<char>, price: nat)
    requires
        unquoted(action),
        unquoted(suit),
        price <= usize::MAX,
    ensures
        quoted_value(order_line(action, suit, price), "action"@) == Some(action),
        quoted_value(order_line(action, suit, price), "suit"@) == Some(suit),
        number_value(order_line(action, suit, price), "price"@) == Some(price),
{
    reveal_strlit("{\"action\":\"");
    reveal_strlit("\",\"suit\":\"");
    reveal_strlit("\",\"price\":");
    reveal_strlit("\"");
    reveal_strlit("action");
    reveal_strlit("suit");
    reveal_strlit("price");
    reveal_strlit("\":\"");
    reveal_strlit("\":");
    lemma_order_line(action, suit, price);
    let s = order_line(action, suit, price);
    let q1: int = 11 + action.len() as int;
    let q2: int = q1 + 10;
    let q3: int = q2 + suit.len();
    let q4: int = q3 + 10;
    let end: int = q4 + decimal(price).len();

    // The action.
    let needle = "\""@ + "action"@ + "\":\""@;
    assert(s.subrange(1, 11) =~= needle);
    lemma_no_match(s, needle, 0, 0);
    lemma_found(s, needle, 0, 1);
    assert forall|j: int| 11 <= j < q1 implies !(#[trigger] occurs_at(s, "\""@, j)) by {
        assert(s[j] == action[j - 11]);
        lemma_no_match(s, "\""@, j, 0);
    }
    assert(s.subrange(q1, q1 + 1) =~= "\""@);
    lemma_found(s, "\""@, 11, q1);
    assert(s.subrange(11, q1) =~= action);

    // The suit.
    let needle = "\""@ + "suit"@ + "\":\""@;
    assert(s.subrange(q1 + 2, q1 + 10) =~= needle);
    assert forall|j: int| 0 <= j < q1 + 2 implies !(#[trigger] occurs_at(s, needle, j)) by {
        if s[j + 5] != '"' {
            lemma_no_match(s, needle, j, 5);
        } else if s[j + 6] != ':' {
            lemma_no_match(s, needle, j, 6);
        } else {
            assert(s[j + 5] == '"' && s[(j + 5) + 1] == ':');
            assert(s[j] != '"');
            lemma_no_match(s, needle, j, 0);
        }
    }
    lemma_found(s, needle, 0, q1 + 2);
    assert forall|j: int| q2 <= j < q3 implies !(#[trigger] occurs_at(s, "\""@, j)) by {
        assert(s[j] == suit[j - q2]);
        lemma_no_match(s, "\""@, j, 0);
    }
    assert(s.subrange(q3, q3 + 1) =~= "\""@);
    lemma_found(s, "\""@, q2, q3);
    assert(s.subrange(q2, q3) =~= suit);

    // The price.
    let needle = "\""@ + "price"@ + "\":"@;
    assert(s.subrange(q3 + 2, q3 + 10) =~= needle);
    assert forall|j: int| 0 <= j < q3 + 2 implies !(#[trigger] occurs_at(s, needle, j)) by {
        if s[j + 6] != '"' {
            lemma_no_match(s, needle, j, 6);
        } else if s[j + 7] != ':' {
            lemma_no_match(s, needle, j, 7);
        } else {
            assert(s[j + 6] == '"' && s[(j + 6) + 1] == ':');
            assert(s[j] != '"');
            lemma_no_match(s, needle, j, 0);
        }
    }
    lemma_found(s, needle, 0, q3 + 2);
    law_decimal_reads_back(price);
    assert forall|j: int| q4 <= j < end implies is_digit(#[trigger] s[j]) by {
        assert(s[j] == decimal(price)[j - q4]);
    }
    assert(is_digit(s[q4]));
    lemma_digits_end(s, q4, end);
    assert(s.subrange(q4, end) =~= decimal(price));
}

/// What a bot writes for a side.
pub open spec fn action_text(direction: Direction) -> Seq<char> {
    match direction {
        Direction::Buy => "bid"@,
        Direction::Sell => "offer"@,
    }
}

/// Suits and sides are told apart by their texts, and none of these holds a quote.
proof fn lemma_order_words(direction: Direction, card: Card)
    ensures
        direction_of(action_text(direction)) == Some(direction),
        suit_of(suit_text(card)) == Some(card),
        unquoted(action_text(direction)),
        unquoted(suit_text(card)),
{
    reveal_strlit("bid");
    reveal_strlit("offer");
    reveal_strlit("S");
    reveal_strlit("C");
    reveal_strlit("H");
    reveal_strlit("D");
    assert("offer"@.len() != "bid"@.len());
    assert("C"@[0] != "S"@[0]);
    assert("H"@[0] != "S"@[0] && "H"@[0] != "C"@[0]);
    assert("D"@[0] != "S"@[0] && "D"@[0] != "C"@[0] && "D"@[0] != "H"@[0]);
}

/// Every order that a bot can write is the order that is read: for either side, any suit and any
/// price of a machine word.
pub proof fn law_bot_orders_read_back(direction: Direction, card: Card, price: usize)
    ensures
        bot_order(order_line(action_text(direction), suit_text(card), price as nat)) == Some(
            Order { player_name: PlayerName::External, price, direction, card },
        ),
{
    lemma_order_words(direction, card);
    law_order_line_reads_back(action_text(direction), suit_text(card), price as nat);
}

/// A line that passes, that is empty, or that names no action places no order.
pub proof fn law_passing_places_no_order(s: Seq<char>)
    requires
        s.len() == 0 || quoted_value(s, "action"@) is None || quoted_value(s, "action"@) == Some(
            "pass"@,
        ),
    ensures
        bot_order(s) is None,
{
    reveal_strlit("pass");
    reveal_strlit("bid");
    reveal_strlit("offer");
    reveal_strlit("\"");
    assert("pass"@.len() != "bid"@.len());
    assert("pass"@.len() != "offer"@.len());
    if s.len() == 0 {
        assert(find_from(s, "\""@ + "action"@ + "\":\""@, 0) is None);
    }
}

/// The bot only ever orders in its own name.
pub proof fn law_bot_orders_for_itself(s: Seq<char>)
    ensures
        bot_order(s) matches Some(order) ==> order.player_name == PlayerName::External,
{
}

/// Suits have different letters.
pub proof fn law_suit_letters_differ(a: Card, b: Card)
    requires
        suit_text(a) == suit_text(b),
    ensures
        a == b,
{
    lemma_order_words(Direction::Buy, a);
    lemma_order_words(Direction::Buy, b);
}

} // verus!
