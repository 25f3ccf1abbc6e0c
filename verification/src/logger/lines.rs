//! Every record of the log, and every message to the bot, is one line.

use vstd::prelude::*;

use super::cancel_all_line;
use super::deal_line;
use super::hand_at;
use super::hand_entry;
use super::hand_list;
use super::header_line;
use super::log_file_name;
use super::names_text;
use super::points_at;
use super::quote_line;
use super::rejected_line;
use super::result_entry;
use super::result_list;
use super::round_end_line;
use super::round_start_line;
use super::trade_line;
use crate::models::Card;
use crate::models::Inventory;
use crate::player::PlayerName;
use crate::player::external::MsgView;
use crate::player::external::name_text;
use crate::player::external::seat_entry;
use crate::player::external::seat_list;
use crate::player::external::suit_text;
use crate::text::comma_joined;
use crate::text::decimal;
use crate::text::digits_value;
use crate::text::law_decimal_reads_back;
use crate::text::padded_decimal;
use crate::text::signed_decimal;

verus! {

/// A text without a line break.
pub open spec fn is_line(s: Seq<char>) -> bool {
    forall|i: int| 0 <= i < s.len() ==> #[trigger] s[i] != '\n'
}

/// Pieces of a line make a line.
broadcast proof fn lemma_line_concat(a: Seq<char>, b: Seq<char>)
    ensures
        is_line(a) && is_line(b) ==> #[trigger] is_line(a + b),
{
}

/// A number is written without a line break.
broadcast proof fn lemma_decimal_is_line(n: nat)
    ensures
        #[trigger] is_line(decimal(n)),
{
    law_decimal_reads_back(n);
    assert forall|i: int| 0 <= i < decimal(n).len() implies #[trigger] decimal(n)[i] != '\n' by {
        assert(crate::text::is_digit(decimal(n)[i]));
    }
}

/// A number with its sign is written without a line break.
broadcast proof fn lemma_signed_is_line(n: int)
    ensures
        #[trigger] is_line(signed_decimal(n)),
{
    if n < 0 {
        lemma_decimal_is_line((-n) as nat);
    } else {
        lemma_decimal_is_line(n as nat);
    }
}

/// A list of lines is a line.
proof fn lemma_joined_is_line(items: Seq<Seq<char>>)
    requires
        forall|i: int| 0 <= i < items.len() ==> is_line(#[trigger] items[i]),
    ensures
        is_line(comma_joined(items)),
    decreases items.len(),
{
    reveal_strlit(",");
    if items.len() > 1 {
        assert forall|i: int| 0 <= i < items.drop_last().len() implies is_line(
            #[trigger] items.drop_last()[i],
        ) by {
            assert(is_line(items[i]));
        }
        lemma_joined_is_line(items.drop_last());
        assert(is_line(items[items.len() - 1]));
    } else if items.len() == 1 {
        assert(is_line(items[0]));
    }
}

/// Names hold no line break.
broadcast proof fn lemma_name_is_line(name: PlayerName)
    ensures
        #[trigger] is_line(name_text(name)),
{
    reveal_strlit("Spread");
    reveal_strlit("Seller");
    reveal_strlit("Taker");
    reveal_strlit("Noisy");
    reveal_strlit("WildestDreams");
    reveal_strlit("PickOff");
    reveal_strlit("TiltInventory");
    reveal_strlit("TheHoarder");
    reveal_strlit("PrayingMantis");
    reveal_strlit("External");
    reveal_strlit("None");
}

/// Suit letters are no line breaks.
broadcast proof fn lemma_suit_is_line(card: Card)
    ensures
        #[trigger] is_line(suit_text(card)),
{
    reveal_strlit("S");
    reveal_strlit("C");
    reveal_strlit("H");
    reveal_strlit("D");
}

broadcast group group_lines {
    lemma_line_concat,
    lemma_decimal_is_line,
    lemma_signed_is_line,
    lemma_name_is_line,
    lemma_suit_is_line,
}

/// A list of seats is a line where the names are.
proof fn lemma_seat_list_is_line(names: Seq<Seq<char>>)
    requires
        forall|i: int| 0 <= i < names.len() ==> is_line(#[trigger] names[i]),
    ensures
        is_line(seat_list(names)),
{
    broadcast use group_lines;

    assert(is_line("{\"idx\":"@)) by {
        reveal_strlit("{\"idx\":");
    }
    assert(is_line(",\"name\":\""@)) by {
        reveal_strlit(",\"name\":\"");
    }
    assert(is_line("\"}"@)) by {
        reveal_strlit("\"}");
    }
    let items = Seq::new(names.len(), |i: int| seat_entry(i as nat, names[i]));
    assert forall|i: int| 0 <= i < items.len() implies is_line(#[trigger] items[i]) by {
        assert(is_line(names[i]));
    }
    lemma_joined_is_line(items);
}

/// A list of hands is a line.
proof fn lemma_hand_list_is_line(players: Seq<PlayerName>, hands: Map<PlayerName, Inventory>)
    ensures
        is_line(hand_list(players, hands)),
{
    broadcast use group_lines;

    assert(is_line("{\"player\":\""@)) by {
        reveal_strlit("{\"player\":\"");
    }
    assert(is_line("\",\"S\":"@)) by {
        reveal_strlit("\",\"S\":");
    }
    assert(is_line(",\"C\":"@)) by {
        reveal_strlit(",\"C\":");
    }
    assert(is_line(",\"H\":"@)) by {
        reveal_strlit(",\"H\":");
    }
    assert(is_line(",\"D\":"@)) by {
        reveal_strlit(",\"D\":");
    }
    assert(is_line("}"@)) by {
        reveal_strlit("}");
    }
    let items = Seq::new(
        players.len(),
        |i: int| hand_entry(players[i], hand_at(hands, players[i])),
    );
    lemma_joined_is_line(items);
}

/// The entry of a player's result is a line.
proof fn lemma_result_entry_is_line(name: PlayerName, hand: Inventory, initial: usize, end: usize)
    ensures
        is_line(result_entry(name, hand, initial, end)),
{
    broadcast use group_lines;

    assert(is_line("{\"player\":\""@)) by {
        reveal_strlit("{\"player\":\"");
    }
    assert(is_line("\",\"final_S\":"@)) by {
        reveal_strlit("\",\"final_S\":");
    }
    assert(is_line(",\"final_C\":"@)) by {
        reveal_strlit(",\"final_C\":");
    }
    assert(is_line(",\"final_H\":"@)) by {
        reveal_strlit(",\"final_H\":");
    }
    assert(is_line(",\"final_D\":"@)) by {
        reveal_strlit(",\"final_D\":");
    }
    assert(is_line(",\"initial_points\":"@)) by {
        reveal_strlit(",\"initial_points\":");
    }
    assert(is_line(",\"final_points\":"@)) by {
        reveal_strlit(",\"final_points\":");
    }
    assert(is_line(",\"pnl\":"@)) by {
        reveal_strlit(",\"pnl\":");
    }
    assert(is_line("}"@)) by {
        reveal_strlit("}");
    }
}

/// A list of results is a line.
proof fn lemma_result_list_is_line(
    players: Seq<PlayerName>,
    hands: Map<PlayerName, Inventory>,
    initial: Map<PlayerName, usize>,
    end: Map<PlayerName, usize>,
)
    ensures
        is_line(result_list(players, hands, initial, end)),
{
    let items = Seq::new(
        players.len(),
        |i: int|
            result_entry(
                players[i],
                hand_at(hands, players[i]),
                points_at(initial, players[i]),
                points_at(end, players[i]),
            ),
    );
    assert forall|i: int| 0 <= i < items.len() implies is_line(#[trigger] items[i]) by {
        lemma_result_entry_is_line(
            players[i],
            hand_at(hands, players[i]),
            points_at(initial, players[i]),
            points_at(end, players[i]),
        );
    }
    lemma_joined_is_line(items);
}

/// The first record of a log is one line.
pub proof fn law_header_is_one_line(game_id: u64, seed: u64)
    ensures
        is_line(header_line(game_id, seed)),
{
    broadcast use group_lines;

    assert(is_line("{\"type\":\"header\",\"game_id\":"@)) by {
        reveal_strlit("{\"type\":\"header\",\"game_id\":");
    }
    assert(is_line(",\"seed\":"@)) by {
        reveal_strlit(",\"seed\":");
    }
    assert(is_line(",\"schema\":1}"@)) by {
        reveal_strlit(",\"schema\":1}");
    }
}

/// The record of a round's start is one line.
pub proof fn law_round_start_is_one_line(
    t: Seq<char>,
    round: u32,
    ante: usize,
    pot: usize,
    players: Seq<PlayerName>,
)
    requires
        is_line(t),
    ensures
        is_line(round_start_line(t, round, ante, pot, players)),
{
    broadcast use group_lines;

    assert(is_line("{\"t\":"@)) by {
        reveal_strlit("{\"t\":");
    }
    assert(is_line(",\"type\":\"round_start\",\"round\":"@)) by {
        reveal_strlit(",\"type\":\"round_start\",\"round\":");
    }
    assert(is_line(",\"ante\":"@)) by {
        reveal_strlit(",\"ante\":");
    }
    assert(is_line(",\"pot\":"@)) by {
        reveal_strlit(",\"pot\":");
    }
    assert(is_line(",\"players\":["@)) by {
        reveal_strlit(",\"players\":[");
    }
    assert(is_line("]}"@)) by {
        reveal_strlit("]}");
    }
    assert forall|i: int| 0 <= i < players.len() implies is_line(
        #[trigger] names_text(players)[i],
    ) by {
        lemma_name_is_line(players[i]);
    }
    lemma_seat_list_is_line(names_text(players));
}

/// The record of a deal is one line.
pub proof fn law_deal_is_one_line(
    t: Seq<char>,
    players: Seq<PlayerName>,
    hands: Map<PlayerName, Inventory>,
    common_suit: Card,
    goal_suit: Card,
    counts: Inventory,
)
    requires
        is_line(t),
    ensures
        is_line(deal_line(t, players, hands, common_suit, goal_suit, counts)),
{
    broadcast use group_lines;

    assert(is_line("{\"t\":"@)) by {
        reveal_strlit("{\"t\":");
    }
    assert(is_line(",\"type\":\"deal\",\"common_suit\":\""@)) by {
        reveal_strlit(",\"type\":\"deal\",\"common_suit\":\"");
    }
    assert(is_line("\",\"goal_suit\":\""@)) by {
        reveal_strlit("\",\"goal_suit\":\"");
    }
    assert(is_line("\",\"counts\":{\"S\":"@)) by {
        reveal_strlit("\",\"counts\":{\"S\":");
    }
    assert(is_line(",\"C\":"@)) by {
        reveal_strlit(",\"C\":");
    }
    assert(is_line(",\"H\":"@)) by {
        reveal_strlit(",\"H\":");
    }
    assert(is_line(",\"D\":"@)) by {
        reveal_strlit(",\"D\":");
    }
    assert(is_line("},\"hands\":["@)) by {
        reveal_strlit("},\"hands\":[");
    }
    assert(is_line("]}"@)) by {
        reveal_strlit("]}");
    }
    lemma_hand_list_is_line(players, hands);
}

/// The records of quotes, refused orders, trades and withdrawals are one line each.
pub proof fn law_trading_records_are_one_line(
    t: Seq<char>,
    word: Seq<char>,
    a: PlayerName,
    b: PlayerName,
    card: Card,
    price: usize,
)
    requires
        is_line(t),
        is_line(word),
    ensures
        is_line(quote_line(t, word, a, card, price)),
        is_line(rejected_line(t, a, card, word)),
        is_line(trade_line(t, card, price, a, b)),
        is_line(cancel_all_line(t)),
{
    broadcast use group_lines;

    assert(is_line("{\"t\":"@)) by {
        reveal_strlit("{\"t\":");
    }
    assert(is_line(",\"type\":\""@)) by {
        reveal_strlit(",\"type\":\"");
    }
    assert(is_line("\",\"player\":\""@)) by {
        reveal_strlit("\",\"player\":\"");
    }
    assert(is_line("\",\"suit\":\""@)) by {
        reveal_strlit("\",\"suit\":\"");
    }
    assert(is_line("\",\"price\":"@)) by {
        reveal_strlit("\",\"price\":");
    }
    assert(is_line("}"@)) by {
        reveal_strlit("}");
    }
    assert(is_line(",\"type\":\"order_rejected\",\"player\":\""@)) by {
        reveal_strlit(",\"type\":\"order_rejected\",\"player\":\"");
    }
    assert(is_line("\",\"reason\":\""@)) by {
        reveal_strlit("\",\"reason\":\"");
    }
    assert(is_line("\"}"@)) by {
        reveal_strlit("\"}");
    }
    assert(is_line(",\"type\":\"trade\",\"suit\":\""@)) by {
        reveal_strlit(",\"type\":\"trade\",\"suit\":\"");
    }
    assert(is_line(",\"buyer\":\""@)) by {
        reveal_strlit(",\"buyer\":\"");
    }
    assert(is_line("\",\"seller\":\""@)) by {
        reveal_strlit("\",\"seller\":\"");
    }
    assert(is_line(",\"type\":\"cancel_all\"}"@)) by {
        reveal_strlit(",\"type\":\"cancel_all\"}");
    }
}

/// The record of a round's end is one line.
pub proof fn law_round_end_is_one_line(
    t: Seq<char>,
    players: Seq<PlayerName>,
    goal_suit: Card,
    common_suit: Card,
    hands: Map<PlayerName, Inventory>,
    initial: Map<PlayerName, usize>,
    end: Map<PlayerName, usize>,
)
    requires
        is_line(t),
    ensures
        is_line(round_end_line(t, players, goal_suit, common_suit, hands, initial, end)),
{
    broadcast use group_lines;

    assert(is_line("{\"t\":"@)) by {
        reveal_strlit("{\"t\":");
    }
    assert(is_line(",\"type\":\"round_end\",\"goal_suit\":\""@)) by {
        reveal_strlit(",\"type\":\"round_end\",\"goal_suit\":\"");
    }
    assert(is_line("\",\"common_suit\":\""@)) by {
        reveal_strlit("\",\"common_suit\":\"");
    }
    assert(is_line("\",\"results\":["@)) by {
        reveal_strlit("\",\"results\":[");
    }
    assert(is_line("]}"@)) by {
        reveal_strlit("]}");
    }
    lemma_result_list_is_line(players, hands, initial, end);
}

/// The texts in a message hold no line break.
pub open spec fn is_plain(msg: MsgView) -> bool {
    match msg {
        MsgView::RoundStart { players, bot_index } => forall|i: int|
            0 <= i < players.len() ==> is_line(#[trigger] players[i]),
        MsgView::Quote { side, player, suit, price } => is_line(side) && is_line(player)
            && is_line(suit),
        MsgView::TradeExec { suit, price, buyer, seller } => is_line(suit) && is_line(buyer)
            && is_line(seller),
        MsgView::RoundEnd { goal_suit } => is_line(goal_suit),
        _ => true,
    }
}

/// A message to the bot is one line.
pub proof fn law_message_is_one_line(msg: MsgView)
    requires
        is_plain(msg),
    ensures
        is_line(msg.json()),
{
    broadcast use group_lines;

    assert(is_line("{\"type\":\"round_start\",\"players\":["@)) by {
        reveal_strlit("{\"type\":\"round_start\",\"players\":[");
    }
    assert(is_line("],\"bot_index\":"@)) by {
        reveal_strlit("],\"bot_index\":");
    }
    assert(is_line("}"@)) by {
        reveal_strlit("}");
    }
    assert(is_line("{\"type\":\"deal\",\"hands\":[{\"player\":\"External\",\"S\":"@)) by {
        reveal_strlit("{\"type\":\"deal\",\"hands\":[{\"player\":\"External\",\"S\":");
    }
    assert(is_line(",\"C\":"@)) by {
        reveal_strlit(",\"C\":");
    }
    assert(is_line(",\"H\":"@)) by {
        reveal_strlit(",\"H\":");
    }
    assert(is_line(",\"D\":"@)) by {
        reveal_strlit(",\"D\":");
    }
    assert(is_line("}]}"@)) by {
        reveal_strlit("}]}");
    }
    assert(is_line("{\"type\":\""@)) by {
        reveal_strlit("{\"type\":\"");
    }
    assert(is_line("\",\"player\":\""@)) by {
        reveal_strlit("\",\"player\":\"");
    }
    assert(is_line("\",\"suit\":\""@)) by {
        reveal_strlit("\",\"suit\":\"");
    }
    assert(is_line("\",\"price\":"@)) by {
        reveal_strlit("\",\"price\":");
    }
    assert(is_line("{\"type\":\"trade\",\"suit\":\""@)) by {
        reveal_strlit("{\"type\":\"trade\",\"suit\":\"");
    }
    assert(is_line(",\"buyer\":\""@)) by {
        reveal_strlit(",\"buyer\":\"");
    }
    assert(is_line("\",\"seller\":\""@)) by {
        reveal_strlit("\",\"seller\":\"");
    }
    assert(is_line("\"}"@)) by {
        reveal_strlit("\"}");
    }
    assert(is_line("{\"type\":\"cancel_all\"}"@)) by {
        reveal_strlit("{\"type\":\"cancel_all\"}");
    }
    assert(is_line("{\"type\":\"round_end\",\"goal_suit\":\""@)) by {
        reveal_strlit("{\"type\":\"round_end\",\"goal_suit\":\"");
    }
    if let MsgView::RoundStart { players, bot_index } = msg {
        lemma_seat_list_is_line(players);
    }
}

/// Leading zeros do not change a number.
proof fn lemma_zeros(k: nat, s: Seq<char>)
    ensures
        digits_value(Seq::new(k, |i: int| '0') + s) == digits_value(s),
    decreases s.len(), k,
{
    let zeros = Seq::new(k, |i: int| '0');
    if s.len() > 0 {
        lemma_zeros(k, s.drop_last());
        assert((zeros + s).drop_last() =~= zeros + s.drop_last());
    } else if k > 0 {
        lemma_zeros((k - 1) as nat, s);
        assert((zeros + s).drop_last() =~= Seq::new((k - 1) as nat, |i: int| '0') + s);
    } else {
        assert(zeros + s =~= s);
    }
}

/// Different games log to different files.
pub proof fn law_games_log_to_different_files(a: u64, b: u64)
    requires
        log_file_name(a) == log_file_name(b),
    ensures
        a == b,
{
    let (p, q) = (padded_decimal(a as nat, 8), padded_decimal(b as nat, 8));
    let (x, y) = (log_file_name(a), log_file_name(b));
    let (head, tail) = ("game_"@.len() as int, ".jsonl"@.len() as int);
    assert(x.subrange(head, x.len() - tail) =~= p);
    assert(y.subrange(head, y.len() - tail) =~= q);
    law_decimal_reads_back(a as nat);
    law_decimal_reads_back(b as nat);
    lemma_zeros((8 - decimal(a as nat).len()) as nat, decimal(a as nat));
    lemma_zeros((8 - decimal(b as nat).len()) as nat, decimal(b as nat));
}

} // verus!
