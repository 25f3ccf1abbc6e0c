//! The event log: one JSON object per line, one file per round.

pub mod lines;
pub mod objects;

use vstd::prelude::*;

use crate::models::Card;
use crate::models::Inventory;
use crate::player::PlayerMap;
use crate::player::PlayerName;
use crate::player::external::name_text;
use crate::player::external::seat_list;
use crate::player::external::seats_json;
use crate::player::external::suit_text;
use crate::text::comma_joined;
use crate::text::decimal;
use crate::text::join_with_commas;
use crate::text::padded_decimal;
use crate::text::push_decimal;
use crate::text::push_padded;
use crate::text::push_signed;
use crate::text::signed_decimal;
use crate::text::texts;

verus! {

/// The log of one round, as far as it has not been written out. Times are given as they are to
/// stand in the log, in seconds.
pub struct EventLogger {
    file_name: String,
    pending: String,
}

impl View for EventLogger {
    type V = Seq<char>;

    /// The text that has not been written out.
    closed spec fn view(&self) -> Seq<char> {
        self.pending@
    }
}

/// The name of the file for a game.
pub open spec fn log_file_name(game_id: u64) -> Seq<char> {
    "game_"@ + padded_decimal(game_id as nat, 8) + ".jsonl"@
}

/// The first line of a log: the game and the seed that drives its random numbers.
pub open spec fn header_line(game_id: u64, seed: u64) -> Seq<char> {
    "{\"type\":\"header\",\"game_id\":"@ + decimal(game_id as nat) + ",\"seed\":"@ + decimal(
        seed as nat,
    ) + ",\"schema\":1}"@
}

/// What the players are called.
pub open spec fn names_text(players: Seq<PlayerName>) -> Seq<Seq<char>> {
    Seq::new(players.len(), |i: int| name_text(players[i]))
}

/// The line for the start of a round.
pub open spec fn round_start_line(
    t: Seq<char>,
    round: u32,
    ante: usize,
    pot: usize,
    players: Seq<PlayerName>,
) -> Seq<char> {
    "{\"t\":"@ + t + ",\"type\":\"round_start\",\"round\":"@ + decimal(round as nat)
        + ",\"ante\":"@ + decimal(ante as nat) + ",\"pot\":"@ + decimal(pot as nat)
        + ",\"players\":["@ + seat_list(names_text(players)) + "]}"@
}

/// The hand of a player, empty where there is none on record.
pub open spec fn hand_at(hands: Map<PlayerName, Inventory>, name: PlayerName) -> Inventory {
    if hands.contains_key(name) {
        hands[name]
    } else {
        Inventory::nothing()
    }
}

/// The points of a player, none where there are none on record.
pub open spec fn points_at(points: Map<PlayerName, usize>, name: PlayerName) -> usize {
    if points.contains_key(name) {
        points[name]
    } else {
        0
    }
}

/// The entry of a player's hand in a deal.
pub open spec fn hand_entry(name: PlayerName, hand: Inventory) -> Seq<char> {
    "{\"player\":\""@ + name_text(name) + "\",\"S\":"@ + decimal(hand.spades as nat) + ",\"C\":"@
        + decimal(hand.clubs as nat) + ",\"H\":"@ + decimal(hand.hearts as nat) + ",\"D\":"@
        + decimal(hand.diamonds as nat) + "}"@
}

/// The entries of all players' hands in a deal.
pub open spec fn hand_list(
    players: Seq<PlayerName>,
    hands: Map<PlayerName, Inventory>,
) -> Seq<char> {
    comma_joined(
        Seq::new(players.len(), |i: int| hand_entry(players[i], hand_at(hands, players[i]))),
    )
}

/// The line for a deal, with everything that the players cannot see.
pub open spec fn deal_line(
    t: Seq<char>,
    players: Seq<PlayerName>,
    hands: Map<PlayerName, Inventory>,
    common_suit: Card,
    goal_suit: Card,
    counts: Inventory,
) -> Seq<char> {
    "{\"t\":"@ + t + ",\"type\":\"deal\",\"common_suit\":\""@ + suit_text(common_suit)
        + "\",\"goal_suit\":\""@ + suit_text(goal_suit) + "\",\"counts\":{\"S\":"@ + decimal(
        counts.spades as nat,
    ) + ",\"C\":"@ + decimal(counts.clubs as nat) + ",\"H\":"@ + decimal(counts.hearts as nat)
        + ",\"D\":"@ + decimal(counts.diamonds as nat) + "},\"hands\":["@ + hand_list(
        players,
        hands,
    ) + "]}"@
}

/// The line for a new best quote. The side is the type of the line.
pub open spec fn quote_line(
    t: Seq<char>,
    side: Seq<char>,
    player: PlayerName,
    card: Card,
    price: usize,
) -> Seq<char> {
    "{\"t\":"@ + t + ",\"type\":\""@ + side + "\",\"player\":\""@ + name_text(player)
        + "\",\"suit\":\""@ + suit_text(card) + "\",\"price\":"@ + decimal(price as nat) + "}"@
}

/// The line for an order that was not accepted.
pub open spec fn rejected_line(
    t: Seq<char>,
    player: PlayerName,
    card: Card,
    reason: Seq<char>,
) -> Seq<char> {
    "{\"t\":"@ + t + ",\"type\":\"order_rejected\",\"player\":\""@ + name_text(player)
        + "\",\"suit\":\""@ + suit_text(card) + "\",\"reason\":\""@ + reason + "\"}"@
}

/// The line for a trade.
pub open spec fn trade_line(
    t: Seq<char>,
    card: Card,
    price: usize,
    buyer: PlayerName,
    seller: PlayerName,
) -> Seq<char> {
    "{\"t\":"@ + t + ",\"type\":\"trade\",\"suit\":\""@ + suit_text(card) + "\",\"price\":"@
        + decimal(price as nat) + ",\"buyer\":\""@ + name_text(buyer) + "\",\"seller\":\""@
        + name_text(seller) + "\"}"@
}

/// The line that all quotes are withdrawn.
pub open spec fn cancel_all_line(t: Seq<char>) -> Seq<char> {
    "{\"t\":"@ + t + ",\"type\":\"cancel_all\"}"@
}

/// What a player won or lost.
pub open spec fn gain(initial: usize, end: usize) -> int {
    (end as i64) - (initial as i64)
}

/// The entry of a player in the results of a round.
pub open spec fn result_entry(
    name: PlayerName,
    hand: Inventory,
    initial: usize,
    end: usize,
) -> Seq<char> {
    "{\"player\":\""@ + name_text(name) + "\",\"final_S\":"@ + decimal(hand.spades as nat)
        + ",\"final_C\":"@ + decimal(hand.clubs as nat) + ",\"final_H\":"@ + decimal(
        hand.hearts as nat,
    ) + ",\"final_D\":"@ + decimal(hand.diamonds as nat) + ",\"initial_points\":"@ + signed_decimal(
        (initial as i64) as int,
    ) + ",\"final_points\":"@ + signed_decimal((end as i64) as int) + ",\"pnl\":"@ + signed_decimal(
        gain(initial, end),
    ) + "}"@
}

/// The entries of all players in the results of a round.
pub open spec fn result_list(
    players: Seq<PlayerName>,
    hands: Map<PlayerName, Inventory>,
    initial: Map<PlayerName, usize>,
    end: Map<PlayerName, usize>,
) -> Seq<char> {
    comma_joined(
        Seq::new(
            players.len(),
            |i: int|
                result_entry(
                    players[i],
                    hand_at(hands, players[i]),
                    points_at(initial, players[i]),
                    points_at(end, players[i]),
                ),
        ),
    )
}

/// The line for the end of a round: last hands, and what everyone won or lost.
pub open spec fn round_end_line(
    t: Seq<char>,
    players: Seq<PlayerName>,
    goal_suit: Card,
    common_suit: Card,
    hands: Map<PlayerName, Inventory>,
    initial: Map<PlayerName, usize>,
    end: Map<PlayerName, usize>,
) -> Seq<char> {
    "{\"t\":"@ + t + ",\"type\":\"round_end\",\"goal_suit\":\""@ + suit_text(goal_suit)
        + "\",\"common_suit\":\""@ + suit_text(common_suit) + "\",\"results\":["@ + result_list(
        players,
        hands,
        initial,
        end,
    ) + "]}"@
}

/// What everyone won or lost is a 64-bit number.
pub open spec fn gains_fit(
    players: Seq<PlayerName>,
    initial: Map<PlayerName, usize>,
    end: Map<PlayerName, usize>,
) -> bool {
    forall|i: int|
        0 <= i < players.len() ==> i64::MIN <= gain(
            points_at(initial, #[trigger] players[i]),
            points_at(end, players[i]),
        ) <= i64::MAX
}

/// The letter of a suit.
pub fn card_str(c: &Card) -> (text: &'static str)
    ensures
        text@ == suit_text(*c),
{
    match c {
        Card::Spade => "S",
        Card::Club => "C",
        Card::Heart => "H",
        Card::Diamond => "D",
    }
}

/// The name of a player.
pub fn player_name_str(p: &PlayerName) -> (text: &'static str)
    ensures
        text@ == name_text(*p),
{
    match p {
        PlayerName::Spread => "Spread",
        PlayerName::Seller => "Seller",
        PlayerName::Taker => "Taker",
        PlayerName::Noisy => "Noisy",
        PlayerName::WildestDreams => "WildestDreams",
        PlayerName::PickOff => "PickOff",
        PlayerName::TiltInventory => "TiltInventory",
        PlayerName::TheHoarder => "TheHoarder",
        PlayerName::PrayingMantis => "PrayingMantis",
        PlayerName::External => "External",
        PlayerName::Nobody => "None",
    }
}

/// The names of players in seating order.
pub fn name_strings(players: &Vec<PlayerName>) -> (names: Vec<String>)
    ensures
        texts(names@) == names_text(players@),
{
    let mut names: Vec<String> = Vec::new();
    for i in 0..players.len()
        invariant
            names@.len() == i,
            forall|j: int| 0 <= j < i ==> (#[trigger] names@[j])@ == name_text(players@[j]),
    {
        names.push(player_name_str(&players[i]).to_string());
    }
    assert(texts(names@) =~= names_text(players@));
    names
}

/// The hand of a player.
fn look_up_hand(hands: &PlayerMap<Inventory>, name: &PlayerName) -> (hand: Inventory)
    ensures
        hand == hand_at(hands@, *name),
{
    match hands.get(name) {
        Some(hand) => *hand,
        None => Inventory::new(),
    }
}

/// The points of a player.
fn look_up_points(points: &PlayerMap<usize>, name: &PlayerName) -> (n: usize)
    ensures
        n == points_at(points@, *name),
{
    match points.get(name) {
        Some(n) => *n,
        None => 0,
    }
}

/// Whether what everyone won or lost is a 64-bit number.
pub fn can_log_gains(
    players: &Vec<PlayerName>,
    initial: &PlayerMap<usize>,
    end: &PlayerMap<usize>,
) -> (yes: bool)
    ensures
        yes == gains_fit(players@, initial@, end@),
{
    for i in 0..players.len()
        invariant
            forall|j: int|
                0 <= j < i ==> i64::MIN <= gain(
                    points_at(initial@, #[trigger] players@[j]),
                    points_at(end@, players@[j]),
                ) <= i64::MAX,
    {
        let before: i64 = look_up_points(initial, &players[i]) as i64;
        let after: i64 = look_up_points(end, &players[i]) as i64;
        if after.checked_sub(before).is_none() {
            assert(!(i64::MIN <= gain(
                points_at(initial@, players@[i as int]),
                points_at(end@, players@[i as int]),
            ) <= i64::MAX));
            return false;
        }
    }
    true
}

impl EventLogger {
    /// The name of the file that the log belongs in.
    pub closed spec fn file(self) -> Seq<char> {
        self.file_name@
    }

    /// Starts the log of a game with its first line.
    pub fn new(game_id: u64, seed: u64) -> (logger: EventLogger)
        ensures
            logger.file() == log_file_name(game_id),
            logger@ == header_line(game_id, seed) + "\n"@,
    {
        let mut file_name: String = "game_".to_string();
        push_padded(&mut file_name, game_id, 8);
        file_name.append(".jsonl");
        let mut line: String = "{\"type\":\"header\",\"game_id\":".to_string();
        push_decimal(&mut line, game_id);
        line.append(",\"seed\":");
        push_decimal(&mut line, seed);
        line.append(",\"schema\":1}");
        line.append("\n");
        EventLogger { file_name, pending: line }
    }

    /// The name of the file that the log belongs in, below the log directory.
    pub fn path(&self) -> (name: &str)
        ensures
            name@ == self.file(),
    {
        self.file_name.as_str()
    }

    /// Appends a line.
    fn write_line(&mut self, line: &str)
        ensures
            final(self)@ == old(self)@ + line@ + "\n"@,
            final(self).file() == old(self).file(),
    {
        self.pending.append(line);
        self.pending.append("\n");
    }

    /// Hands over the text that has not been written out, to be written out now.
    pub fn flush(&mut self) -> (text: String)
        ensures
            text@ == old(self)@,
            final(self)@ == Seq::<char>::empty(),
            final(self).file() == old(self).file(),
    {
        let mut text: String = String::new();
        std::mem::swap(&mut text, &mut self.pending);
        text
    }

    /// Logs the start of a round.
    pub fn log_round_start(
        &mut self,
        t: &str,
        round: u32,
        ante: usize,
        pot: usize,
        players: &Vec<PlayerName>,
    )
        ensures
            final(self)@ == old(self)@ + round_start_line(t@, round, ante, pot, players@) + "\n"@,
            final(self).file() == old(self).file(),
    {
        let mut line: String = "{\"t\":".to_string();
        line.append(t);
        line.append(",\"type\":\"round_start\",\"round\":");
        push_decimal(&mut line, round as u64);
        line.append(",\"ante\":");
        push_decimal(&mut line, ante as u64);
        line.append(",\"pot\":");
        push_decimal(&mut line, pot as u64);
        line.append(",\"players\":[");
        line.append(seats_json(&name_strings(players)).as_str());
        line.append("]}");
        self.write_line(line.as_str());
    }

    /// Logs a deal.
    pub fn log_deal(
        &mut self,
        t: &str,
        players: &Vec<PlayerName>,
        inventories: &PlayerMap<Inventory>,
        common_suit: &Card,
        goal_suit: &Card,
        counts: &Inventory,
    )
        ensures
            final(self)@ == old(self)@ + deal_line(
                t@,
                players@,
                inventories@,
                *common_suit,
                *goal_suit,
                *counts,
            ) + "\n"@,
            final(self).file() == old(self).file(),
    {
        let hands: String = hands_json(players, inventories);
        let mut line: String = "{\"t\":".to_string();
        line.append(t);
        line.append(",\"type\":\"deal\",\"common_suit\":\"");
        line.append(card_str(common_suit));
        line.append("\",\"goal_suit\":\"");
        line.append(card_str(goal_suit));
        line.append("\",\"counts\":{\"S\":");
        push_decimal(&mut line, counts.spades as u64);
        line.append(",\"C\":");
        push_decimal(&mut line, counts.clubs as u64);
        line.append(",\"H\":");
        push_decimal(&mut line, counts.hearts as u64);
        line.append(",\"D\":");
        push_decimal(&mut line, counts.diamonds as u64);
        line.append("},\"hands\":[");
        line.append(hands.as_str());
        line.append("]}");
        self.write_line(line.as_str());
    }

    /// Logs a new best quote.
    pub fn log_quote(
        &mut self,
        t: &str,
        side: &str,
        player: &PlayerName,
        card: &Card,
        price: usize,
    )
        ensures
            final(self)@ == old(self)@ + quote_line(t@, side@, *player, *card, price) + "\n"@,
            final(self).file() == old(self).file(),
    {
        let mut line: String = "{\"t\":".to_string();
        line.append(t);
        line.append(",\"type\":\"");
        line.append(side);
        line.append("\",\"player\":\"");
        line.append(player_name_str(player));
        line.append("\",\"suit\":\"");
        line.append(card_str(card));
        line.append("\",\"price\":");
        push_decimal(&mut line, price as u64);
        line.append("}");
        self.write_line(line.as_str());
    }

    /// Logs an order that was not accepted.
    pub fn log_order_rejected(&mut self, t: &str, player: &PlayerName, card: &Card, reason: &str)
        ensures
            final(self)@ == old(self)@ + rejected_line(t@, *player, *card, reason@) + "\n"@,
            final(self).file() == old(self).file(),
    {
        let mut line: String = "{\"t\":".to_string();
        line.append(t);
        line.append(",\"type\":\"order_rejected\",\"player\":\"");
        line.append(player_name_str(player));
        line.append("\",\"suit\":\"");
        line.append(card_str(card));
        line.append("\",\"reason\":\"");
        line.append(reason);
        line.append("\"}");
        self.write_line(line.as_str());
    }

    /// Logs a trade.
    pub fn log_trade(
        &mut self,
        t: &str,
        card: &Card,
        price: usize,
        buyer: &PlayerName,
        seller: &PlayerName,
    )
        ensures
            final(self)@ == old(self)@ + trade_line(t@, *card, price, *buyer, *seller) + "\n"@,
            final(self).file() == old(self).file(),
    {
        let mut line: String = "{\"t\":".to_string();
        line.append(t);
        line.append(",\"type\":\"trade\",\"suit\":\"");
        line.append(card_str(card));
        line.append("\",\"price\":");
        push_decimal(&mut line, price as u64);
        line.append(",\"buyer\":\"");
        line.append(player_name_str(buyer));
        line.append("\",\"seller\":\"");
        line.append(player_name_str(seller));
        line.append("\"}");
        self.write_line(line.as_str());
    }

    /// Logs that all quotes are withdrawn.
    pub fn log_cancel_all(&mut self, t: &str)
        ensures
            final(self)@ == old(self)@ + cancel_all_line(t@) + "\n"@,
            final(self).file() == old(self).file(),
    {
        let mut line: String = "{\"t\":".to_string();
        line.append(t);
        line.append(",\"type\":\"cancel_all\"}");
        self.write_line(line.as_str());
    }

    /// Logs the end of a round. What is pending is then due to be written out.
    pub fn log_round_end(
        &mut self,
        t: &str,
        players: &Vec<PlayerName>,
        goal_suit: &Card,
        common_suit: &Card,
        final_inventories: &PlayerMap<Inventory>,
        initial_points: &PlayerMap<usize>,
        final_points: &PlayerMap<usize>,
    )
        requires
            gains_fit(players@, initial_points@, final_points@),
        ensures
            final(self)@ == old(self)@ + round_end_line(
                t@,
                players@,
                *goal_suit,
                *common_suit,
                final_inventories@,
                initial_points@,
                final_points@,
            ) + "\n"@,
            final(self).file() == old(self).file(),
    {
        let results: String = results_json(players, final_inventories, initial_points, final_points);
        let mut line: String = "{\"t\":".to_string();
        line.append(t);
        line.append(",\"type\":\"round_end\",\"goal_suit\":\"");
        line.append(card_str(goal_suit));
        line.append("\",\"common_suit\":\"");
        line.append(card_str(common_suit));
        line.append("\",\"results\":[");
        line.append(results.as_str());
        line.append("]}");
        self.write_line(line.as_str());
    }
}

/// Writes the list of players' hands.
fn hands_json(players: &Vec<PlayerName>, hands: &PlayerMap<Inventory>) -> (json: String)
    ensures
        json@ == hand_list(players@, hands@),
{
    let mut entries: Vec<String> = Vec::new();
    for i in 0..players.len()
        invariant
            entries@.len() == i,
            forall|j: int|
                0 <= j < i ==> (#[trigger] entries@[j])@ == hand_entry(
                    players@[j],
                    hand_at(hands@, players@[j]),
                ),
    {
        let name: PlayerName = players[i];
        let hand: Inventory = look_up_hand(hands, &name);
        let mut entry: String = "{\"player\":\"".to_string();
        entry.append(player_name_str(&name));
        entry.append("\",\"S\":");
        push_decimal(&mut entry, hand.spades as u64);
        entry.append(",\"C\":");
        push_decimal(&mut entry, hand.clubs as u64);
        entry.append(",\"H\":");
        push_decimal(&mut entry, hand.hearts as u64);
        entry.append(",\"D\":");
        push_decimal(&mut entry, hand.diamonds as u64);
        entry.append("}");
        entries.push(entry);
    }
    assert(texts(entries@) =~= Seq::new(
        players@.len(),
        |i: int| hand_entry(players@[i], hand_at(hands@, players@[i])),
    ));
    join_with_commas(&entries)
}

/// Writes the list of players' results.
fn results_json(
    players: &Vec<PlayerName>,
    hands: &PlayerMap<Inventory>,
    initial: &PlayerMap<usize>,
    end: &PlayerMap<usize>,
) -> (json: String)
    requires
        gains_fit(players@, initial@, end@),
    ensures
        json@ == result_list(players@, hands@, initial@, end@),
{
    let mut entries: Vec<String> = Vec::new();
    for i in 0..players.len()
        invariant
            gains_fit(players@, initial@, end@),
            entries@.len() == i,
            forall|j: int|
                0 <= j < i ==> (#[trigger] entries@[j])@ == result_entry(
                    players@[j],
                    hand_at(hands@, players@[j]),
                    points_at(initial@, players@[j]),
                    points_at(end@, players@[j]),
                ),
    {
        let name: PlayerName = players[i];
        let hand: Inventory = look_up_hand(hands, &name);
        let before: i64 = look_up_points(initial, &name) as i64;
        let after: i64 = look_up_points(end, &name) as i64;
        let mut entry: String = "{\"player\":\"".to_string();
        entry.append(player_name_str(&name));
        entry.append("\",\"final_S\":");
        push_decimal(&mut entry, hand.spades as u64);
        entry.append(",\"final_C\":");
        push_decimal(&mut entry, hand.clubs as u64);
        entry.append(",\"final_H\":");
        push_decimal(&mut entry, hand.hearts as u64);
        entry.append(",\"final_D\":");
        push_decimal(&mut entry, hand.diamonds as u64);
        entry.append(",\"initial_points\":");
        push_signed(&mut entry, before);
        entry.append(",\"final_points\":");
        push_signed(&mut entry, after);
        entry.append(",\"pnl\":");
        push_signed(&mut entry, after - before);
        entry.append("}");
        entries.push(entry);
    }
    assert(texts(entries@) =~= Seq::new(
        players@.len(),
        |i: int|
            result_entry(
                players@[i],
                hand_at(hands@, players@[i]),
                points_at(initial@, players@[i]),
                points_at(end@, players@[i]),
            ),
    ));
    join_with_commas(&entries)
}

} // verus!
