//! The records of the log as JSON objects: which fields each has, and which values.

use vstd::prelude::*;

use super::cancel_all_line;
use super::deal_line;
use super::gains_fit;
use super::hand_at;
use super::hand_entry;
use super::header_line;
use super::names_text;
use super::points_at;
use super::quote_line;
use super::rejected_line;
use super::result_entry;
use super::round_end_line;
use super::round_start_line;
use super::trade_line;
use crate::json::lemma_few_fields;
use crate::json::list;
use crate::json::object;
use crate::json::raw_field;
use crate::json::text_field;
use crate::models::Card;
use crate::models::Inventory;
use crate::player::PlayerName;
use crate::player::external::name_text;
use crate::player::external::suit_text;
use crate::player::objects::lemma_seats;
use crate::player::objects::seat_objects;
use crate::text::comma_joined;
use crate::text::decimal;
use crate::text::signed_decimal;

verus! {

/// A hand without cards.
pub open spec fn no_cards() -> Inventory {
    Inventory { spades: 0, clubs: 0, diamonds: 0, hearts: 0 }
}

/// A player and the cards of each suit, as an object.
pub open spec fn hand_object(name: PlayerName, hand: Inventory) -> Seq<char> {
    object(
        seq![
            text_field("player"@, name_text(name)),
            raw_field("S"@, decimal(hand.spades as nat)),
            raw_field("C"@, decimal(hand.clubs as nat)),
            raw_field("H"@, decimal(hand.hearts as nat)),
            raw_field("D"@, decimal(hand.diamonds as nat)),
        ],
    )
}

/// The players with their places, as objects.
pub open spec fn player_objects(players: Seq<PlayerName>) -> Seq<Seq<char>> {
    Seq::new(
        players.len(),
        |i: int|
            object(
                seq![
                    raw_field("idx"@, decimal(i as nat)),
                    text_field("name"@, name_text(players[i])),
                ],
            ),
    )
}

/// The cards of each suit in a deck, as an object.
pub open spec fn counts_object(counts: Inventory) -> Seq<char> {
    object(
        seq![
            raw_field("S"@, decimal(counts.spades as nat)),
            raw_field("C"@, decimal(counts.clubs as nat)),
            raw_field("H"@, decimal(counts.hearts as nat)),
            raw_field("D"@, decimal(counts.diamonds as nat)),
        ],
    )
}

/// The text of the make-up of a deck.
spec fn counts_text(counts: Inventory) -> Seq<char> {
    "{\"S\":"@ + decimal(counts.spades as nat) + ",\"C\":"@ + decimal(counts.clubs as nat)
        + ",\"H\":"@ + decimal(counts.hearts as nat) + ",\"D\":"@ + decimal(
        counts.diamonds as nat,
    ) + "}"@
}

/// The text of a deal, from the texts of its parts.
spec fn deal_text(
    t: Seq<char>,
    common: Seq<char>,
    goal: Seq<char>,
    counts: Seq<char>,
    items: Seq<Seq<char>>,
) -> Seq<char> {
    "{\"t\":"@ + t + ",\"type\":\"deal\",\"common_suit\":\""@ + common
        + "\",\"goal_suit\":\""@ + goal + "\",\"counts\":"@ + counts + ",\"hands\":["@
        + comma_joined(items) + "]}"@
}

/// The make-up of the deck stands in the line for a deal.
proof fn lemma_counts_apart(start: Seq<char>, counts: Inventory)
    ensures
        start + "\",\"counts\":{\"S\":"@ + decimal(counts.spades as nat) + ",\"C\":"@ + decimal(
            counts.clubs as nat,
        ) + ",\"H\":"@ + decimal(counts.hearts as nat) + ",\"D\":"@ + decimal(
            counts.diamonds as nat,
        ) + "},\"hands\":["@ == start + "\",\"counts\":"@ + counts_text(counts) + ",\"hands\":["@,
{
    reveal_strlit("\",\"counts\":{\"S\":");
    reveal_strlit("\",\"counts\":");
    reveal_strlit("{\"S\":");
    reveal_strlit("},\"hands\":[");
    reveal_strlit("}");
    reveal_strlit(",\"hands\":[");
    assert(start + "\",\"counts\":{\"S\":"@ + decimal(counts.spades as nat) + ",\"C\":"@ + decimal(
        counts.clubs as nat,
    ) + ",\"H\":"@ + decimal(counts.hearts as nat) + ",\"D\":"@ + decimal(
        counts.diamonds as nat,
    ) + "},\"hands\":["@ =~= start + "\",\"counts\":"@ + counts_text(counts)
        + ",\"hands\":["@);
}

/// The hands of all players as objects. A hand that is not on record is empty.
pub open spec fn hand_objects(
    players: Seq<PlayerName>,
    hands: Map<PlayerName, Inventory>,
) -> Seq<Seq<char>> {
    Seq::new(
        players.len(),
        |i: int|
            hand_object(
                players[i],
                if hands.contains_key(players[i]) {
                    hands[players[i]]
                } else {
                    no_cards()
                },
            ),
    )
}

/// A player, the last hand, and the points before and after a round with their difference, as an
/// object.
pub open spec fn result_object(
    name: PlayerName,
    hand: Inventory,
    initial: usize,
    end: usize,
) -> Seq<char> {
    object(
        seq![
            text_field("player"@, name_text(name)),
            raw_field("final_S"@, decimal(hand.spades as nat)),
            raw_field("final_C"@, decimal(hand.clubs as nat)),
            raw_field("final_H"@, decimal(hand.hearts as nat)),
            raw_field("final_D"@, decimal(hand.diamonds as nat)),
            raw_field("initial_points"@, signed_decimal((initial as i64) as int)),
            raw_field("final_points"@, signed_decimal((end as i64) as int)),
            raw_field("pnl"@, signed_decimal((end as i64) - (initial as i64))),
        ],
    )
}

/// The results of all players as objects. What is not on record counts as nothing.
pub open spec fn result_objects(
    players: Seq<PlayerName>,
    hands: Map<PlayerName, Inventory>,
    initial: Map<PlayerName, usize>,
    end: Map<PlayerName, usize>,
) -> Seq<Seq<char>> {
    Seq::new(
        players.len(),
        |i: int|
            result_object(
                players[i],
                if hands.contains_key(players[i]) {
                    hands[players[i]]
                } else {
                    no_cards()
                },
                if initial.contains_key(players[i]) {
                    initial[players[i]]
                } else {
                    0
                },
                if end.contains_key(players[i]) {
                    end[players[i]]
                } else {
                    0
                },
            ),
    )
}

/// The first line is an object with the game and the seed.
pub proof fn law_header_is_an_object(game_id: u64, seed: u64)
    ensures
        header_line(game_id, seed) == object(
            seq![
                text_field("type"@, "header"@),
                raw_field("game_id"@, decimal(game_id as nat)),
                raw_field("seed"@, decimal(seed as nat)),
                raw_field("schema"@, "1"@),
            ],
        ),
{
    let fields = seq![
        text_field("type"@, "header"@),
        raw_field("game_id"@, decimal(game_id as nat)),
        raw_field("seed"@, decimal(seed as nat)),
        raw_field("schema"@, "1"@),
    ];
    lemma_few_fields(fields);
    reveal_strlit("\"");
    reveal_strlit("\":");
    reveal_strlit("\":\"");
    reveal_strlit(",");
    reveal_strlit(",\"schema\":1}");
    reveal_strlit(",\"seed\":");
    reveal_strlit("1");
    reveal_strlit("game_id");
    reveal_strlit("header");
    reveal_strlit("schema");
    reveal_strlit("seed");
    reveal_strlit("type");
    reveal_strlit("{");
    reveal_strlit("{\"type\":\"header\",\"game_id\":");
    reveal_strlit("}");
    assert(header_line(game_id, seed) =~= object(fields));
}

/// The text of the object, whatever the values are.
proof fn lemma_round_start_text(
    v0: Seq<char>,
    v1: Seq<char>,
    v2: Seq<char>,
    v3: Seq<char>,
    items: Seq<Seq<char>>,
)
    ensures
        "{\"t\":"@ + v0 + ",\"type\":\"round_start\",\"round\":"@ + v1 + ",\"ante\":"@ + v2
            + ",\"pot\":"@ + v3 + ",\"players\":["@ + comma_joined(items) + "]}"@ == object(
            seq![
                raw_field("t"@, v0),
                text_field("type"@, "round_start"@),
                raw_field("round"@, v1),
                raw_field("ante"@, v2),
                raw_field("pot"@, v3),
                raw_field("players"@, list(items)),
            ],
        ),
{
    let fields = seq![
        raw_field("t"@, v0),
        text_field("type"@, "round_start"@),
        raw_field("round"@, v1),
        raw_field("ante"@, v2),
        raw_field("pot"@, v3),
        raw_field("players"@, list(items)),
    ];
    lemma_few_fields(fields);
    reveal_strlit("\"");
    reveal_strlit("\":");
    reveal_strlit("\":\"");
    reveal_strlit(",");
    reveal_strlit(",\"ante\":");
    reveal_strlit(",\"players\":[");
    reveal_strlit(",\"pot\":");
    reveal_strlit(",\"type\":\"round_start\",\"round\":");
    reveal_strlit("[");
    reveal_strlit("]");
    reveal_strlit("]}");
    reveal_strlit("ante");
    reveal_strlit("players");
    reveal_strlit("pot");
    reveal_strlit("round");
    reveal_strlit("round_start");
    reveal_strlit("t");
    reveal_strlit("type");
    reveal_strlit("{");
    reveal_strlit("{\"t\":");
    reveal_strlit("}");
    assert(
        "{\"t\":"@ + v0 + ",\"type\":\"round_start\",\"round\":"@ + v1 + ",\"ante\":"@ + v2
            + ",\"pot\":"@ + v3 + ",\"players\":["@ + comma_joined(items) + "]}"@ =~= object(fields)
    );
}

/// The line for the start of a round is an object with the round, the ante, the pot, and the
/// players with their places.
pub proof fn law_round_start_is_an_object(
    t: Seq<char>,
    round: u32,
    ante: usize,
    pot: usize,
    players: Seq<PlayerName>,
)
    ensures
        round_start_line(t, round, ante, pot, players) == object(
            seq![
                raw_field("t"@, t),
                text_field("type"@, "round_start"@),
                raw_field("round"@, decimal(round as nat)),
                raw_field("ante"@, decimal(ante as nat)),
                raw_field("pot"@, decimal(pot as nat)),
                raw_field("players"@, list(player_objects(players))),
            ],
        ),
{
    lemma_seats(names_text(players));
    assert(player_objects(players) =~= seat_objects(names_text(players)));
    lemma_round_start_text(
        t,
        decimal(round as nat),
        decimal(ante as nat),
        decimal(pot as nat),
        player_objects(players),
    );
}

/// The text of the object, whatever the values are.
proof fn lemma_hand_text(v0: Seq<char>, v1: Seq<char>, v2: Seq<char>, v3: Seq<char>, v4: Seq<char>)
    ensures
        "{\"player\":\""@ + v0 + "\",\"S\":"@ + v1 + ",\"C\":"@ + v2 + ",\"H\":"@ + v3 + ",\"D\":"@
            + v4 + "}"@ == object(
            seq![
                text_field("player"@, v0),
                raw_field("S"@, v1),
                raw_field("C"@, v2),
                raw_field("H"@, v3),
                raw_field("D"@, v4),
            ],
        ),
{
    let fields = seq![
        text_field("player"@, v0),
        raw_field("S"@, v1),
        raw_field("C"@, v2),
        raw_field("H"@, v3),
        raw_field("D"@, v4),
    ];
    lemma_few_fields(fields);
    reveal_strlit("\"");
    reveal_strlit("\",\"S\":");
    reveal_strlit("\":");
    reveal_strlit("\":\"");
    reveal_strlit(",");
    reveal_strlit(",\"C\":");
    reveal_strlit(",\"D\":");
    reveal_strlit(",\"H\":");
    reveal_strlit("C");
    reveal_strlit("D");
    reveal_strlit("H");
    reveal_strlit("S");
    reveal_strlit("player");
    reveal_strlit("{");
    reveal_strlit("{\"player\":\"");
    reveal_strlit("}");
    assert(
        "{\"player\":\""@ + v0 + "\",\"S\":"@ + v1 + ",\"C\":"@ + v2 + ",\"H\":"@ + v3 + ",\"D\":"@
            + v4 + "}"@ =~= object(fields)
    );
}

/// The entry of a hand is an object with the player and the cards of each suit.
pub proof fn law_hand_is_an_object(name: PlayerName, hand: Inventory)
    ensures
        hand_entry(name, hand) == object(
            seq![
                text_field("player"@, name_text(name)),
                raw_field("S"@, decimal(hand.spades as nat)),
                raw_field("C"@, decimal(hand.clubs as nat)),
                raw_field("H"@, decimal(hand.hearts as nat)),
                raw_field("D"@, decimal(hand.diamonds as nat)),
            ],
        ),
{
    lemma_hand_text(
        name_text(name),
        decimal(hand.spades as nat),
        decimal(hand.clubs as nat),
        decimal(hand.hearts as nat),
        decimal(hand.diamonds as nat),
    );
}

/// The make-up of a deck is an object with the cards of each suit.
#[verifier::rlimit(60)]
proof fn lemma_counts(counts: Inventory)
    ensures
        counts_text(counts) == object(
            seq![
                raw_field("S"@, decimal(counts.spades as nat)),
                raw_field("C"@, decimal(counts.clubs as nat)),
                raw_field("H"@, decimal(counts.hearts as nat)),
                raw_field("D"@, decimal(counts.diamonds as nat)),
            ],
        ),
{
    let fields = seq![
        raw_field("S"@, decimal(counts.spades as nat)),
        raw_field("C"@, decimal(counts.clubs as nat)),
        raw_field("H"@, decimal(counts.hearts as nat)),
        raw_field("D"@, decimal(counts.diamonds as nat)),
    ];
    lemma_few_fields(fields);
    reveal_strlit("\"");
    reveal_strlit("\":");
    reveal_strlit(",");
    reveal_strlit(",\"C\":");
    reveal_strlit(",\"D\":");
    reveal_strlit(",\"H\":");
    reveal_strlit("C");
    reveal_strlit("D");
    reveal_strlit("H");
    reveal_strlit("S");
    reveal_strlit("{");
    reveal_strlit("{\"S\":");
    reveal_strlit("}");
    assert(counts_text(counts) =~= object(fields));
}

/// The line for a deal, whatever the make-up and the hands are, is an object.
#[verifier::rlimit(60)]
proof fn lemma_deal_text(
    t: Seq<char>,
    common: Seq<char>,
    goal: Seq<char>,
    counts: Seq<char>,
    items: Seq<Seq<char>>,
)
    ensures
        deal_text(t, common, goal, counts, items) == object(
            seq![
                raw_field("t"@, t),
                text_field("type"@, "deal"@),
                text_field("common_suit"@, common),
                text_field("goal_suit"@, goal),
                raw_field("counts"@, counts),
                raw_field("hands"@, list(items)),
            ],
        ),
{
    let fields = seq![
        raw_field("t"@, t),
        text_field("type"@, "deal"@),
        text_field("common_suit"@, common),
        text_field("goal_suit"@, goal),
        raw_field("counts"@, counts),
        raw_field("hands"@, list(items)),
    ];
    lemma_few_fields(fields);
    reveal_strlit("\"");
    reveal_strlit("\",\"counts\":");
    reveal_strlit("\",\"goal_suit\":\"");
    reveal_strlit("\":");
    reveal_strlit("\":\"");
    reveal_strlit(",");
    reveal_strlit(",\"hands\":[");
    reveal_strlit(",\"type\":\"deal\",\"common_suit\":\"");
    reveal_strlit("[");
    reveal_strlit("]");
    reveal_strlit("]}");
    reveal_strlit("common_suit");
    reveal_strlit("counts");
    reveal_strlit("deal");
    reveal_strlit("goal_suit");
    reveal_strlit("hands");
    reveal_strlit("t");
    reveal_strlit("type");
    reveal_strlit("{");
    reveal_strlit("{\"t\":");
    reveal_strlit("}");
    assert(deal_text(t, common, goal, counts, items) =~= object(fields));
}

/// The line for a deal is an object with the two suits, the make-up of the deck, and every
/// player's hand, which is empty where none is on record.
pub proof fn law_deal_is_an_object(
    t: Seq<char>,
    players: Seq<PlayerName>,
    hands: Map<PlayerName, Inventory>,
    common_suit: Card,
    goal_suit: Card,
    counts: Inventory,
)
    ensures
        deal_line(t, players, hands, common_suit, goal_suit, counts) == object(
            seq![
                raw_field("t"@, t),
                text_field("type"@, "deal"@),
                text_field("common_suit"@, suit_text(common_suit)),
                text_field("goal_suit"@, suit_text(goal_suit)),
                raw_field("counts"@, counts_object(counts)),
                raw_field("hands"@, list(hand_objects(players, hands))),
            ],
        ),
{
    let entries = Seq::new(
        players.len(),
        |i: int| hand_entry(players[i], hand_at(hands, players[i])),
    );
    assert forall|i: int| 0 <= i < players.len() implies entries[i] == #[trigger] hand_objects(
        players,
        hands,
    )[i] by {
        law_hand_is_an_object(players[i], hand_at(hands, players[i]));
    }
    assert(hand_objects(players, hands) =~= entries);
    let start = "{\"t\":"@ + t + ",\"type\":\"deal\",\"common_suit\":\""@ + suit_text(common_suit)
        + "\",\"goal_suit\":\""@ + suit_text(goal_suit);
    lemma_counts(counts);
    lemma_counts_apart(start, counts);
    lemma_deal_text(
        t,
        suit_text(common_suit),
        suit_text(goal_suit),
        counts_text(counts),
        hand_objects(players, hands),
    );
}

/// The text of the object, whatever the values are.
proof fn lemma_quote_text(v0: Seq<char>, v1: Seq<char>, v2: Seq<char>, v3: Seq<char>, v4: Seq<char>)
    ensures
        "{\"t\":"@ + v0 + ",\"type\":\""@ + v1 + "\",\"player\":\""@ + v2 + "\",\"suit\":\""@ + v3
            + "\",\"price\":"@ + v4 + "}"@ == object(
            seq![
                raw_field("t"@, v0),
                text_field("type"@, v1),
                text_field("player"@, v2),
                text_field("suit"@, v3),
                raw_field("price"@, v4),
            ],
        ),
{
    let fields = seq![
        raw_field("t"@, v0),
        text_field("type"@, v1),
        text_field("player"@, v2),
        text_field("suit"@, v3),
        raw_field("price"@, v4),
    ];
    lemma_few_fields(fields);
    reveal_strlit("\"");
    reveal_strlit("\",\"player\":\"");
    reveal_strlit("\",\"price\":");
    reveal_strlit("\",\"suit\":\"");
    reveal_strlit("\":");
    reveal_strlit("\":\"");
    reveal_strlit(",");
    reveal_strlit(",\"type\":\"");
    reveal_strlit("player");
    reveal_strlit("price");
    reveal_strlit("suit");
    reveal_strlit("t");
    reveal_strlit("type");
    reveal_strlit("{");
    reveal_strlit("{\"t\":");
    reveal_strlit("}");
    assert(
        "{\"t\":"@ + v0 + ",\"type\":\""@ + v1 + "\",\"player\":\""@ + v2 + "\",\"suit\":\""@ + v3
            + "\",\"price\":"@ + v4 + "}"@ =~= object(fields)
    );
}

/// The line for a quote is an object with the side as its type, the player, the suit and the price.
pub proof fn law_quote_is_an_object(
    t: Seq<char>,
    side: Seq<char>,
    player: PlayerName,
    card: Card,
    price: usize,
)
    ensures
        quote_line(t, side, player, card, price) == object(
            seq![
                raw_field("t"@, t),
                text_field("type"@, side),
                text_field("player"@, name_text(player)),
                text_field("suit"@, suit_text(card)),
                raw_field("price"@, decimal(price as nat)),
            ],
        ),
{
    lemma_quote_text(t, side, name_text(player), suit_text(card), decimal(price as nat));
}

/// The text of the object, whatever the values are.
proof fn lemma_rejection_text(v0: Seq<char>, v1: Seq<char>, v2: Seq<char>, v3: Seq<char>)
    ensures
        "{\"t\":"@ + v0 + ",\"type\":\"order_rejected\",\"player\":\""@ + v1 + "\",\"suit\":\""@
            + v2 + "\",\"reason\":\""@ + v3 + "\"}"@ == object(
            seq![
                raw_field("t"@, v0),
                text_field("type"@, "order_rejected"@),
                text_field("player"@, v1),
                text_field("suit"@, v2),
                text_field("reason"@, v3),
            ],
        ),
{
    let fields = seq![
        raw_field("t"@, v0),
        text_field("type"@, "order_rejected"@),
        text_field("player"@, v1),
        text_field("suit"@, v2),
        text_field("reason"@, v3),
    ];
    lemma_few_fields(fields);
    reveal_strlit("\"");
    reveal_strlit("\",\"reason\":\"");
    reveal_strlit("\",\"suit\":\"");
    reveal_strlit("\":");
    reveal_strlit("\":\"");
    reveal_strlit("\"}");
    reveal_strlit(",");
    reveal_strlit(",\"type\":\"order_rejected\",\"player\":\"");
    reveal_strlit("order_rejected");
    reveal_strlit("player");
    reveal_strlit("reason");
    reveal_strlit("suit");
    reveal_strlit("t");
    reveal_strlit("type");
    reveal_strlit("{");
    reveal_strlit("{\"t\":");
    reveal_strlit("}");
    assert(
        "{\"t\":"@ + v0 + ",\"type\":\"order_rejected\",\"player\":\""@ + v1 + "\",\"suit\":\""@
            + v2 + "\",\"reason\":\""@ + v3 + "\"}"@ =~= object(fields)
    );
}

/// The line for a rejected order is an object with the player, the suit and the reason.
pub proof fn law_rejection_is_an_object(
    t: Seq<char>,
    player: PlayerName,
    card: Card,
    reason: Seq<char>,
)
    ensures
        rejected_line(t, player, card, reason) == object(
            seq![
                raw_field("t"@, t),
                text_field("type"@, "order_rejected"@),
                text_field("player"@, name_text(player)),
                text_field("suit"@, suit_text(card)),
                text_field("reason"@, reason),
            ],
        ),
{
    lemma_rejection_text(t, name_text(player), suit_text(card), reason);
}

/// The text of the object, whatever the values are.
proof fn lemma_trade_text(v0: Seq<char>, v1: Seq<char>, v2: Seq<char>, v3: Seq<char>, v4: Seq<char>)
    ensures
        "{\"t\":"@ + v0 + ",\"type\":\"trade\",\"suit\":\""@ + v1 + "\",\"price\":"@ + v2
            + ",\"buyer\":\""@ + v3 + "\",\"seller\":\""@ + v4 + "\"}"@ == object(
            seq![
                raw_field("t"@, v0),
                text_field("type"@, "trade"@),
                text_field("suit"@, v1),
                raw_field("price"@, v2),
                text_field("buyer"@, v3),
                text_field("seller"@, v4),
            ],
        ),
{
    let fields = seq![
        raw_field("t"@, v0),
        text_field("type"@, "trade"@),
        text_field("suit"@, v1),
        raw_field("price"@, v2),
        text_field("buyer"@, v3),
        text_field("seller"@, v4),
    ];
    lemma_few_fields(fields);
    reveal_strlit("\"");
    reveal_strlit("\",\"price\":");
    reveal_strlit("\",\"seller\":\"");
    reveal_strlit("\":");
    reveal_strlit("\":\"");
    reveal_strlit("\"}");
    reveal_strlit(",");
    reveal_strlit(",\"buyer\":\"");
    reveal_strlit(",\"type\":\"trade\",\"suit\":\"");
    reveal_strlit("buyer");
    reveal_strlit("price");
    reveal_strlit("seller");
    reveal_strlit("suit");
    reveal_strlit("t");
    reveal_strlit("trade");
    reveal_strlit("type");
    reveal_strlit("{");
    reveal_strlit("{\"t\":");
    reveal_strlit("}");
    assert(
        "{\"t\":"@ + v0 + ",\"type\":\"trade\",\"suit\":\""@ + v1 + "\",\"price\":"@ + v2
            + ",\"buyer\":\""@ + v3 + "\",\"seller\":\""@ + v4 + "\"}"@ =~= object(fields)
    );
}

/// The line for a trade is an object with the suit, the price, the buyer and the seller.
pub proof fn law_trade_is_an_object(
    t: Seq<char>,
    card: Card,
    price: usize,
    buyer: PlayerName,
    seller: PlayerName,
)
    ensures
        trade_line(t, card, price, buyer, seller) == object(
            seq![
                raw_field("t"@, t),
                text_field("type"@, "trade"@),
                text_field("suit"@, suit_text(card)),
                raw_field("price"@, decimal(price as nat)),
                text_field("buyer"@, name_text(buyer)),
                text_field("seller"@, name_text(seller)),
            ],
        ),
{
    lemma_trade_text(
        t,
        suit_text(card),
        decimal(price as nat),
        name_text(buyer),
        name_text(seller),
    );
}

/// The line that all quotes are withdrawn is an object with the time alone.
pub proof fn law_cancel_all_is_an_object(t: Seq<char>)
    ensures
        cancel_all_line(t) == object(
            seq![
                raw_field("t"@, t),
                text_field("type"@, "cancel_all"@),
            ],
        ),
{
    let fields = seq![
        raw_field("t"@, t),
        text_field("type"@, "cancel_all"@),
    ];
    lemma_few_fields(fields);
    reveal_strlit("\"");
    reveal_strlit("\":");
    reveal_strlit("\":\"");
    reveal_strlit(",");
    reveal_strlit(",\"type\":\"cancel_all\"}");
    reveal_strlit("cancel_all");
    reveal_strlit("t");
    reveal_strlit("type");
    reveal_strlit("{");
    reveal_strlit("{\"t\":");
    reveal_strlit("}");
    assert(cancel_all_line(t) =~= object(fields));
}

/// The text of the object, whatever the values are.
#[verifier::rlimit(60)]
proof fn lemma_result_text(
    v0: Seq<char>,
    v1: Seq<char>,
    v2: Seq<char>,
    v3: Seq<char>,
    v4: Seq<char>,
    v5: Seq<char>,
    v6: Seq<char>,
    v7: Seq<char>,
)
    ensures
        "{\"player\":\""@ + v0 + "\",\"final_S\":"@ + v1 + ",\"final_C\":"@ + v2 + ",\"final_H\":"@
            + v3 + ",\"final_D\":"@ + v4 + ",\"initial_points\":"@ + v5 + ",\"final_points\":"@ + v6
            + ",\"pnl\":"@ + v7 + "}"@ == object(
            seq![
                text_field("player"@, v0),
                raw_field("final_S"@, v1),
                raw_field("final_C"@, v2),
                raw_field("final_H"@, v3),
                raw_field("final_D"@, v4),
                raw_field("initial_points"@, v5),
                raw_field("final_points"@, v6),
                raw_field("pnl"@, v7),
            ],
        ),
{
    let fields = seq![
        text_field("player"@, v0),
        raw_field("final_S"@, v1),
        raw_field("final_C"@, v2),
        raw_field("final_H"@, v3),
        raw_field("final_D"@, v4),
        raw_field("initial_points"@, v5),
        raw_field("final_points"@, v6),
        raw_field("pnl"@, v7),
    ];
    lemma_few_fields(fields);
    reveal_strlit("\"");
    reveal_strlit("\",\"final_S\":");
    reveal_strlit("\":");
    reveal_strlit("\":\"");
    reveal_strlit(",");
    reveal_strlit(",\"final_C\":");
    reveal_strlit(",\"final_D\":");
    reveal_strlit(",\"final_H\":");
    reveal_strlit(",\"final_points\":");
    reveal_strlit(",\"initial_points\":");
    reveal_strlit(",\"pnl\":");
    reveal_strlit("final_C");
    reveal_strlit("final_D");
    reveal_strlit("final_H");
    reveal_strlit("final_S");
    reveal_strlit("final_points");
    reveal_strlit("initial_points");
    reveal_strlit("player");
    reveal_strlit("pnl");
    reveal_strlit("{");
    reveal_strlit("{\"player\":\"");
    reveal_strlit("}");
    assert(
        "{\"player\":\""@ + v0 + "\",\"final_S\":"@ + v1 + ",\"final_C\":"@ + v2 + ",\"final_H\":"@
            + v3 + ",\"final_D\":"@ + v4 + ",\"initial_points\":"@ + v5 + ",\"final_points\":"@ + v6
            + ",\"pnl\":"@ + v7 + "}"@ =~= object(fields)
    );
}

/// The entry of a result is an object with the player, the last hand, the points before and after
/// the round, and their difference.
pub proof fn law_result_is_an_object(name: PlayerName, hand: Inventory, initial: usize, end: usize)
    ensures
        result_entry(name, hand, initial, end) == object(
            seq![
                text_field("player"@, name_text(name)),
                raw_field("final_S"@, decimal(hand.spades as nat)),
                raw_field("final_C"@, decimal(hand.clubs as nat)),
                raw_field("final_H"@, decimal(hand.hearts as nat)),
                raw_field("final_D"@, decimal(hand.diamonds as nat)),
                raw_field("initial_points"@, signed_decimal((initial as i64) as int)),
                raw_field("final_points"@, signed_decimal((end as i64) as int)),
                raw_field("pnl"@, signed_decimal((end as i64) - (initial as i64))),
            ],
        ),
{
    lemma_result_text(
        name_text(name),
        decimal(hand.spades as nat),
        decimal(hand.clubs as nat),
        decimal(hand.hearts as nat),
        decimal(hand.diamonds as nat),
        signed_decimal((initial as i64) as int),
        signed_decimal((end as i64) as int),
        signed_decimal((end as i64) - (initial as i64)),
    );
}

/// The text of the object, whatever the values are.
proof fn lemma_round_end_text(v0: Seq<char>, v1: Seq<char>, v2: Seq<char>, items: Seq<Seq<char>>)
    ensures
        "{\"t\":"@ + v0 + ",\"type\":\"round_end\",\"goal_suit\":\""@ + v1
            + "\",\"common_suit\":\""@ + v2 + "\",\"results\":["@ + comma_joined(items) + "]}"@
            == object(
            seq![
                raw_field("t"@, v0),
                text_field("type"@, "round_end"@),
                text_field("goal_suit"@, v1),
                text_field("common_suit"@, v2),
                raw_field("results"@, list(items)),
            ],
        ),
{
    let fields = seq![
        raw_field("t"@, v0),
        text_field("type"@, "round_end"@),
        text_field("goal_suit"@, v1),
        text_field("common_suit"@, v2),
        raw_field("results"@, list(items)),
    ];
    lemma_few_fields(fields);
    reveal_strlit("\"");
    reveal_strlit("\",\"common_suit\":\"");
    reveal_strlit("\",\"results\":[");
    reveal_strlit("\":");
    reveal_strlit("\":\"");
    reveal_strlit(",");
    reveal_strlit(",\"type\":\"round_end\",\"goal_suit\":\"");
    reveal_strlit("[");
    reveal_strlit("]");
    reveal_strlit("]}");
    reveal_strlit("common_suit");
    reveal_strlit("goal_suit");
    reveal_strlit("results");
    reveal_strlit("round_end");
    reveal_strlit("t");
    reveal_strlit("type");
    reveal_strlit("{");
    reveal_strlit("{\"t\":");
    reveal_strlit("}");
    assert(
        "{\"t\":"@ + v0 + ",\"type\":\"round_end\",\"goal_suit\":\""@ + v1
            + "\",\"common_suit\":\""@ + v2 + "\",\"results\":["@ + comma_joined(items) + "]}"@
            =~= object(fields)
    );
}

/// The line for the end of a round is an object with the two suits and every player's result; what
/// is not on record counts as nothing.
pub proof fn law_round_end_is_an_object(
    t: Seq<char>,
    players: Seq<PlayerName>,
    goal_suit: Card,
    common_suit: Card,
    hands: Map<PlayerName, Inventory>,
    initial: Map<PlayerName, usize>,
    end: Map<PlayerName, usize>,
)
    ensures
        round_end_line(t, players, goal_suit, common_suit, hands, initial, end) == object(
            seq![
                raw_field("t"@, t),
                text_field("type"@, "round_end"@),
                text_field("goal_suit"@, suit_text(goal_suit)),
                text_field("common_suit"@, suit_text(common_suit)),
                raw_field("results"@, list(result_objects(players, hands, initial, end))),
            ],
        ),
{
    let entries = Seq::new(
        players.len(),
        |i: int| result_entry(
            players[i],
            hand_at(hands, players[i]),
            points_at(initial, players[i]),
            points_at(end, players[i]),
        ),
    );
    assert forall|i: int| 0 <= i < players.len() implies entries[i] == #[trigger] result_objects(
        players,
        hands,
        initial,
        end,
    )[i] by {
        law_result_is_an_object(
            players[i],
            hand_at(hands, players[i]),
            points_at(initial, players[i]),
            points_at(end, players[i]),
        );
    }
    assert(result_objects(players, hands, initial, end) =~= entries);
    lemma_round_end_text(
        t,
        suit_text(goal_suit),
        suit_text(common_suit),
        result_objects(players, hands, initial, end),
    );
}

/// A round can be logged where every player's points after it, less those before, are a 64-bit
/// number; points that are not on record count as none.
pub proof fn law_which_gains_can_be_logged(
    players: Seq<PlayerName>,
    initial: Map<PlayerName, usize>,
    end: Map<PlayerName, usize>,
)
    ensures
        gains_fit(players, initial, end) <==> forall|i: int|
            0 <= i < players.len() ==> {
                let before: usize = if initial.contains_key(#[trigger] players[i]) {
                    initial[players[i]]
                } else {
                    0
                };
                let after: usize = if end.contains_key(players[i]) {
                    end[players[i]]
                } else {
                    0
                };
                i64::MIN <= (after as i64) - (before as i64) <= i64::MAX
            },
{
}

} // verus!
