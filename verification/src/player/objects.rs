//! The messages to the bot as JSON objects: which fields each has, and which values.

use vstd::prelude::*;

use super::external::SidecarMsg;
use super::external::seat_entry;
use super::external::seat_list;
use crate::json::law_joined_with_commas;
use crate::json::lemma_few_fields;
use crate::json::list;
use crate::json::object;
use crate::json::raw_field;
use crate::json::text_field;
use crate::text::comma_joined;
use crate::text::decimal;
use crate::text::texts;

verus! {

/// The players in a list as objects with their places and names.
pub open spec fn seat_objects(names: Seq<Seq<char>>) -> Seq<Seq<char>> {
    Seq::new(
        names.len(),
        |i: int| object(seq![raw_field("idx"@, decimal(i as nat)), text_field("name"@, names[i])]),
    )
}

/// A list of players is their objects in a row.
pub proof fn lemma_seats(names: Seq<Seq<char>>)
    ensures
        comma_joined(seat_objects(names)) == seat_list(names),
{
    let entries = Seq::new(names.len(), |i: int| seat_entry(i as nat, names[i]));
    assert forall|i: int| 0 <= i < names.len() implies entries[i] == #[trigger] seat_objects(
        names,
    )[i] by {
        law_seat_is_an_object(i as nat, names[i]);
    }
    assert(entries =~= seat_objects(names));
}

/// The entry of the bot's hand.
spec fn bot_hand(s: usize, c: usize, h: usize, d: usize) -> Seq<char> {
    "{\"player\":\"External\",\"S\":"@ + decimal(s as nat) + ",\"C\":"@ + decimal(c as nat)
        + ",\"H\":"@ + decimal(h as nat) + ",\"D\":"@ + decimal(d as nat) + "}"@
}

/// The message for a deal holds the entry of the bot's hand.
proof fn lemma_deal_json(s: usize, c: usize, h: usize, d: usize)
    ensures
        (SidecarMsg::Deal { s, c, h, d })@.json() == "{\"type\":\"deal\",\"hands\":["@ + bot_hand(
            s,
            c,
            h,
            d,
        ) + "]}"@,
{
    reveal_strlit("{\"type\":\"deal\",\"hands\":[{\"player\":\"External\",\"S\":");
    reveal_strlit("{\"type\":\"deal\",\"hands\":[");
    reveal_strlit("{\"player\":\"External\",\"S\":");
    reveal_strlit("}]}");
    reveal_strlit("}");
    reveal_strlit("]}");
    assert((SidecarMsg::Deal { s, c, h, d })@.json() =~= "{\"type\":\"deal\",\"hands\":["@
        + bot_hand(s, c, h, d) + "]}"@);
}

/// The entry of a player in a list is an object with the place and the name.
pub proof fn law_seat_is_an_object(place: nat, name: Seq<char>)
    ensures
        seat_entry(place, name) == object(
            seq![
                raw_field("idx"@, decimal(place)),
                text_field("name"@, name),
            ],
        ),
{
    let fields = seq![
        raw_field("idx"@, decimal(place)),
        text_field("name"@, name),
    ];
    lemma_few_fields(fields);
    reveal_strlit("\"");
    reveal_strlit("\":");
    reveal_strlit("\":\"");
    reveal_strlit("\"}");
    reveal_strlit(",");
    reveal_strlit(",\"name\":\"");
    reveal_strlit("idx");
    reveal_strlit("name");
    reveal_strlit("{");
    reveal_strlit("{\"idx\":");
    reveal_strlit("}");
    assert(seat_entry(place, name) =~= object(fields));
}

/// The message for the start of a round is an object with the players and the bot's place.
pub proof fn law_round_start_message(players: Vec<String>, bot_index: usize)
    ensures
        (SidecarMsg::RoundStart { players, bot_index })@.json() == object(
            seq![
                text_field("type"@, "round_start"@),
                raw_field("players"@, list(seat_objects(texts(players@)))),
                raw_field("bot_index"@, decimal(bot_index as nat)),
            ],
        ),
{
    lemma_seats(texts(players@));
    let fields = seq![
        text_field("type"@, "round_start"@),
        raw_field("players"@, list(seat_objects(texts(players@)))),
        raw_field("bot_index"@, decimal(bot_index as nat)),
    ];
    lemma_few_fields(fields);
    reveal_strlit("\"");
    reveal_strlit("\":");
    reveal_strlit("\":\"");
    reveal_strlit(",");
    reveal_strlit("[");
    reveal_strlit("]");
    reveal_strlit("],\"bot_index\":");
    reveal_strlit("bot_index");
    reveal_strlit("players");
    reveal_strlit("round_start");
    reveal_strlit("type");
    reveal_strlit("{");
    reveal_strlit("{\"type\":\"round_start\",\"players\":[");
    reveal_strlit("}");
    assert((SidecarMsg::RoundStart { players, bot_index })@.json() =~= object(fields));
}

/// The bot's hand is an object with the bot's name and the cards of each suit.
#[verifier::rlimit(60)]
proof fn lemma_bot_hand(s: usize, c: usize, h: usize, d: usize)
    ensures
        bot_hand(s, c, h, d) == object(
            seq![
                text_field("player"@, "External"@),
                raw_field("S"@, decimal(s as nat)),
                raw_field("C"@, decimal(c as nat)),
                raw_field("H"@, decimal(h as nat)),
                raw_field("D"@, decimal(d as nat)),
            ],
        ),
{
    let fields = seq![
        text_field("player"@, "External"@),
        raw_field("S"@, decimal(s as nat)),
        raw_field("C"@, decimal(c as nat)),
        raw_field("H"@, decimal(h as nat)),
        raw_field("D"@, decimal(d as nat)),
    ];
    lemma_few_fields(fields);
    reveal_strlit("\"");
    reveal_strlit("\":");
    reveal_strlit("\":\"");
    reveal_strlit(",");
    reveal_strlit(",\"C\":");
    reveal_strlit(",\"D\":");
    reveal_strlit(",\"H\":");
    reveal_strlit("C");
    reveal_strlit("D");
    reveal_strlit("External");
    reveal_strlit("H");
    reveal_strlit("S");
    reveal_strlit("player");
    reveal_strlit("{");
    reveal_strlit("{\"player\":\"External\",\"S\":");
    reveal_strlit("}");
    assert(bot_hand(s, c, h, d) =~= object(fields));
}

/// The message for a deal is an object with the bot's hand.
pub proof fn law_deal_message(s: usize, c: usize, h: usize, d: usize)
    ensures
        (SidecarMsg::Deal { s, c, h, d })@.json() == object(
            seq![
                text_field("type"@, "deal"@),
                raw_field(
                    "hands"@,
                    list(
                        seq![
                            object(
                                seq![
                                    text_field("player"@, "External"@),
                                    raw_field("S"@, decimal(s as nat)),
                                    raw_field("C"@, decimal(c as nat)),
                                    raw_field("H"@, decimal(h as nat)),
                                    raw_field("D"@, decimal(d as nat)),
                                ]
                            )
                        ]
                    ),
                ),
            ],
        ),
{
    lemma_bot_hand(s, c, h, d);
    law_joined_with_commas(Seq::empty(), bot_hand(s, c, h, d));
    lemma_deal_json(s, c, h, d);
    let fields = seq![
        text_field("type"@, "deal"@),
        raw_field(
            "hands"@,
            list(
                seq![
                    object(
                        seq![
                            text_field("player"@, "External"@),
                            raw_field("S"@, decimal(s as nat)),
                            raw_field("C"@, decimal(c as nat)),
                            raw_field("H"@, decimal(h as nat)),
                            raw_field("D"@, decimal(d as nat)),
                        ]
                    )
                ]
            ),
        ),
    ];
    lemma_few_fields(fields);
    reveal_strlit("\"");
    reveal_strlit("\":");
    reveal_strlit("\":\"");
    reveal_strlit(",");
    reveal_strlit("[");
    reveal_strlit("]");
    reveal_strlit("]}");
    reveal_strlit("deal");
    reveal_strlit("hands");
    reveal_strlit("type");
    reveal_strlit("{");
    reveal_strlit("{\"type\":\"deal\",\"hands\":[");
    reveal_strlit("}");
    assert((SidecarMsg::Deal { s, c, h, d })@.json() =~= object(fields));
}

/// The text of the object, whatever the values are.
proof fn lemma_quote_message_text(v0: Seq<char>, v1: Seq<char>, v2: Seq<char>, v3: Seq<char>)
    ensures
        "{\"type\":\""@ + v0 + "\",\"player\":\""@ + v1 + "\",\"suit\":\""@ + v2 + "\",\"price\":"@
            + v3 + "}"@ == object(
            seq![
                text_field("type"@, v0),
                text_field("player"@, v1),
                text_field("suit"@, v2),
                raw_field("price"@, v3),
            ],
        ),
{
    let fields = seq![
        text_field("type"@, v0),
        text_field("player"@, v1),
        text_field("suit"@, v2),
        raw_field("price"@, v3),
    ];
    lemma_few_fields(fields);
    reveal_strlit("\"");
    reveal_strlit("\",\"player\":\"");
    reveal_strlit("\",\"price\":");
    reveal_strlit("\",\"suit\":\"");
    reveal_strlit("\":");
    reveal_strlit("\":\"");
    reveal_strlit(",");
    reveal_strlit("player");
    reveal_strlit("price");
    reveal_strlit("suit");
    reveal_strlit("type");
    reveal_strlit("{");
    reveal_strlit("{\"type\":\"");
    reveal_strlit("}");
    assert(
        "{\"type\":\""@ + v0 + "\",\"player\":\""@ + v1 + "\",\"suit\":\""@ + v2 + "\",\"price\":"@
            + v3 + "}"@ =~= object(fields)
    );
}

/// The message for a quote is an object with the side as its type, the player, the suit and the
/// price.
pub proof fn law_quote_message(side: &'static str, player: String, suit: &'static str, price: usize)
    ensures
        (SidecarMsg::Quote { side, player, suit, price })@.json() == object(
            seq![
                text_field("type"@, side@),
                text_field("player"@, player@),
                text_field("suit"@, suit@),
                raw_field("price"@, decimal(price as nat)),
            ],
        ),
{
    lemma_quote_message_text(side@, player@, suit@, decimal(price as nat));
}

/// The text of the object, whatever the values are.
proof fn lemma_trade_message_text(v0: Seq<char>, v1: Seq<char>, v2: Seq<char>, v3: Seq<char>)
    ensures
        "{\"type\":\"trade\",\"suit\":\""@ + v0 + "\",\"price\":"@ + v1 + ",\"buyer\":\""@ + v2
            + "\",\"seller\":\""@ + v3 + "\"}"@ == object(
            seq![
                text_field("type"@, "trade"@),
                text_field("suit"@, v0),
                raw_field("price"@, v1),
                text_field("buyer"@, v2),
                text_field("seller"@, v3),
            ],
        ),
{
    let fields = seq![
        text_field("type"@, "trade"@),
        text_field("suit"@, v0),
        raw_field("price"@, v1),
        text_field("buyer"@, v2),
        text_field("seller"@, v3),
    ];
    lemma_few_fields(fields);
    reveal_strlit("\"");
    reveal_strlit("\",\"price\":");
    reveal_strlit("\",\"seller\":\"");
    reveal_strlit("\":");
    reveal_strlit("\":\"");
    reveal_strlit("\"}");
    reveal_strlit(",");
    reveal_strlit(",\"buyer\":\"");
    reveal_strlit("buyer");
    reveal_strlit("price");
    reveal_strlit("seller");
    reveal_strlit("suit");
    reveal_strlit("trade");
    reveal_strlit("type");
    reveal_strlit("{");
    reveal_strlit("{\"type\":\"trade\",\"suit\":\"");
    reveal_strlit("}");
    assert(
        "{\"type\":\"trade\",\"suit\":\""@ + v0 + "\",\"price\":"@ + v1 + ",\"buyer\":\""@ + v2
            + "\",\"seller\":\""@ + v3 + "\"}"@ =~= object(fields)
    );
}

/// The message for a trade is an object with the suit, the price, the buyer and the seller.
pub proof fn law_trade_message(suit: &'static str, price: usize, buyer: String, seller: String)
    ensures
        (SidecarMsg::TradeExec { suit, price, buyer, seller })@.json() == object(
            seq![
                text_field("type"@, "trade"@),
                text_field("suit"@, suit@),
                raw_field("price"@, decimal(price as nat)),
                text_field("buyer"@, buyer@),
                text_field("seller"@, seller@),
            ],
        ),
{
    lemma_trade_message_text(suit@, decimal(price as nat), buyer@, seller@);
}

/// The message that all quotes are withdrawn is an object with its type alone.
pub proof fn law_cancel_all_message()
    ensures
        SidecarMsg::CancelAll@.json() == object(
            seq![
                text_field("type"@, "cancel_all"@),
            ],
        ),
{
    let fields = seq![
        text_field("type"@, "cancel_all"@),
    ];
    lemma_few_fields(fields);
    reveal_strlit("\"");
    reveal_strlit("\":\"");
    reveal_strlit("cancel_all");
    reveal_strlit("type");
    reveal_strlit("{");
    reveal_strlit("{\"type\":\"cancel_all\"}");
    reveal_strlit("}");
    assert(SidecarMsg::CancelAll@.json() =~= object(fields));
}

/// The message for the end of a round is an object with the goal suit.
pub proof fn law_round_end_message(goal_suit: &'static str)
    ensures
        (SidecarMsg::RoundEnd { goal_suit })@.json() == object(
            seq![
                text_field("type"@, "round_end"@),
                text_field("goal_suit"@, goal_suit@),
            ],
        ),
{
    let fields = seq![
        text_field("type"@, "round_end"@),
        text_field("goal_suit"@, goal_suit@),
    ];
    lemma_few_fields(fields);
    reveal_strlit("\"");
    reveal_strlit("\":\"");
    reveal_strlit("\"}");
    reveal_strlit(",");
    reveal_strlit("goal_suit");
    reveal_strlit("round_end");
    reveal_strlit("type");
    reveal_strlit("{");
    reveal_strlit("{\"type\":\"round_end\",\"goal_suit\":\"");
    reveal_strlit("}");
    assert((SidecarMsg::RoundEnd { goal_suit })@.json() =~= object(fields));
}

} // verus!
