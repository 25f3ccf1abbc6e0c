use figgie_auto::models::{Card, Direction};
use figgie_auto::player::external::{
    card_to_suit, json_num, json_str, parse_bot_order, player_name_to_str, take_turn, SidecarMsg,
};
use figgie_auto::player::PlayerName;

#[test]
fn parse_bid_order() {
    let s = r#"{"action":"bid","suit":"S","price":12}"#;
    let order = parse_bot_order(s).expect("should parse");
    assert_eq!(order.price, 12);
    assert!(matches!(order.direction, Direction::Buy));
    assert!(matches!(order.card, Card::Spade));
    assert!(matches!(order.player_name, PlayerName::External));
}

#[test]
fn parse_offer_order() {
    let s = r#"{"action":"offer","suit":"H","price":8}"#;
    let order = parse_bot_order(s).expect("should parse");
    assert_eq!(order.price, 8);
    assert!(matches!(order.direction, Direction::Sell));
    assert!(matches!(order.card, Card::Heart));
}

#[test]
fn parse_pass_returns_none() {
    let s = r#"{"action":"pass"}"#;
    assert!(parse_bot_order(s).is_none());
}

#[test]
fn parse_empty_returns_none() {
    assert!(parse_bot_order("").is_none());
}

#[test]
fn parse_garbage_returns_none() {
    assert!(parse_bot_order("not json").is_none());
}

#[test]
fn quote_to_json() {
    let m = SidecarMsg::Quote {
        side: "bid",
        player: "External".to_string(),
        suit: "S",
        price: 12,
    };
    assert_eq!(m.to_json(), r#"{"type":"bid","player":"External","suit":"S","price":12}"#);
}

#[test]
fn round_start_to_json() {
    let m = SidecarMsg::RoundStart {
        players: vec!["External".to_string(), "Noisy".to_string()],
        bot_index: 0,
    };
    let expected = r#"{"type":"round_start","players":[{"idx":0,"name":"External"},{"idx":1,"name":"Noisy"}],"bot_index":0}"#;
    assert_eq!(m.to_json(), expected);
}

#[test]
fn cancel_all_needs_your_turn() {
    assert!(SidecarMsg::CancelAll.needs_your_turn());
}

#[test]
fn round_start_does_not_need_your_turn() {
    let m = SidecarMsg::RoundStart { players: vec![], bot_index: 0 };
    assert!(!m.needs_your_turn());
}

#[test]
fn deal_trade_cancel_and_end_to_json() {
    let deal = SidecarMsg::Deal { s: 1, c: 20, h: 300, d: 0 };
    assert_eq!(
        deal.to_json(),
        r#"{"type":"deal","hands":[{"player":"External","S":1,"C":20,"H":300,"D":0}]}"#
    );
    let trade = SidecarMsg::TradeExec {
        suit: "D",
        price: 7,
        buyer: "Noisy".to_string(),
        seller: "Spread".to_string(),
    };
    assert_eq!(
        trade.to_json(),
        r#"{"type":"trade","suit":"D","price":7,"buyer":"Noisy","seller":"Spread"}"#
    );
    assert_eq!(SidecarMsg::CancelAll.to_json(), r#"{"type":"cancel_all"}"#);
    let end = SidecarMsg::RoundEnd { goal_suit: "H" };
    assert_eq!(end.to_json(), r#"{"type":"round_end","goal_suit":"H"}"#);
}

#[test]
fn round_start_without_players_to_json() {
    let m = SidecarMsg::RoundStart { players: vec![], bot_index: 3 };
    assert_eq!(m.to_json(), r#"{"type":"round_start","players":[],"bot_index":3}"#);
}

#[test]
fn only_trading_messages_prompt() {
    assert!(SidecarMsg::Quote { side: "bid", player: String::new(), suit: "S", price: 1 }.needs_your_turn());
    assert!(SidecarMsg::TradeExec { suit: "S", price: 1, buyer: String::new(), seller: String::new() }
        .needs_your_turn());
    assert!(!SidecarMsg::Deal { s: 0, c: 0, h: 0, d: 0 }.needs_your_turn());
    assert!(!SidecarMsg::RoundEnd { goal_suit: "S" }.needs_your_turn());
}

#[test]
fn turns_are_called_after_prompting_messages() {
    let turn = take_turn(&SidecarMsg::CancelAll);
    assert_eq!(turn.lines, vec![r#"{"type":"cancel_all"}"#, r#"{"type":"your_turn"}"#]);
    assert!(turn.awaits_reply);
    let turn = take_turn(&SidecarMsg::RoundEnd { goal_suit: "C" });
    assert_eq!(turn.lines, vec![r#"{"type":"round_end","goal_suit":"C"}"#]);
    assert!(!turn.awaits_reply);
}

#[test]
fn every_order_line_reads_back() {
    for (letter, card) in [("S", Card::Spade), ("C", Card::Club), ("H", Card::Heart), ("D", Card::Diamond)] {
        for (action, buys) in [("bid", true), ("offer", false)] {
            for price in [0, 1, 9, 10, 99, 1234567890, usize::MAX] {
                let s = format!(r#"{{"action":"{}","suit":"{}","price":{}}}"#, action, letter, price);
                let order = parse_bot_order(&s).expect("should parse");
                assert_eq!(order.price, price);
                assert_eq!(order.card, card);
                assert_eq!(matches!(order.direction, Direction::Buy), buys);
                assert_eq!(order.player_name, PlayerName::External);
            }
        }
    }
}

#[test]
fn orders_with_unknown_words_are_refused() {
    assert!(parse_bot_order(r#"{"action":"sell","suit":"S","price":12}"#).is_none());
    assert!(parse_bot_order(r#"{"action":"bid","suit":"X","price":12}"#).is_none());
    assert!(parse_bot_order(r#"{"action":"bid","suit":"","price":12}"#).is_none());
    assert!(parse_bot_order(r#"{"action":"bid","price":12}"#).is_none());
    assert!(parse_bot_order(r#"{"action":"bid","suit":"S"}"#).is_none());
    assert!(parse_bot_order(r#"{"action":"bid","suit":"S","price":-3}"#).is_none());
    assert!(parse_bot_order(r#"{"action":"bid","suit":"S","price":"12"}"#).is_none());
    assert!(parse_bot_order(r#"{"action":"bid","suit":"S","price":99999999999999999999999}"#).is_none());
    // A space before a quoted value hides it, one before a number does not.
    assert!(parse_bot_order(r#"{"action": "bid","suit":"S","price":12}"#).is_none());
    assert_eq!(parse_bot_order(r#"{"action":"bid","suit":"S","price":   12}"#).unwrap().price, 12);
    assert_eq!(parse_bot_order(r#"{"price":12.75,"suit":"S","action":"bid"}"#).unwrap().price, 12);
}

#[test]
fn values_are_read_behind_the_first_key() {
    let s = r#"{"a":"é","n":5,"a":"y","n":6}"#;
    assert_eq!(json_str(s, "a"), Some("é".to_string()));
    assert_eq!(json_num(s, "n"), Some(5));
    assert_eq!(json_str(s, "b"), None);
    assert_eq!(json_num(s, "b"), None);
    assert_eq!(json_str(r#""a":"open"#, "a"), None);
    assert_eq!(json_num(r#""n":"#, "n"), None);
    assert_eq!(json_num(r#""n":007"#, "n"), Some(7));
}

#[test]
fn suits_and_names_have_their_texts() {
    assert_eq!(card_to_suit(&Card::Spade), "S");
    assert_eq!(card_to_suit(&Card::Club), "C");
    assert_eq!(card_to_suit(&Card::Heart), "H");
    assert_eq!(card_to_suit(&Card::Diamond), "D");
    assert_eq!(player_name_to_str(&PlayerName::WildestDreams), "WildestDreams");
    assert_eq!(player_name_to_str(&PlayerName::Taker), "Taker");
    assert_eq!(player_name_to_str(&PlayerName::Nobody), "None");
}

#[test]
fn messages_are_told_apart() {
    let start = |players: &[&str], bot_index| SidecarMsg::RoundStart {
        players: players.iter().map(|name| name.to_string()).collect(),
        bot_index,
    };
    let quote = |side, player: &str, suit, price| SidecarMsg::Quote {
        side,
        player: player.to_string(),
        suit,
        price,
    };
    let trade = |suit, price, buyer: &str, seller: &str| SidecarMsg::TradeExec {
        suit,
        price,
        buyer: buyer.to_string(),
        seller: seller.to_string(),
    };
    let messages = [
        start(&[], 0),
        start(&[""], 0),
        start(&["", ""], 0),
        start(&["a,b"], 0),
        start(&["a", "b"], 0),
        start(&["b", "a"], 0),
        start(&["a", "b"], 1),
        SidecarMsg::Deal { s: 1, c: 2, h: 3, d: 4 },
        SidecarMsg::Deal { s: 1, c: 2, h: 4, d: 3 },
        SidecarMsg::Deal { s: 12, c: 0, h: 0, d: 0 },
        quote("bid", "a", "S", 1),
        quote("offer", "a", "S", 1),
        quote("bid", "b", "S", 1),
        quote("bid", "a", "C", 1),
        quote("bid", "a", "S", 11),
        trade("S", 1, "a", "b"),
        trade("S", 1, "b", "a"),
        trade("H", 1, "a", "b"),
        trade("S", 2, "a", "b"),
        SidecarMsg::CancelAll,
        SidecarMsg::RoundEnd { goal_suit: "S" },
        SidecarMsg::RoundEnd { goal_suit: "D" },
    ];
    for (i, a) in messages.iter().enumerate() {
        assert!(!a.to_json().contains('\n'));
        for (j, b) in messages.iter().enumerate() {
            assert_eq!(a.to_json() == b.to_json(), i == j);
        }
    }
}
