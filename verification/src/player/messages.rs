//! What a bot can tell from a message: texts without quotes can be cut out of it again, so that
//! different messages are written differently.

use vstd::prelude::*;

use super::external::MsgView;
use super::external::seat_entry;
use super::external::seat_list;
use super::external::unquoted;
use crate::text::comma_joined;
use crate::text::decimal;
use crate::text::is_digit;
use crate::text::law_decimal_is_unique;
use crate::text::law_decimal_reads_back;

verus! {

/// What follows the same text is the same.
proof fn lemma_cancel(p: Seq<char>, r: Seq<char>, q: Seq<char>)
    requires
        p + r == p + q,
    ensures
        r == q,
{
    assert((p + r).skip(p.len() as int) =~= r);
    assert((p + q).skip(p.len() as int) =~= q);
}

/// A text without quotes ends where the first quote stands.
proof fn lemma_word(x: Seq<char>, y: Seq<char>, r: Seq<char>, q: Seq<char>)
    requires
        unquoted(x),
        unquoted(y),
        r.len() > 0 && r[0] == '"',
        q.len() > 0 && q[0] == '"',
        x + r == y + q,
    ensures
        x == y,
        r == q,
{
    let s = x + r;
    assert(s[x.len() as int] == '"');
    assert(s[y.len() as int] == '"');
    if x.len() < y.len() {
        assert(s[x.len() as int] == y[x.len() as int]);
    } else if y.len() < x.len() {
        assert(s[y.len() as int] == x[y.len() as int]);
    }
    assert(x =~= s.take(x.len() as int));
    assert(y =~= s.take(x.len() as int));
    lemma_cancel(x, r, q);
}

/// A number ends where the first character stands that is no digit.
proof fn lemma_number(a: nat, b: nat, r: Seq<char>, q: Seq<char>)
    requires
        r.len() > 0 && !is_digit(r[0]),
        q.len() > 0 && !is_digit(q[0]),
        decimal(a) + r == decimal(b) + q,
    ensures
        a == b,
        r == q,
{
    let (x, y) = (decimal(a), decimal(b));
    let s = x + r;
    law_decimal_reads_back(a);
    law_decimal_reads_back(b);
    assert(s[x.len() as int] == r[0]);
    assert(s[y.len() as int] == q[0]);
    if x.len() < y.len() {
        assert(s[x.len() as int] == y[x.len() as int]);
    } else if y.len() < x.len() {
        assert(s[y.len() as int] == x[y.len() as int]);
    }
    assert(x =~= s.take(x.len() as int));
    assert(y =~= s.take(x.len() as int));
    law_decimal_is_unique(a, b);
    lemma_cancel(x, r, q);
}

/// Texts can be put together in either order.
broadcast proof fn lemma_concat(a: Seq<char>, b: Seq<char>, c: Seq<char>)
    ensures
        #[trigger] (a + b + c) == a + (b + c),
{
    assert(a + b + c =~= a + (b + c));
}

/// What stands behind an entry in a list of players: a comma, unless it is the last.
spec fn separator(names: Seq<Seq<char>>, i: int) -> Seq<char> {
    if i + 1 < names.len() {
        ","@
    } else {
        Seq::empty()
    }
}

/// The entries of a list of players from a place on.
spec fn seats_from(names: Seq<Seq<char>>, i: int) -> Seq<char>
    decreases names.len() - i,
{
    if i >= names.len() {
        Seq::empty()
    } else {
        seat_entry(i as nat, names[i]) + (separator(names, i) + seats_from(names, i + 1))
    }
}

/// A list of players is the entries up to a place and those from there on.
proof fn lemma_seats(names: Seq<Seq<char>>, k: int)
    requires
        0 <= k <= names.len(),
    ensures
        seats_from(names, 0) == comma_joined(
            Seq::new(names.len(), |i: int| seat_entry(i as nat, names[i])).take(k),
        ) + ((if k > 0 {
            separator(names, k - 1)
        } else {
            Seq::empty()
        }) + seats_from(names, k)),
    decreases k,
{
    let entries = Seq::new(names.len(), |i: int| seat_entry(i as nat, names[i]));
    if k == 0 {
        assert(comma_joined(entries.take(0)) =~= Seq::empty());
        assert(Seq::<char>::empty() + (Seq::<char>::empty() + seats_from(names, 0)) =~= seats_from(
            names,
            0,
        ));
    } else {
        lemma_seats(names, k - 1);
        let before = comma_joined(entries.take(k - 1));
        let entry = seat_entry((k - 1) as nat, names[k - 1]);
        let rest = separator(names, k - 1) + seats_from(names, k);
        assert(entries.take(k).drop_last() =~= entries.take(k - 1));
        assert(entries.take(k).last() == entry);
        if k == 1 {
            assert(before =~= Seq::empty());
            assert(before + (Seq::<char>::empty() + (entry + rest)) =~= entry + rest);
        } else {
            assert(comma_joined(entries.take(k)) == before + ","@ + entry);
            assert(before + (","@ + (entry + rest)) =~= before + ","@ + entry + rest);
        }
    }
}

/// An entry in a list of players is told apart, and ends where the next thing begins.
proof fn lemma_entries_apart(
    place: nat,
    a: Seq<char>,
    b: Seq<char>,
    r: Seq<char>,
    q: Seq<char>,
)
    requires
        unquoted(a),
        unquoted(b),
        seat_entry(place, a) + r == seat_entry(place, b) + q,
    ensures
        a == b,
        r == q,
{
    let n = decimal(place);
    let (end_a, end_b) = ("\"}"@ + r, "\"}"@ + q);
    let (name_a, name_b) = (",\"name\":\""@ + (a + end_a), ",\"name\":\""@ + (b + end_b));
    assert(seat_entry(place, a) + r == "{\"idx\":"@ + (n + name_a)) by {
        broadcast use lemma_concat;

    }
    assert(seat_entry(place, b) + q == "{\"idx\":"@ + (n + name_b)) by {
        broadcast use lemma_concat;

    }
    lemma_cancel("{\"idx\":"@, n + name_a, n + name_b);
    lemma_cancel(n, name_a, name_b);
    lemma_cancel(",\"name\":\""@, a + end_a, b + end_b);
    reveal_strlit("\"}");
    lemma_word(a, b, end_a, end_b);
    lemma_cancel("\"}"@, r, q);
}

/// A list of players, and what follows it, begins with a brace where there is an entry.
proof fn lemma_seats_begin(names: Seq<Seq<char>>, i: int, r: Seq<char>)
    requires
        0 <= i <= names.len(),
        r.len() > 0,
    ensures
        (seats_from(names, i) + r).len() > 0,
        (seats_from(names, i) + r)[0] == (if i < names.len() {
            '{'
        } else {
            r[0]
        }),
{
    if i < names.len() {
        reveal_strlit("{\"idx\":");
        assert(seat_entry(i as nat, names[i])[0] == '{');
    }
}

/// Lists of players with names that hold no quotes are told apart.
proof fn lemma_seats_apart(
    a: Seq<Seq<char>>,
    b: Seq<Seq<char>>,
    i: int,
    r: Seq<char>,
    q: Seq<char>,
)
    requires
        0 <= i <= a.len(),
        i <= b.len(),
        forall|j: int| 0 <= j < a.len() ==> unquoted(#[trigger] a[j]),
        forall|j: int| 0 <= j < b.len() ==> unquoted(#[trigger] b[j]),
        r.len() > 0 && r[0] == ']',
        q.len() > 0 && q[0] == ']',
        seats_from(a, i) + r == seats_from(b, i) + q,
    ensures
        a.len() == b.len(),
        forall|j: int| i <= j < a.len() ==> #[trigger] a[j] == b[j],
        r == q,
    decreases a.len() - i,
{
    lemma_seats_begin(a, i, r);
    lemma_seats_begin(b, i, q);
    if i == a.len() && i == b.len() {
        assert(seats_from(a, i) + r =~= r);
        assert(seats_from(b, i) + q =~= q);
    } else {
        let (rest_a, rest_b) = (seats_from(a, i + 1) + r, seats_from(b, i + 1) + q);
        let (after_a, after_b) = (separator(a, i) + rest_a, separator(b, i) + rest_b);
        assert(seats_from(a, i) + r == seat_entry(i as nat, a[i]) + after_a) by {
            broadcast use lemma_concat;

        }
        assert(seats_from(b, i) + q == seat_entry(i as nat, b[i]) + after_b) by {
            broadcast use lemma_concat;

        }
        lemma_entries_apart(i as nat, a[i], b[i], after_a, after_b);
        lemma_seats_begin(a, i + 1, r);
        lemma_seats_begin(b, i + 1, q);
        reveal_strlit(",");
        if i + 1 < a.len() && i + 1 < b.len() {
            lemma_cancel(","@, rest_a, rest_b);
        } else {
            if i + 1 < a.len() {
                assert(after_a[0] == ',');
            } else {
                assert(after_a =~= rest_a);
            }
            if i + 1 < b.len() {
                assert(after_b[0] == ',');
            } else {
                assert(after_b =~= rest_b);
            }
        }
        lemma_seats_apart(a, b, i + 1, r, q);
    }
}

/// The texts of a message hold no quotes, and the side of a quote is one of the two.
pub open spec fn is_plain(msg: MsgView) -> bool {
    match msg {
        MsgView::RoundStart { players, bot_index } => forall|i: int|
            0 <= i < players.len() ==> unquoted(#[trigger] players[i]),
        MsgView::Quote { side, player, suit, price } => {
            &&& side == "bid"@ || side == "offer"@
            &&& unquoted(player)
            &&& unquoted(suit)
        },
        MsgView::TradeExec { suit, price, buyer, seller } => unquoted(suit) && unquoted(buyer)
            && unquoted(seller),
        MsgView::RoundEnd { goal_suit } => unquoted(goal_suit),
        _ => true,
    }
}

/// The type that a message names.
spec fn kind_of(msg: MsgView) -> Seq<char> {
    match msg {
        MsgView::RoundStart { players, bot_index } => "round_start"@,
        MsgView::Deal { s, c, h, d } => "deal"@,
        MsgView::Quote { side, player, suit, price } => side,
        MsgView::TradeExec { suit, price, buyer, seller } => "trade"@,
        MsgView::CancelAll => "cancel_all"@,
        MsgView::RoundEnd { goal_suit } => "round_end"@,
    }
}

/// What stands in a message behind its type.
spec fn fields_of(msg: MsgView) -> Seq<char> {
    match msg {
        MsgView::RoundStart { players, bot_index } => "\",\"players\":["@ + (seat_list(players) + (
        "],\"bot_index\":"@ + (decimal(bot_index) + "}"@))),
        MsgView::Deal { s, c, h, d } => "\",\"hands\":[{\"player\":\"External\",\"S\":"@ + (decimal(s)
            + (",\"C\":"@ + (decimal(c) + (",\"H\":"@ + (decimal(h) + (",\"D\":"@ + (decimal(d)
            + "}]}"@))))))),
        MsgView::Quote { side, player, suit, price } => "\",\"player\":\""@ + (player + (
        "\",\"suit\":\""@ + (suit + ("\",\"price\":"@ + (decimal(price) + "}"@))))),
        MsgView::TradeExec { suit, price, buyer, seller } => "\",\"suit\":\""@ + (suit + (
        "\",\"price\":"@ + (decimal(price) + (",\"buyer\":\""@ + (buyer + ("\",\"seller\":\""@ + (
        seller + "\"}"@))))))),
        MsgView::CancelAll => "\"}"@,
        MsgView::RoundEnd { goal_suit } => "\",\"goal_suit\":\""@ + (goal_suit + "\"}"@),
    }
}

/// A message is its type and its fields.
proof fn lemma_json(msg: MsgView)
    ensures
        msg.json() == "{\"type\":\""@ + (kind_of(msg) + fields_of(msg)),
        fields_of(msg).len() > 0 && fields_of(msg)[0] == '"',
{
    broadcast use lemma_concat;

    reveal_strlit("{\"type\":\"");
    match msg {
        MsgView::RoundStart { players, bot_index } => {
            reveal_strlit("round_start");
            reveal_strlit("\",\"players\":[");
            reveal_strlit("{\"type\":\"round_start\",\"players\":[");
            assert("{\"type\":\"round_start\",\"players\":["@ =~= "{\"type\":\""@ + ("round_start"@
                + "\",\"players\":["@));
        },
        MsgView::Deal { s, c, h, d } => {
            reveal_strlit("deal");
            reveal_strlit("\",\"hands\":[{\"player\":\"External\",\"S\":");
            reveal_strlit("{\"type\":\"deal\",\"hands\":[{\"player\":\"External\",\"S\":");
            assert("{\"type\":\"deal\",\"hands\":[{\"player\":\"External\",\"S\":"@ =~= "{\"type\":\""@
                + ("deal"@ + "\",\"hands\":[{\"player\":\"External\",\"S\":"@));
        },
        MsgView::Quote { side, player, suit, price } => {
            reveal_strlit("\",\"player\":\"");
        },
        MsgView::TradeExec { suit, price, buyer, seller } => {
            reveal_strlit("trade");
            reveal_strlit("\",\"suit\":\"");
            reveal_strlit("{\"type\":\"trade\",\"suit\":\"");
            assert("{\"type\":\"trade\",\"suit\":\""@ =~= "{\"type\":\""@ + ("trade"@
                + "\",\"suit\":\""@));
        },
        MsgView::CancelAll => {
            reveal_strlit("cancel_all");
            reveal_strlit("\"}");
            reveal_strlit("{\"type\":\"cancel_all\"}");
            assert("{\"type\":\"cancel_all\"}"@ =~= "{\"type\":\""@ + ("cancel_all"@ + "\"}"@));
        },
        MsgView::RoundEnd { goal_suit } => {
            reveal_strlit("round_end");
            reveal_strlit("\",\"goal_suit\":\"");
            reveal_strlit("{\"type\":\"round_end\",\"goal_suit\":\"");
            assert("{\"type\":\"round_end\",\"goal_suit\":\""@ =~= "{\"type\":\""@ + ("round_end"@
                + "\",\"goal_suit\":\""@));
        },
    }
}

/// The types are told apart and hold no quotes.
proof fn lemma_kinds()
    ensures
        unquoted("round_start"@),
        unquoted("deal"@),
        unquoted("bid"@),
        unquoted("offer"@),
        unquoted("trade"@),
        unquoted("cancel_all"@),
        unquoted("round_end"@),
        "round_start"@.len() == 11,
        "deal"@.len() == 4,
        "bid"@.len() == 3,
        "offer"@.len() == 5,
        "trade"@.len() == 5,
        "cancel_all"@.len() == 10,
        "round_end"@.len() == 9,
        "offer"@ != "trade"@,
{
    reveal_strlit("round_start");
    reveal_strlit("deal");
    reveal_strlit("bid");
    reveal_strlit("offer");
    reveal_strlit("trade");
    reveal_strlit("cancel_all");
    reveal_strlit("round_end");
    assert("offer"@[0] != "trade"@[0]);
}

proof fn lemma_round_starts_apart(a: MsgView, b: MsgView)
    requires
        a is RoundStart,
        b is RoundStart,
        is_plain(a),
        is_plain(b),
        fields_of(a) == fields_of(b),
    ensures
        a == b,
{
    reveal_strlit("],\"bot_index\":");
    reveal_strlit("}");
    if let (
        MsgView::RoundStart { players: p, bot_index: n },
        MsgView::RoundStart { players: q, bot_index: m },
    ) = (a, b) {
        let (tail_a, tail_b) = (
            "],\"bot_index\":"@ + (decimal(n) + "}"@),
            "],\"bot_index\":"@ + (decimal(m) + "}"@),
        );
        lemma_cancel("\",\"players\":["@, seat_list(p) + tail_a, seat_list(q) + tail_b);
        lemma_whole_list(p);
        lemma_whole_list(q);
        lemma_seats_apart(p, q, 0, tail_a, tail_b);
        assert(p =~= q);
        lemma_cancel("],\"bot_index\":"@, decimal(n) + "}"@, decimal(m) + "}"@);
        lemma_number(n, m, "}"@, "}"@);
    }
}

proof fn lemma_whole_list(names: Seq<Seq<char>>)
    ensures
        seats_from(names, 0) == seat_list(names),
{
    let entries = Seq::new(names.len(), |i: int| seat_entry(i as nat, names[i]));
    lemma_seats(names, names.len() as int);
    assert(entries.take(names.len() as int) =~= entries);
    assert(comma_joined(entries) + (Seq::<char>::empty() + Seq::<char>::empty()) =~= comma_joined(
        entries,
    ));
}

proof fn lemma_deals_apart(a: MsgView, b: MsgView)
    requires
        a is Deal,
        b is Deal,
        fields_of(a) == fields_of(b),
    ensures
        a == b,
{
    reveal_strlit(",\"C\":");
    reveal_strlit(",\"H\":");
    reveal_strlit(",\"D\":");
    reveal_strlit("}]}");
    if let (
        MsgView::Deal { s: s1, c: c1, h: h1, d: d1 },
        MsgView::Deal { s: s2, c: c2, h: h2, d: d2 },
    ) = (a, b) {
        let (d_a, d_b) = (decimal(d1) + "}]}"@, decimal(d2) + "}]}"@);
        let (h_a, h_b) = (
            decimal(h1) + (",\"D\":"@ + d_a),
            decimal(h2) + (",\"D\":"@ + d_b),
        );
        let (c_a, c_b) = (
            decimal(c1) + (",\"H\":"@ + h_a),
            decimal(c2) + (",\"H\":"@ + h_b),
        );
        let (s_a, s_b) = (
            decimal(s1) + (",\"C\":"@ + c_a),
            decimal(s2) + (",\"C\":"@ + c_b),
        );
        lemma_cancel("\",\"hands\":[{\"player\":\"External\",\"S\":"@, s_a, s_b);
        lemma_number(s1, s2, ",\"C\":"@ + c_a, ",\"C\":"@ + c_b);
        lemma_cancel(",\"C\":"@, c_a, c_b);
        lemma_number(c1, c2, ",\"H\":"@ + h_a, ",\"H\":"@ + h_b);
        lemma_cancel(",\"H\":"@, h_a, h_b);
        lemma_number(h1, h2, ",\"D\":"@ + d_a, ",\"D\":"@ + d_b);
        lemma_cancel(",\"D\":"@, d_a, d_b);
        lemma_number(d1, d2, "}]}"@, "}]}"@);
    }
}

proof fn lemma_quotes_apart(a: MsgView, b: MsgView)
    requires
        a is Quote,
        b is Quote,
        is_plain(a),
        is_plain(b),
        kind_of(a) == kind_of(b),
        fields_of(a) == fields_of(b),
    ensures
        a == b,
{
    reveal_strlit("\",\"suit\":\"");
    reveal_strlit("\",\"price\":");
    reveal_strlit("}");
    if let (
        MsgView::Quote { side: _, player: p1, suit: s1, price: n1 },
        MsgView::Quote { side: _, player: p2, suit: s2, price: n2 },
    ) = (a, b) {
        let (n_a, n_b) = (decimal(n1) + "}"@, decimal(n2) + "}"@);
        let (s_a, s_b) = (s1 + ("\",\"price\":"@ + n_a), s2 + ("\",\"price\":"@ + n_b));
        let (p_a, p_b) = (p1 + ("\",\"suit\":\""@ + s_a), p2 + ("\",\"suit\":\""@ + s_b));
        lemma_cancel("\",\"player\":\""@, p_a, p_b);
        lemma_word(p1, p2, "\",\"suit\":\""@ + s_a, "\",\"suit\":\""@ + s_b);
        lemma_cancel("\",\"suit\":\""@, s_a, s_b);
        lemma_word(s1, s2, "\",\"price\":"@ + n_a, "\",\"price\":"@ + n_b);
        lemma_cancel("\",\"price\":"@, n_a, n_b);
        lemma_number(n1, n2, "}"@, "}"@);
    }
}

proof fn lemma_trades_apart(a: MsgView, b: MsgView)
    requires
        a is TradeExec,
        b is TradeExec,
        is_plain(a),
        is_plain(b),
        fields_of(a) == fields_of(b),
    ensures
        a == b,
{
    reveal_strlit("\",\"price\":");
    reveal_strlit(",\"buyer\":\"");
    reveal_strlit("\",\"seller\":\"");
    reveal_strlit("\"}");
    if let (
        MsgView::TradeExec { suit: s1, price: n1, buyer: b1, seller: c1 },
        MsgView::TradeExec { suit: s2, price: n2, buyer: b2, seller: c2 },
    ) = (a, b) {
        let (c_a, c_b) = (c1 + "\"}"@, c2 + "\"}"@);
        let (b_a, b_b) = (b1 + ("\",\"seller\":\""@ + c_a), b2 + ("\",\"seller\":\""@ + c_b));
        let (n_a, n_b) = (
            decimal(n1) + (",\"buyer\":\""@ + b_a),
            decimal(n2) + (",\"buyer\":\""@ + b_b),
        );
        let (s_a, s_b) = (s1 + ("\",\"price\":"@ + n_a), s2 + ("\",\"price\":"@ + n_b));
        lemma_cancel("\",\"suit\":\""@, s_a, s_b);
        lemma_word(s1, s2, "\",\"price\":"@ + n_a, "\",\"price\":"@ + n_b);
        lemma_cancel("\",\"price\":"@, n_a, n_b);
        lemma_number(n1, n2, ",\"buyer\":\""@ + b_a, ",\"buyer\":\""@ + b_b);
        lemma_cancel(",\"buyer\":\""@, b_a, b_b);
        lemma_word(b1, b2, "\",\"seller\":\""@ + c_a, "\",\"seller\":\""@ + c_b);
        lemma_cancel("\",\"seller\":\""@, c_a, c_b);
        lemma_word(c1, c2, "\"}"@, "\"}"@);
    }
}

/// Messages are told apart by their JSON: where no text in them holds a quote, two messages are
/// written the same exactly where they say the same.
pub proof fn law_messages_are_told_apart(a: MsgView, b: MsgView)
    requires
        is_plain(a),
        is_plain(b),
    ensures
        a.json() == b.json() <==> a == b,
{
    if a.json() == b.json() {
        lemma_json(a);
        lemma_json(b);
        lemma_kinds();
        lemma_cancel("{\"type\":\""@, kind_of(a) + fields_of(a), kind_of(b) + fields_of(b));
        lemma_word(kind_of(a), kind_of(b), fields_of(a), fields_of(b));
        match (a, b) {
            (MsgView::RoundStart { .. }, MsgView::RoundStart { .. }) => {
                lemma_round_starts_apart(a, b);
            },
            (MsgView::Deal { .. }, MsgView::Deal { .. }) => {
                lemma_deals_apart(a, b);
            },
            (MsgView::Quote { .. }, MsgView::Quote { .. }) => {
                lemma_quotes_apart(a, b);
            },
            (MsgView::TradeExec { .. }, MsgView::TradeExec { .. }) => {
                lemma_trades_apart(a, b);
            },
            (MsgView::RoundEnd { goal_suit: x }, MsgView::RoundEnd { goal_suit: y }) => {
                reveal_strlit("\"}");
                lemma_cancel("\",\"goal_suit\":\""@, x + "\"}"@, y + "\"}"@);
                lemma_word(x, y, "\"}"@, "\"}"@);
            },
            _ => {},
        }
    }
}

} // verus!
