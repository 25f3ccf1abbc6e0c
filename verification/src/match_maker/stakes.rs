//! Who pays and who is paid, said of each player's points.

use vstd::prelude::*;

use super::MatchMaker;
use super::deal::common_drawn;
use super::matching::amounts;
use super::round::RoundOpening;
use super::round::is_closed;
use super::round::is_opened;
use super::scoring::Antes;
use super::scoring::CARD_AWARD;
use super::scoring::FULL_POT;
use super::scoring::RoundResult;
use super::scoring::all_seated;
use super::scoring::awards;
use super::scoring::best_of;
use super::scoring::can_score;
use super::scoring::credited;
use super::scoring::flat;
use super::scoring::is_asking_order;
use super::scoring::law_leaders_hold_the_most;
use super::scoring::leaders;
use super::scoring::lemma_credited_frame;
use super::scoring::lemma_credited_once;
use super::scoring::lemma_holders_are_players;
use super::scoring::lemma_leaders_exist;
use super::scoring::lemma_payers_bounds;
use super::scoring::payers;
use super::scoring::points_after_antes;
use super::scoring::rest_of_pot;
use super::scoring::scored;
use super::scoring::share_of;
use super::scoring::sum_of;
use crate::models::Card;
use crate::models::Inventory;
use crate::player::PlayerName;

verus! {

/// A full pot holds two hundred points, and a goal card is worth ten.
pub proof fn law_stakes()
    ensures
        FULL_POT == 200,
        CARD_AWARD == 10,
{
}

/// Antes are asked for one after the other, up to the first player who cannot pay: everyone asked
/// before loses the ante, nobody else loses anything, and the pot is what was paid.
pub open spec fn are_asked_for(
    before: Map<PlayerName, int>,
    after: Map<PlayerName, int>,
    order: Seq<PlayerName>,
    ante: int,
    antes: Antes,
    paid: int,
) -> bool {
    &&& 0 <= paid <= order.len()
    &&& forall|j: int| 0 <= j < paid ==> before[#[trigger] order[j]] >= ante
    &&& paid < order.len() ==> before[order[paid]] < ante && antes.unable == Some(order[paid])
    &&& paid == order.len() ==> antes.unable is None
    &&& antes.pot == paid * ante
    &&& after.dom() == before.dom()
    &&& forall|j: int|
        0 <= j < order.len() ==> #[trigger] after[order[j]] == before[order[j]] - (if j < paid {
            ante
        } else {
            0
        })
}

/// The antes are asked for in the given order.
pub proof fn law_antes_are_asked_for_in_order(
    before: Map<PlayerName, int>,
    order: Seq<PlayerName>,
    ante: int,
    antes: Antes,
)
    requires
        is_asking_order(order, before),
        antes.is_collected(before, order, ante),
    ensures
        order.no_duplicates(),
        forall|p: PlayerName| #[trigger] order.contains(p) <==> before.contains_key(p),
        exists|paid: int| #[trigger]
            are_asked_for(
                before,
                points_after_antes(before, order, ante),
                order,
                ante,
                antes,
                paid,
            ),
{
    let paid = payers(before, order, ante);
    let after = points_after_antes(before, order, ante);
    lemma_payers_bounds(before, order, ante, 0);
    let asked = order.take(paid);
    assert forall|p: PlayerName| #[trigger] order.contains(p) <==> before.contains_key(p) by {
        assert(order.to_set().contains(p) <==> before.dom().contains(p));
    }
    assert forall|i: int| 0 <= i < asked.len() implies before.contains_key(#[trigger] asked[i]) by {
        assert(order.contains(order[i]));
    }
    lemma_credited_frame(before, asked, flat(-ante));
    assert forall|j: int| 0 <= j < order.len() implies #[trigger] after[order[j]]
        == before[order[j]] - (if j < paid {
        ante
    } else {
        0
    }) by {
        if j < paid {
            assert(asked[j] == order[j]);
            lemma_credited_once(before, asked, flat(-ante), j);
        } else if asked.contains(order[j]) {
            let i = asked.index_of(order[j]);
            assert(order[i] == order[j]);
        }
    }
    assert(are_asked_for(before, after, order, ante, antes, paid));
}

/// What a round takes from the players when it opens: each is asked for an equal part of two
/// hundred points. Where everyone can pay, everyone's points fall by the ante, and the pot is one
/// ante from each player with points; it misses two hundred by less than there are players, where
/// each sits in one place. In any case nobody loses more than the ante, and nobody but a player
/// who cannot pay is named as one.
pub proof fn law_rounds_open_with_equal_antes(
    before: MatchMaker,
    after: MatchMaker,
    opening: RoundOpening,
    name: PlayerName,
)
    requires
        is_opened(before, after, opening),
        before.player_names@.len() > 0,
        before.player_points@.contains_key(name),
    ensures
        opening.ante == 200int / before.player_names@.len() as int,
        opening.initial_points@ == before.player_points@,
        after.player_points@.contains_key(name),
        after.player_points@[name] == before.player_points@[name]
            || after.player_points@[name] == before.player_points@[name] - opening.ante,
        opening.antes.unable matches Some(poor) ==> before.player_points@.contains_key(poor)
            && before.player_points@[poor] < opening.ante && after.player_points@[poor]
            == before.player_points@[poor],
        opening.antes.unable is None ==> after.player_points@[name] == before.player_points@[name]
            - opening.ante && opening.antes.pot == before.player_points@.dom().len()
            * opening.ante,
        (forall|p: PlayerName|
            before.player_points@.contains_key(p) ==> #[trigger] before.player_points@[p]
                >= opening.ante) ==> opening.antes.unable is None,
        opening.antes.unable is None && before.player_names@.no_duplicates()
            && before.player_names@.to_set() == before.player_points@.dom() ==> 200
            - before.player_names@.len() < opening.antes.pot <= 200,
{
    let points = amounts(before.player_points@);
    let ante = opening.ante as int;
    let order = choose|order: Seq<PlayerName>|
        {
            &&& #[trigger] is_asking_order(order, before.player_points@)
            &&& amounts(after.player_points@) == points_after_antes(points, order, ante)
            &&& opening.antes.is_collected(points, order, ante)
        };
    assert(points.dom() =~= before.player_points@.dom());
    assert(is_asking_order(order, points));
    law_antes_are_asked_for_in_order(points, order, ante, opening.antes);
    let paid = choose|paid: int| #[trigger]
        are_asked_for(
            points,
            points_after_antes(points, order, ante),
            order,
            ante,
            opening.antes,
            paid,
        );
    assert(amounts(after.player_points@).dom() =~= after.player_points@.dom());
    assert(order.contains(name));
    let i = order.index_of(name);
    assert(amounts(after.player_points@)[order[i]] == points[order[i]] - (if i < paid {
        ante
    } else {
        0
    }));
    assert(amounts(after.player_points@)[name] == after.player_points@[name]);
    if let Some(poor) = opening.antes.unable {
        assert(order.contains(order[paid]));
        assert(amounts(after.player_points@)[order[paid]] == points[order[paid]]);
        assert(points[poor] == before.player_points@[poor]);
        assert(amounts(after.player_points@)[poor] == after.player_points@[poor]);
    }
    order.unique_seq_to_set();
    if before.player_names@.no_duplicates() && before.player_names@.to_set()
        == before.player_points@.dom() {
        before.player_names@.unique_seq_to_set();
        let n = before.player_names@.len() as int;
        assert(200 - n < n * (200int / n) <= 200) by (nonlinear_arith)
            requires
                n > 0,
        ;
    }
}

/// What opening a round draws: the common suit at the drawn place; the rest is the deal.
pub proof fn law_rounds_open_with_a_drawn_suit(
    before: MatchMaker,
    after: MatchMaker,
    opening: RoundOpening,
)
    requires
        is_opened(before, after, opening),
    ensures
        after.common_suit == common_drawn(before.rng, before.suits@).0,
        after.goal_suit == after.common_suit.partner(),
        exists|i: int| 0 <= i < 4 && after.common_suit == #[trigger] before.suits@[i],
        after.round == before.round,
        after.books == before.books,
        after.player_names@ == before.player_names@,
        after.suits@ == before.suits@,
        after.base_seed == before.base_seed,
        after.max_rounds == before.max_rounds,
{
}

/// Nobody in the row holds more goal cards than the player.
pub open spec fn holds_the_most(
    names: Seq<PlayerName>,
    hands: Map<PlayerName, Inventory>,
    goal: Card,
    name: PlayerName,
) -> bool {
    forall|i: int|
        0 <= i < names.len() ==> hands[#[trigger] names[i]].of(goal) <= hands[name].of(goal)
}

/// The places of players who hold the most goal cards.
pub open spec fn with_the_most(
    names: Seq<PlayerName>,
    hands: Map<PlayerName, Inventory>,
    goal: Card,
) -> Seq<PlayerName> {
    names.filter(|p: PlayerName| holds_the_most(names, hands, goal, p))
}

/// The goal cards in all places together.
pub open spec fn goal_cards_held(
    names: Seq<PlayerName>,
    hands: Map<PlayerName, Inventory>,
    goal: Card,
) -> int {
    names.fold_left(0, |sum: int, p: PlayerName| sum + hands[p].of(goal))
}

/// A filter goes by its answers for what is in the row.
proof fn lemma_filter_same(
    names: Seq<PlayerName>,
    f: spec_fn(PlayerName) -> bool,
    g: spec_fn(PlayerName) -> bool,
)
    requires
        forall|i: int| 0 <= i < names.len() ==> f(#[trigger] names[i]) == g(names[i]),
    ensures
        names.filter(f) == names.filter(g),
    decreases names.len(),
{
    reveal_with_fuel(Seq::filter, 2);
    if names.len() > 0 {
        assert forall|i: int| 0 <= i < names.drop_last().len() implies f(
            #[trigger] names.drop_last()[i],
        ) == g(names.drop_last()[i]) by {
            assert(names[i] == names.drop_last()[i]);
        }
        lemma_filter_same(names.drop_last(), f, g);
        assert(f(names[names.len() - 1]) == g(names[names.len() - 1]));
    }
}

/// The leaders are the players who hold the most goal cards.
pub proof fn law_leaders_are_those_with_the_most(
    names: Seq<PlayerName>,
    hands: Map<PlayerName, Inventory>,
    goal: Card,
)
    ensures
        leaders(names, hands, goal) == with_the_most(names, hands, goal),
        names.len() > 0 ==> with_the_most(names, hands, goal).len() > 0,
{
    let best = best_of(names, hands, goal);
    let f = |p: PlayerName| hands[p].of(goal) == best;
    let g = |p: PlayerName| holds_the_most(names, hands, goal, p);
    lemma_leaders_exist(names, hands, goal);
    assert forall|i: int| 0 <= i < names.len() implies f(#[trigger] names[i]) == g(names[i]) by {
        law_leaders_hold_the_most(names, hands, goal, i);
        assert forall|j: int| 0 <= j < names.len() implies hands[#[trigger] names[j]].of(goal)
            <= best by {
            law_leaders_hold_the_most(names, hands, goal, j);
        }
        if g(names[i]) {
            lemma_holders_are_players(names, hands, goal, best, 0);
            let k = names.index_of(leaders(names, hands, goal)[0]);
            assert(hands[names[k]].of(goal) == best);
        }
    }
    lemma_filter_same(names, f, g);
}

/// One more name at the end of a row is counted once more.
proof fn lemma_count_last(names: Seq<PlayerName>, p: PlayerName)
    requires
        names.len() > 0,
    ensures
        names.to_multiset().count(p) == names.drop_last().to_multiset().count(p) + (if p
            == names.last() {
            1nat
        } else {
            0
        }),
{
    names.drop_last().to_multiset_ensures();
    assert(names.drop_last().push(names.last()) =~= names);
}

/// Crediting adds an amount once for each place of a player.
proof fn lemma_credited_count(
    points: Map<PlayerName, int>,
    names: Seq<PlayerName>,
    amount: spec_fn(PlayerName) -> int,
    p: PlayerName,
)
    ensures
        credited(points, names, amount)[p] == points[p] + names.to_multiset().count(p) * amount(p),
    decreases names.len(),
{
    if names.len() > 0 {
        lemma_credited_count(points, names.drop_last(), amount, p);
        lemma_count_last(names, p);
        let n = names.drop_last().to_multiset().count(p) as int;
        assert((n + 1) * amount(p) == n * amount(p) + amount(p)) by (nonlinear_arith);
    } else {
        names.to_multiset_ensures();
        assert(names.to_multiset().count(p) == 0) by {
            if names.to_multiset().count(p) > 0 {
                assert(names.contains(p));
            }
        }
        assert(0 * amount(p) == 0) by (nonlinear_arith);
    }
}

/// A filter keeps all places of a player or none.
proof fn lemma_filter_count(
    names: Seq<PlayerName>,
    f: spec_fn(PlayerName) -> bool,
    p: PlayerName,
)
    ensures
        names.filter(f).to_multiset().count(p) == (if f(p) {
            names.to_multiset().count(p)
        } else {
            0
        }),
    decreases names.len(),
{
    reveal_with_fuel(Seq::filter, 2);
    if names.len() > 0 {
        let less = names.drop_last();
        lemma_filter_count(less, f, p);
        lemma_count_last(names, p);
        if f(names.last()) {
            assert(names.filter(f).drop_last() =~= less.filter(f));
            lemma_count_last(names.filter(f), p);
        }
    } else {
        names.to_multiset_ensures();
        assert(names.filter(f) =~= names);
        if names.to_multiset().count(p) > 0 {
            assert(names.contains(p));
        }
    }
}

/// Ten points for each goal card in all places.
proof fn lemma_awards_sum(names: Seq<PlayerName>, hands: Map<PlayerName, Inventory>, goal: Card)
    ensures
        sum_of(names, awards(hands, goal)) == 10 * goal_cards_held(names, hands, goal),
    decreases names.len(),
{
    if names.len() > 0 {
        lemma_awards_sum(names.drop_last(), hands, goal);
    }
}

/// What each player has after a round: ten points more for each goal card in hand, and, for a
/// player with the most goal cards, an equal part of what is left of the pot after those are paid,
/// rounded down. A player in several places is paid for each of them.
pub proof fn law_scoring_in_full(
    points: Map<PlayerName, int>,
    names: Seq<PlayerName>,
    hands: Map<PlayerName, Inventory>,
    goal: Card,
    pot: int,
    p: PlayerName,
)
    ensures
        ({
            let rest = pot - 10 * goal_cards_held(names, hands, goal);
            let share = if holds_the_most(names, hands, goal, p) {
                rest / with_the_most(names, hands, goal).len() as int
            } else {
                0
            };
            scored(points, names, hands, goal, pot)[p] == points[p] + names.to_multiset().count(p)
                * (10 * hands[p].of(goal) + share)
        }),
{
    let rest = pot - 10 * goal_cards_held(names, hands, goal);
    let each = share_of(names, hands, goal, pot);
    let most = with_the_most(names, hands, goal);
    lemma_awards_sum(names, hands, goal);
    law_leaders_are_those_with_the_most(names, hands, goal);
    let paid = credited(points, names, awards(hands, goal));
    lemma_credited_count(points, names, awards(hands, goal), p);
    lemma_credited_count(paid, leaders(names, hands, goal), flat(each), p);
    lemma_filter_count(names, |q: PlayerName| holds_the_most(names, hands, goal, q), p);
    let n = names.to_multiset().count(p) as int;
    let award = 10 * hands[p].of(goal) as int;
    assert(n * award + n * each == n * (award + each)) by (nonlinear_arith);
    assert(0 * each == 0) by (nonlinear_arith);
    assert(rest == rest_of_pot(names, hands, goal, pot));
}

/// Somebody comes first in a row of filtered names.
proof fn lemma_first_filtered(names: Seq<PlayerName>, f: spec_fn(PlayerName) -> bool) -> (w: int)
    requires
        names.filter(f).len() > 0,
    ensures
        0 <= w < names.len(),
        names[w] == names.filter(f)[0],
        f(names[w]),
        forall|j: int| 0 <= j < w ==> !f(#[trigger] names[j]),
    decreases names.len(),
{
    reveal_with_fuel(Seq::filter, 2);
    let less = names.drop_last();
    if less.filter(f).len() > 0 {
        let w = lemma_first_filtered(less, f);
        assert forall|j: int| 0 <= j < w implies !f(#[trigger] names[j]) by {
            assert(less[j] == names[j]);
        }
        w
    } else {
        assert forall|j: int| 0 <= j < names.len() - 1 implies !f(#[trigger] names[j]) by {
            lemma_none_filtered(less, f, j);
            assert(less[j] == names[j]);
        }
        names.len() - 1
    }
}

proof fn lemma_none_filtered(names: Seq<PlayerName>, f: spec_fn(PlayerName) -> bool, j: int)
    requires
        names.filter(f).len() == 0,
        0 <= j < names.len(),
    ensures
        !f(names[j]),
    decreases names.len(),
{
    reveal_with_fuel(Seq::filter, 2);
    if j < names.len() - 1 {
        lemma_none_filtered(names.drop_last(), f, j);
    }
}

/// What is reported of a round: the winner is the first in the row with the most goal cards, or
/// nobody, where none is held; the goal cards are the winner's; those who are level are the others
/// with the most, in the order of the row; the rest and the share are what was paid.
pub proof fn law_results_name_the_winner(
    result: RoundResult,
    names: Seq<PlayerName>,
    hands: Map<PlayerName, Inventory>,
    goal: Card,
    pot: int,
)
    requires
        result.is_result(names, hands, goal, pot),
        names.len() > 0,
    ensures
        forall|i: int|
            0 <= i < names.len() ==> hands[#[trigger] names[i]].of(goal) <= result.goal_cards,
        result.goal_cards == 0 ==> result.winner == PlayerName::Nobody && result.tied@ == names,
        result.goal_cards > 0 ==> hands[result.winner].of(goal) == result.goal_cards
            && result.winner == with_the_most(names, hands, goal)[0] && result.tied@
            == with_the_most(names, hands, goal).skip(1) && exists|w: int|
            0 <= w < names.len() && #[trigger] names[w] == result.winner && forall|j: int|
                0 <= j < w ==> hands[#[trigger] names[j]].of(goal) < result.goal_cards,
        result.pot == pot - 10 * goal_cards_held(names, hands, goal),
        result.share == result.pot as int / with_the_most(names, hands, goal).len() as int,
{
    let best = best_of(names, hands, goal);
    let f = |p: PlayerName| hands[p].of(goal) == best;
    lemma_awards_sum(names, hands, goal);
    law_leaders_are_those_with_the_most(names, hands, goal);
    lemma_leaders_exist(names, hands, goal);
    assert forall|i: int| 0 <= i < names.len() implies hands[#[trigger] names[i]].of(goal)
        <= result.goal_cards by {
        law_leaders_hold_the_most(names, hands, goal, i);
    }
    if best > 0 {
        let w = lemma_first_filtered(names, f);
        assert forall|j: int| 0 <= j < w implies hands[#[trigger] names[j]].of(goal)
            < result.goal_cards by {
            assert(!f(names[j]));
        }
        assert(names[w] == result.winner);
        assert(leaders(names, hands, goal).drop_first() =~= leaders(names, hands, goal).skip(1));
    }
}

/// What closing a round does to a table: each player's points are those of the scoring, the round
/// is counted, and nothing else changes.
pub proof fn law_closing_pays_out(
    before: MatchMaker,
    after: MatchMaker,
    pot: usize,
    result: RoundResult,
    name: PlayerName,
)
    requires
        is_closed(before, after, pot, result),
        before.round < u32::MAX,
        all_seated(before.player_names@, before.player_points@),
        before.player_points@.contains_key(name),
    ensures
        ({
            let names = before.player_names@;
            let hands = before.player_inventories@;
            let goal = before.goal_suit;
            let rest = pot - 10 * goal_cards_held(names, hands, goal);
            let share = if holds_the_most(names, hands, goal, name) {
                rest / with_the_most(names, hands, goal).len() as int
            } else {
                0
            };
            &&& after.player_points@.contains_key(name)
            &&& after.player_points@[name] == before.player_points@[name]
                + names.to_multiset().count(name) * (10 * hands[name].of(goal) + share)
        }),
        after.round == before.round + 1,
        after.player_inventories@ == before.player_inventories@,
        after.books == before.books,
        after.player_names@ == before.player_names@,
        after.goal_suit == before.goal_suit,
        after.common_suit == before.common_suit,
        after.rng == before.rng,
        after.max_rounds == before.max_rounds,
        after.base_seed == before.base_seed,
{
    let names = before.player_names@;
    let hands = before.player_inventories@;
    let goal = before.goal_suit;
    let points = amounts(before.player_points@);
    law_scoring_in_full(points, names, hands, goal, pot as int, name);
    assert forall|i: int| 0 <= i < names.len() implies points.contains_key(#[trigger] names[i]) by {
        assert(before.player_points@.contains_key(names[i]));
    }
    let award = awards(hands, goal);
    lemma_credited_frame(points, names, award);
    super::scoring::lemma_paid_are_seated(points, names, hands, goal);
    let paid = credited(points, names, award);
    let most = leaders(names, hands, goal);
    assert forall|i: int| 0 <= i < most.len() implies paid.contains_key(#[trigger] most[i]) by {
        assert(points.contains_key(super::scoring::paid_of(names, hands, goal)[i]));
    }
    lemma_credited_frame(paid, most, flat(share_of(names, hands, goal, pot as int)));
    assert(amounts(after.player_points@).contains_key(name));
    assert(amounts(after.player_points@)[name] == after.player_points@[name]);
    assert(points[name] == before.player_points@[name]);
}

/// When a round can be scored: somebody plays, every player has a hand and points, ten points for
/// each goal card are in the pot, and nobody's points become too many.
pub proof fn law_which_rounds_can_be_scored(
    points: Map<PlayerName, int>,
    names: Seq<PlayerName>,
    hands: Map<PlayerName, Inventory>,
    goal: Card,
    pot: int,
)
    ensures
        can_score(points, names, hands, goal, pot) <==> {
            &&& names.len() > 0
            &&& forall|i: int| 0 <= i < names.len() ==> hands.contains_key(#[trigger] names[i])
            &&& forall|i: int| 0 <= i < names.len() ==> points.contains_key(#[trigger] names[i])
            &&& 10 * goal_cards_held(names, hands, goal) <= pot
            &&& forall|p: PlayerName|
                points.contains_key(p) ==> #[trigger] scored(points, names, hands, goal, pot)[p]
                    <= usize::MAX
        },
{
    lemma_awards_sum(names, hands, goal);
}

} // verus!
