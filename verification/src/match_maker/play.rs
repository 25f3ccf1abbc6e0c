//! What holds of a whole round, from the antes to the payout.

use vstd::prelude::*;

use super::MatchMaker;
use super::deal::DECK_SIZE;
use super::deal::common_drawn;
use super::deal::deal;
use super::deal::deck_of;
use super::deal::law_equal_generators_deal_equally;
use super::deal::law_hands_are_even;
use super::deal::law_shuffled_deck;
use super::deal::lemma_dealt_holdings;
use super::matching::Market;
use super::matching::holdings;
use super::matching::law_trading_conserves;
use super::matching::law_trading_makes_no_debts;
use super::round::RoundOpening;
use super::round::is_opened;
use super::scoring::FULL_POT;
use super::scoring::all_seated;
use super::scoring::awards;
use super::scoring::can_score;
use super::scoring::credited;
use super::scoring::flat;
use super::scoring::is_asking_order;
use super::scoring::law_antes_make_the_pot;
use super::scoring::law_everyone_pays_who_can;
use super::scoring::law_full_pot_covers_the_goal_cards;
use super::scoring::law_scoring_pays_the_pot;
use super::scoring::leaders;
use super::scoring::lemma_credited_frame;
use super::scoring::lemma_credited_grows;
use super::scoring::lemma_player_bound;
use super::scoring::lemma_scored_total;
use super::scoring::lemma_shares;
use super::scoring::paid_of;
use super::scoring::payers;
use super::scoring::points_after_antes;
use super::scoring::rest_of_pot;
use super::scoring::scored;
use super::scoring::share_of;
use crate::models::Card;
use crate::models::Inventory;
use crate::models::Order;
use crate::models::lemma_card_count_take;
use crate::player::PlayerName;
use crate::player::totals::lemma_total_insert;
use crate::player::totals::lemma_total_nonnegative;
use crate::player::totals::total;
use crate::rng::generator_for;

verus! {

/// A round gives back what the antes took, but for the points of the pot that cannot be divided
/// between the leaders: the players together have as many points after it as before, less those,
/// whatever hands they were dealt and whatever they traded.
pub proof fn law_rounds_conserve_points(
    before: Map<PlayerName, int>,
    order: Seq<PlayerName>,
    ante: int,
    dealt: Market,
    orders: Seq<Order>,
    names: Seq<PlayerName>,
    goal: Card,
)
    requires
        is_asking_order(order, before),
        dealt.points == points_after_antes(before, order, ante),
        dealt.admits_all(orders),
        ({
            let end = dealt.after_all(orders);
            can_score(end.points, names, end.hands, goal, payers(before, order, ante) * ante)
        }),
    ensures
        ({
            let end = dealt.after_all(orders);
            let pot = payers(before, order, ante) * ante;
            total(scored(end.points, names, end.hands, goal, pot)) == total(before) - rest_of_pot(
                names,
                end.hands,
                goal,
                pot,
            ) % leaders(names, end.hands, goal).len() as int
        }),
{
    let end = dealt.after_all(orders);
    law_antes_make_the_pot(before, order, ante);
    law_trading_conserves(dealt, orders, goal);
    law_scoring_pays_the_pot(
        end.points,
        names,
        end.hands,
        goal,
        payers(before, order, ante) * ante,
    );
}

/// No entry is larger than the total of entries that are not negative.
proof fn lemma_entry_below_total(amounts: Map<PlayerName, int>, name: PlayerName)
    requires
        forall|p: PlayerName| amounts.contains_key(p) ==> #[trigger] amounts[p] >= 0,
        amounts.contains_key(name),
    ensures
        amounts[name] <= total(amounts),
{
    let without = amounts.insert(name, 0);
    lemma_total_insert(amounts, name, 0);
    assert forall|p: PlayerName| without.contains_key(p) implies #[trigger] without[p] >= 0 by {
        if p != name {
            assert(amounts[p] >= 0);
        }
    }
    lemma_total_nonnegative(without);
}

/// A round can be scored where the pot covers the goal cards and the points of all players and
/// the pot together fit a machine number.
proof fn lemma_can_score(
    points: Map<PlayerName, int>,
    names: Seq<PlayerName>,
    hands: Map<PlayerName, Inventory>,
    goal: Card,
    pot: int,
)
    requires
        names.len() > 0,
        all_seated(names, hands),
        all_seated(names, points),
        rest_of_pot(names, hands, goal, pot) >= 0,
        forall|p: PlayerName| points.contains_key(p) ==> #[trigger] points[p] >= 0,
        total(points) + pot <= usize::MAX,
    ensures
        can_score(points, names, hands, goal, pot),
{
    let award = awards(hands, goal);
    let takers = paid_of(names, hands, goal);
    let share = share_of(names, hands, goal, pot);
    let paid = credited(points, names, award);
    let end = scored(points, names, hands, goal, pot);
    lemma_scored_total(points, names, hands, goal, pot);
    lemma_shares(names, hands, goal, pot);
    assert forall|p: PlayerName| end.contains_key(p) implies #[trigger] end[p] >= 0 by {
        assert(points[p] >= 0);
        lemma_credited_grows(points, names, award, 0, p);
        assert(names.take(0) =~= Seq::empty());
        lemma_credited_grows(paid, takers, flat(share), 0, p);
        assert(takers.take(0) =~= Seq::empty());
    }
    assert forall|p: PlayerName| points.contains_key(p) implies #[trigger] scored(
        points,
        names,
        hands,
        goal,
        pot,
    )[p] <= usize::MAX by {
        lemma_entry_below_total(end, p);
    }
}

/// Where no player sits twice, nobody else holds cards, everyone can pay the ante, and the points
/// of all players together fit a machine number, the round can be scored, whatever is dealt and
/// whatever is traded.
pub proof fn law_rounds_can_be_scored(
    before: Map<PlayerName, int>,
    order: Seq<PlayerName>,
    names: Seq<PlayerName>,
    held: Map<PlayerName, Inventory>,
    common: Card,
    short: Card,
    deck: Seq<Card>,
    dealt: Market,
    orders: Seq<Order>,
)
    requires
        names.no_duplicates(),
        names.len() > 0,
        names.to_set() == before.dom(),
        is_asking_order(order, before),
        forall|p: PlayerName|
            before.contains_key(p) ==> #[trigger] before[p] >= FULL_POT as int / names.len() as int,
        total(before) <= usize::MAX,
        forall|p: PlayerName| #[trigger] held.contains_key(p) ==> names.contains(p),
        short != common,
        deck.to_multiset() == deck_of(common, short).to_multiset(),
        dealt.points == points_after_antes(before, order, FULL_POT as int / names.len() as int),
        dealt.hands == deal(held, names, deck),
        dealt.admits_all(orders),
    ensures
        ({
            let ante = FULL_POT as int / names.len() as int;
            let end = dealt.after_all(orders);
            can_score(
                end.points,
                names,
                end.hands,
                common.partner(),
                payers(before, order, ante) * ante,
            )
        }),
{
    let goal = common.partner();
    let n = names.len() as int;
    let ante = FULL_POT as int / n;
    let end = dealt.after_all(orders);
    lemma_player_bound(names);
    order.unique_seq_to_set();
    names.unique_seq_to_set();

    // Everyone pays.
    let p0 = names[0];
    assert(names.to_set().contains(p0));
    law_everyone_pays_who_can(before, order, ante, p0);
    let pot = payers(before, order, ante) * ante;
    law_antes_make_the_pot(before, order, ante);
    law_trading_conserves(dealt, orders, goal);

    // The cards of the goal suit.
    law_shuffled_deck(common, short, deck, goal);
    lemma_dealt_holdings(held, names, deck, goal);
    let h = DECK_SIZE as int / n;
    assert(0 <= n * h <= DECK_SIZE) by (nonlinear_arith)
        requires
            h == DECK_SIZE as int / n,
            n > 0,
            DECK_SIZE == 40,
    ;
    lemma_card_count_take(deck, n * h, goal);
    assert(total(holdings(end.hands, goal)) <= 10);

    // Everyone is at the table.
    assert(order.take(order.len() as int) =~= order);
    assert forall|i: int| 0 <= i < order.len() implies before.contains_key(#[trigger] order[i]) by {
        assert(order.to_set().contains(order[i]));
    }
    lemma_credited_frame(before, order, flat(-ante));
    assert forall|i: int| 0 <= i < names.len() implies end.hands.contains_key(
        #[trigger] names[i],
    ) by {
        law_hands_are_even(held, names, deck, i);
    }
    assert forall|i: int| 0 <= i < names.len() implies end.points.contains_key(
        #[trigger] names[i],
    ) by {
        assert(names.to_set().contains(names[i]));
    }

    // Nobody is in debt.
    assert forall|p: PlayerName| dealt.points.contains_key(p) implies #[trigger] dealt.points[p]
        >= 0 by {
        assert(before[p] >= ante);
        law_everyone_pays_who_can(before, order, ante, p);
    }
    assert forall|p: PlayerName| end.points.contains_key(p) implies #[trigger] end.points[p]
        >= 0 by {
        law_trading_makes_no_debts(dealt, orders, p);
    }
    law_full_pot_covers_the_goal_cards(names, end.hands, goal);
    lemma_can_score(end.points, names, end.hands, goal, pot);
}

/// The openings of the rounds of a run, each with the table before and after it: the first table
/// has the generator for a seed, and each later one the generator that the round before left.
pub open spec fn is_run(
    run: Seq<(MatchMaker, MatchMaker, RoundOpening)>,
    seed: u64,
    suits: Seq<Card>,
    names: Seq<PlayerName>,
) -> bool {
    forall|i: int|
        0 <= i < run.len() ==> {
            let (before, after, opening) = #[trigger] run[i];
            &&& is_opened(before, after, opening)
            &&& before.suits@ == suits
            &&& before.player_names@ == names
            &&& before.rng == (if i == 0 {
                generator_for(seed)
            } else {
                run[i - 1].1.rng
            })
        }
}

/// Runs with the same seed and the same players go through the same generators.
proof fn lemma_same_generators(
    a: Seq<(MatchMaker, MatchMaker, RoundOpening)>,
    b: Seq<(MatchMaker, MatchMaker, RoundOpening)>,
    seed: u64,
    suits: Seq<Card>,
    names: Seq<PlayerName>,
    i: int,
)
    requires
        is_run(a, seed, suits, names),
        is_run(b, seed, suits, names),
        0 <= i < a.len(),
        i < b.len(),
    ensures
        a[i].0.rng == b[i].0.rng,
        a[i].1.rng == b[i].1.rng,
        a[i].1.common_suit == b[i].1.common_suit,
    decreases i,
{
    if i > 0 {
        lemma_same_generators(a, b, seed, suits, names, i - 1);
    }
    assert(is_opened(a[i].0, a[i].1, a[i].2));
    assert(is_opened(b[i].0, b[i].1, b[i].2));
}

/// The seed decides the deals: in every round, runs with the same seed and the same players have
/// the same common suit, goal suit, deck and hands, whatever was ordered in the rounds before.
pub proof fn law_seed_decides_the_deals(
    a: Seq<(MatchMaker, MatchMaker, RoundOpening)>,
    b: Seq<(MatchMaker, MatchMaker, RoundOpening)>,
    seed: u64,
    suits: Seq<Card>,
    names: Seq<PlayerName>,
    i: int,
    name: PlayerName,
)
    requires
        is_run(a, seed, suits, names),
        is_run(b, seed, suits, names),
        0 <= i < a.len(),
        i < b.len(),
        names.contains(name),
    ensures
        a[i].1.common_suit == b[i].1.common_suit,
        a[i].1.goal_suit == b[i].1.goal_suit,
        a[i].2.counts == b[i].2.counts,
        a[i].1.player_inventories@[name] == b[i].1.player_inventories@[name],
{
    lemma_same_generators(a, b, seed, suits, names, i);
    let (before_a, after_a, opening_a) = a[i];
    let (before_b, after_b, opening_b) = b[i];
    let (common_suit, rng) = common_drawn(before_a.rng, suits);
    law_equal_generators_deal_equally(
        MatchMaker { common_suit, rng, player_points: after_a.player_points, ..before_a },
        MatchMaker { common_suit, rng, player_points: after_b.player_points, ..before_b },
        after_a,
        after_b,
        opening_a.counts,
        opening_b.counts,
        name,
    );
}

} // verus!
