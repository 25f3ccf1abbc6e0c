//! The stakes of a round and how they are paid out.

use vstd::prelude::*;

use super::MatchMaker;
use super::matching::amounts;
use super::matching::holdings;
use crate::models::Card;
use crate::models::Inventory;
use crate::player::PlayerMap;
use crate::player::PlayerName;
use crate::player::all_names;
use crate::player::totals::lemma_total_insert;
use crate::player::totals::lemma_total_nonnegative;
use crate::player::totals::total;

verus! {

/// The points that all players together put into a full pot.
pub const FULL_POT: usize = 200;

/// What one card of the goal suit earns.
pub const CARD_AWARD: usize = 10;

/// The same amount for everyone.
pub open spec fn flat(amount: int) -> spec_fn(PlayerName) -> int {
    |name: PlayerName| amount
}

/// What the goal suit in a player's hand earns.
pub open spec fn awards(hands: Map<PlayerName, Inventory>, goal: Card) -> spec_fn(
    PlayerName,
) -> int {
    |name: PlayerName| CARD_AWARD * hands[name].of(goal)
}

/// The points after each of the names in turn was credited with an amount.
pub open spec fn credited(
    points: Map<PlayerName, int>,
    names: Seq<PlayerName>,
    amount: spec_fn(PlayerName) -> int,
) -> Map<PlayerName, int>
    decreases names.len(),
{
    if names.len() == 0 {
        points
    } else {
        let before = credited(points, names.drop_last(), amount);
        before.insert(names.last(), before[names.last()] + amount(names.last()))
    }
}

/// The amounts of all the names together.
pub open spec fn sum_of(names: Seq<PlayerName>, amount: spec_fn(PlayerName) -> int) -> int
    decreases names.len(),
{
    if names.len() == 0 {
        0
    } else {
        sum_of(names.drop_last(), amount) + amount(names.last())
    }
}

/// Every name has an entry.
pub open spec fn all_seated<V>(names: Seq<PlayerName>, entries: Map<PlayerName, V>) -> bool {
    forall|i: int| 0 <= i < names.len() ==> entries.contains_key(#[trigger] names[i])
}

/// The first place from `i` on, in the order of asking, of a player who cannot pay the ante.
pub open spec fn payers_from(
    points: Map<PlayerName, int>,
    order: Seq<PlayerName>,
    ante: int,
    i: int,
) -> int
    decreases order.len() - i,
{
    if i >= order.len() || points[order[i]] < ante {
        i
    } else {
        payers_from(points, order, ante, i + 1)
    }
}

/// How many players pay the ante when they are asked in an order and the asking stops at the
/// first who cannot pay.
pub open spec fn payers(points: Map<PlayerName, int>, order: Seq<PlayerName>, ante: int) -> int {
    payers_from(points, order, ante, 0)
}

/// The points after the antes were collected in an order.
pub open spec fn points_after_antes(
    points: Map<PlayerName, int>,
    order: Seq<PlayerName>,
    ante: int,
) -> Map<PlayerName, int> {
    credited(points, order.take(payers(points, order, ante)), flat(-ante))
}

/// An order in which all players with points can be asked.
pub open spec fn is_asking_order<V>(order: Seq<PlayerName>, points: Map<PlayerName, V>) -> bool {
    &&& order.no_duplicates()
    &&& order.to_set() == points.dom()
}

/// Crediting leaves alone who has points, and the points of everyone not named.
pub proof fn lemma_credited_frame(
    points: Map<PlayerName, int>,
    names: Seq<PlayerName>,
    amount: spec_fn(PlayerName) -> int,
)
    requires
        all_seated(names, points),
    ensures
        credited(points, names, amount).dom() == points.dom(),
        forall|p: PlayerName|
            !names.contains(p) ==> #[trigger] credited(points, names, amount)[p] == points[p],
    decreases names.len(),
{
    if names.len() > 0 {
        let rest = names.drop_last();
        assert forall|i: int| 0 <= i < rest.len() implies points.contains_key(#[trigger] rest[i]) by {
            assert(points.contains_key(names[i]));
        }
        lemma_credited_frame(points, rest, amount);
        assert(points.contains_key(names[names.len() - 1]));
        assert(credited(points, names, amount).dom() =~= points.dom());
        assert forall|p: PlayerName| !names.contains(p) implies #[trigger] credited(
            points,
            names,
            amount,
        )[p] == points[p] by {
            if rest.contains(p) {
                let i = rest.index_of(p);
                assert(names[i] == p);
            }
            assert(names[names.len() - 1] != p);
        }
    }
}

/// Crediting adds to the points of all players what was credited.
proof fn lemma_credited_total(
    points: Map<PlayerName, int>,
    names: Seq<PlayerName>,
    amount: spec_fn(PlayerName) -> int,
)
    requires
        all_seated(names, points),
    ensures
        total(credited(points, names, amount)) == total(points) + sum_of(names, amount),
    decreases names.len(),
{
    if names.len() > 0 {
        let rest = names.drop_last();
        assert forall|i: int| 0 <= i < rest.len() implies points.contains_key(#[trigger] rest[i]) by {
            assert(points.contains_key(names[i]));
        }
        lemma_credited_frame(points, rest, amount);
        lemma_credited_total(points, rest, amount);
        let before = credited(points, rest, amount);
        assert(points.contains_key(names[names.len() - 1]));
        lemma_total_insert(before, names.last(), before[names.last()] + amount(names.last()));
    }
}

/// While nothing negative is credited, points only grow.
pub proof fn lemma_credited_grows(
    points: Map<PlayerName, int>,
    names: Seq<PlayerName>,
    amount: spec_fn(PlayerName) -> int,
    n: int,
    p: PlayerName,
)
    requires
        0 <= n <= names.len(),
        forall|q: PlayerName| #[trigger] amount(q) >= 0,
    ensures
        credited(points, names.take(n), amount)[p] <= credited(points, names, amount)[p],
        0 <= sum_of(names.take(n), amount) <= sum_of(names, amount),
    decreases names.len(),
{
    if n < names.len() {
        lemma_credited_grows(points, names.drop_last(), amount, n, p);
        assert(names.drop_last().take(n) =~= names.take(n));
        assert(amount(names.last()) >= 0);
    } else {
        assert(names.take(n) =~= names);
        if names.len() > 0 {
            lemma_credited_grows(points, names.drop_last(), amount, names.len() - 1, p);
            assert(names.drop_last().take(names.len() - 1) =~= names.drop_last());
            assert(amount(names.last()) >= 0);
        }
    }
}

/// The sum of one amount for everyone.
proof fn lemma_sum_flat(names: Seq<PlayerName>, amount: int)
    ensures
        sum_of(names, flat(amount)) == names.len() * amount,
    decreases names.len(),
{
    if names.len() > 0 {
        lemma_sum_flat(names.drop_last(), amount);
        assert(names.len() * amount == (names.len() - 1) * amount + amount) by (nonlinear_arith);
    } else {
        assert(names.len() * amount == 0) by (nonlinear_arith)
            requires
                names.len() == 0,
        ;
    }
}

/// There are no more players than names.
pub proof fn lemma_player_bound(order: Seq<PlayerName>)
    requires
        order.no_duplicates(),
    ensures
        order.len() <= 11,
{
    order.unique_seq_to_set();
    let all = all_names();
    all.lemma_cardinality_of_set();
    crate::player::lemma_codes();
    assert forall|p: PlayerName| #[trigger] order.to_set().contains(p) implies all.to_set().contains(
        p,
    ) by {
        assert(all[crate::player::code_of(p) as int] == p);
    }
    vstd::set_lib::lemma_len_subset(order.to_set(), all.to_set());
}

/// What came of collecting the antes.
pub struct Antes {
    /// What was put in.
    pub pot: usize,
    /// The player who could not pay, at whom the collecting stopped.
    pub unable: Option<PlayerName>,
}

impl Antes {
    /// What comes of asking the players in an order.
    pub open spec fn is_collected(
        self,
        points: Map<PlayerName, int>,
        order: Seq<PlayerName>,
        ante: int,
    ) -> bool {
        let n = payers(points, order, ante);
        &&& self.pot == n * ante
        &&& self.unable == (if n < order.len() {
            Some(order[n])
        } else {
            None
        })
    }
}

impl MatchMaker {
    /// Collects the ante from the players in an order, up to the first who cannot pay.
    pub fn collect_antes_in(&mut self, order: &Vec<PlayerName>, ante: usize) -> (antes: Antes)
        requires
            is_asking_order(order@, old(self).player_points@),
            ante <= FULL_POT,
        ensures
            amounts(final(self).player_points@) == points_after_antes(
                amounts(old(self).player_points@),
                order@,
                ante as int,
            ),
            antes.is_collected(amounts(old(self).player_points@), order@, ante as int),
            *final(self) == (MatchMaker { player_points: final(self).player_points, ..*old(self) }),
    {
        let ghost before = *self;
        let ghost points = amounts(self.player_points@);
        proof {
            lemma_player_bound(order@);
            assert(order@.take(0) =~= Seq::empty());
            assert forall|i: int| 0 <= i < order@.len() implies points.contains_key(
                #[trigger] order@[i],
            ) by {
                assert(order@.to_set().contains(order@[i]));
            }
        }
        let mut pot: usize = 0;
        let mut unable: Option<PlayerName> = None;
        let mut i: usize = 0;
        while i < order.len()
            invariant_except_break
                unable is None,
            invariant
                i <= order@.len() <= 11,
                ante <= FULL_POT,
                order@.no_duplicates(),
                all_seated(order@, points),
                pot == i * ante,
                points == amounts(before.player_points@),
                amounts(self.player_points@) == credited(
                    points,
                    order@.take(i as int),
                    flat(-(ante as int)),
                ),
                payers(points, order@, ante as int) == payers_from(
                    points,
                    order@,
                    ante as int,
                    i as int,
                ),
                *self == (MatchMaker { player_points: self.player_points, ..before }),
            ensures
                pot == i * ante,
                unable == (if i < order@.len() {
                    Some(order@[i as int])
                } else {
                    None
                }),
                payers(points, order@, ante as int) == i,
                amounts(self.player_points@) == credited(
                    points,
                    order@.take(i as int),
                    flat(-(ante as int)),
                ),
                *self == (MatchMaker { player_points: self.player_points, ..before }),
            decreases order@.len() - i,
        {
            let name: PlayerName = order[i];
            let ghost asked = order@.take(i as int);
            proof {
                assert forall|j: int| 0 <= j < asked.len() implies points.contains_key(
                    #[trigger] asked[j],
                ) by {
                    assert(points.contains_key(order@[j]));
                }
                lemma_credited_frame(points, asked, flat(-(ante as int)));
                if asked.contains(name) {
                    let j = asked.index_of(name);
                    assert(order@[j] == order@[i as int]);
                }
                assert(points.contains_key(order@[i as int]));
                assert(amounts(self.player_points@)[name] == points[name]);
                assert(amounts(self.player_points@).contains_key(name));
            }
            let held: usize = match self.player_points.get(&name) {
                Some(held) => *held,
                None => 0,
            };
            if held < ante {
                unable = Some(name);
                break;
            }
            self.player_points.insert(name, held - ante);
            proof {
                assert(order@.take(i + 1).drop_last() =~= asked);
                assert(amounts(self.player_points@) =~= credited(
                    points,
                    order@.take(i + 1),
                    flat(-(ante as int)),
                ));
                assert((i + 1) * ante == i * ante + ante) by (nonlinear_arith);
                assert(i * ante <= 11 * 200) by (nonlinear_arith)
                    requires
                        i <= 11,
                        ante <= 200,
                ;
            }
            pot = pot + ante;
            i = i + 1;
        }
        Antes { pot, unable }
    }

    /// Collects the ante from the players with points, in the order in which their hash table
    /// walks them, up to the first who cannot pay.
    pub fn collect_antes(&mut self, ante: usize) -> (antes: Antes)
        requires
            ante <= FULL_POT,
        ensures
            exists|order: Seq<PlayerName>|
                {
                    &&& #[trigger] is_asking_order(order, old(self).player_points@)
                    &&& amounts(final(self).player_points@) == points_after_antes(
                        amounts(old(self).player_points@),
                        order,
                        ante as int,
                    )
                    &&& antes.is_collected(amounts(old(self).player_points@), order, ante as int)
                },
            *final(self) == (MatchMaker { player_points: final(self).player_points, ..*old(self) }),
    {
        let order: Vec<PlayerName> = self.player_points.names();
        assert(is_asking_order(order@, self.player_points@));
        self.collect_antes_in(&order, ante)
    }
}

/// The largest number of goal cards in one hand.
pub open spec fn best_of(
    names: Seq<PlayerName>,
    hands: Map<PlayerName, Inventory>,
    goal: Card,
) -> usize
    decreases names.len(),
{
    if names.len() == 0 {
        0
    } else {
        let before = best_of(names.drop_last(), hands, goal);
        if hands[names.last()].of(goal) > before {
            hands[names.last()].of(goal)
        } else {
            before
        }
    }
}

/// The players who hold a number of goal cards, in the order of their places.
pub open spec fn holders(
    names: Seq<PlayerName>,
    hands: Map<PlayerName, Inventory>,
    goal: Card,
    n: usize,
) -> Seq<PlayerName> {
    names.filter(|name: PlayerName| hands[name].of(goal) == n)
}

/// The players with the most goal cards, in the order of their places.
pub open spec fn leaders(
    names: Seq<PlayerName>,
    hands: Map<PlayerName, Inventory>,
    goal: Card,
) -> Seq<PlayerName> {
    holders(names, hands, goal, best_of(names, hands, goal))
}

/// The first of the leaders; nobody, while no goal card is held.
pub open spec fn winner_of(
    names: Seq<PlayerName>,
    hands: Map<PlayerName, Inventory>,
    goal: Card,
) -> PlayerName {
    if best_of(names, hands, goal) == 0 {
        PlayerName::Nobody
    } else {
        leaders(names, hands, goal).first()
    }
}

/// The leaders who are level with the winner: all after the first; every leader, while no goal
/// card is held.
pub open spec fn tied_of(
    names: Seq<PlayerName>,
    hands: Map<PlayerName, Inventory>,
    goal: Card,
) -> Seq<PlayerName> {
    if best_of(names, hands, goal) == 0 {
        leaders(names, hands, goal)
    } else {
        leaders(names, hands, goal).drop_first()
    }
}

/// What is left of the pot once the goal cards have been paid for.
pub open spec fn rest_of_pot(
    names: Seq<PlayerName>,
    hands: Map<PlayerName, Inventory>,
    goal: Card,
    pot: int,
) -> int {
    pot - sum_of(names, awards(hands, goal))
}

/// The part of the rest that goes to each leader: an equal part, rounded down, and so all of it
/// for a sole winner.
pub open spec fn share_of(
    names: Seq<PlayerName>,
    hands: Map<PlayerName, Inventory>,
    goal: Card,
    pot: int,
) -> int {
    rest_of_pot(names, hands, goal, pot) / leaders(names, hands, goal).len() as int
}

/// The players to whom a share is paid: every leader.
pub open spec fn paid_of(
    names: Seq<PlayerName>,
    hands: Map<PlayerName, Inventory>,
    goal: Card,
) -> Seq<PlayerName> {
    leaders(names, hands, goal)
}

/// The points after a round was scored.
pub open spec fn scored(
    points: Map<PlayerName, int>,
    names: Seq<PlayerName>,
    hands: Map<PlayerName, Inventory>,
    goal: Card,
    pot: int,
) -> Map<PlayerName, int> {
    credited(
        credited(points, names, awards(hands, goal)),
        paid_of(names, hands, goal),
        flat(share_of(names, hands, goal, pot)),
    )
}

/// A round can be scored: somebody plays, every player has a hand and points, the pot covers the
/// goal cards, and nobody's points leave the range of machine numbers.
pub open spec fn can_score(
    points: Map<PlayerName, int>,
    names: Seq<PlayerName>,
    hands: Map<PlayerName, Inventory>,
    goal: Card,
    pot: int,
) -> bool {
    &&& names.len() > 0
    &&& all_seated(names, hands)
    &&& all_seated(names, points)
    &&& rest_of_pot(names, hands, goal, pot) >= 0
    &&& forall|p: PlayerName|
        points.contains_key(p) ==> #[trigger] scored(points, names, hands, goal, pot)[p]
            <= usize::MAX
}

/// One more player at the end of the row.
pub proof fn lemma_leaders_push(
    names: Seq<PlayerName>,
    hands: Map<PlayerName, Inventory>,
    goal: Card,
    n: usize,
)
    requires
        names.len() > 0,
    ensures
        holders(names, hands, goal, n) == (if hands[names.last()].of(goal) == n {
            holders(names.drop_last(), hands, goal, n).push(names.last())
        } else {
            holders(names.drop_last(), hands, goal, n)
        }),
{
    reveal_with_fuel(Seq::filter, 2);
}

/// Nobody holds more goal cards than the best hand, so nobody holds a larger number.
proof fn lemma_no_holders_above_best(
    names: Seq<PlayerName>,
    hands: Map<PlayerName, Inventory>,
    goal: Card,
    n: usize,
)
    requires
        n > best_of(names, hands, goal),
    ensures
        holders(names, hands, goal, n).len() == 0,
    decreases names.len(),
{
    if names.len() > 0 {
        lemma_no_holders_above_best(names.drop_last(), hands, goal, n);
        lemma_leaders_push(names, hands, goal, n);
    } else {
        reveal_with_fuel(Seq::filter, 2);
    }
}

/// There is a leader wherever there is a player, and every leader has a place.
pub proof fn lemma_leaders_exist(
    names: Seq<PlayerName>,
    hands: Map<PlayerName, Inventory>,
    goal: Card,
)
    ensures
        names.len() > 0 ==> leaders(names, hands, goal).len() > 0,
        best_of(names, hands, goal) == 0 ==> leaders(names, hands, goal) == names,
        leaders(names, hands, goal).len() <= names.len(),
    decreases names.len(),
{
    if names.len() > 0 {
        let best = best_of(names, hands, goal);
        lemma_leaders_exist(names.drop_last(), hands, goal);
        lemma_leaders_push(names, hands, goal, best);
        if best > best_of(names.drop_last(), hands, goal) {
            lemma_no_holders_above_best(names.drop_last(), hands, goal, best);
        }
        if best == 0 {
            assert(names.drop_last().push(names.last()) =~= names);
        }
    } else {
        reveal_with_fuel(Seq::filter, 2);
        assert(leaders(names, hands, goal) =~= names);
    }
}

/// Holders are players.
pub proof fn lemma_holders_are_players(
    names: Seq<PlayerName>,
    hands: Map<PlayerName, Inventory>,
    goal: Card,
    n: usize,
    i: int,
)
    requires
        0 <= i < holders(names, hands, goal, n).len(),
    ensures
        names.contains(holders(names, hands, goal, n)[i]),
        hands[holders(names, hands, goal, n)[i]].of(goal) == n,
    decreases names.len(),
{
    if names.len() > 0 {
        lemma_leaders_push(names, hands, goal, n);
        if i < holders(names.drop_last(), hands, goal, n).len() {
            lemma_holders_are_players(names.drop_last(), hands, goal, n, i);
            let p = holders(names, hands, goal, n)[i];
            let j = names.drop_last().index_of(p);
            assert(names[j] == p);
        } else {
            assert(names[names.len() - 1] == names.last());
        }
    } else {
        reveal_with_fuel(Seq::filter, 2);
    }
}

/// How a round ended.
pub struct RoundResult {
    /// The first player with the most goal cards; nobody, while no goal card is held.
    pub winner: PlayerName,
    /// The winner's goal cards.
    pub goal_cards: usize,
    /// The other players with as many goal cards.
    pub tied: Vec<PlayerName>,
    /// What was left of the pot for the players with the most goal cards.
    pub pot: usize,
    /// What each of them receives of it.
    pub share: usize,
}

impl RoundResult {
    /// The result is that of a round.
    pub open spec fn is_result(
        self,
        names: Seq<PlayerName>,
        hands: Map<PlayerName, Inventory>,
        goal: Card,
        pot: int,
    ) -> bool {
        &&& self.winner == winner_of(names, hands, goal)
        &&& self.goal_cards == best_of(names, hands, goal)
        &&& self.tied@ == tied_of(names, hands, goal)
        &&& self.pot == rest_of_pot(names, hands, goal, pot)
        &&& self.share == share_of(names, hands, goal, pot)
    }
}

/// The shares of all leaders come to the rest of the pot, but for what cannot be divided.
pub proof fn lemma_shares(
    names: Seq<PlayerName>,
    hands: Map<PlayerName, Inventory>,
    goal: Card,
    pot: int,
)
    requires
        names.len() > 0,
        rest_of_pot(names, hands, goal, pot) >= 0,
    ensures
        leaders(names, hands, goal).len() > 0,
        share_of(names, hands, goal, pot) >= 0,
        leaders(names, hands, goal).len() * share_of(names, hands, goal, pot) == rest_of_pot(
            names,
            hands,
            goal,
            pot,
        ) - rest_of_pot(names, hands, goal, pot) % leaders(names, hands, goal).len() as int,
        0 <= rest_of_pot(names, hands, goal, pot) % leaders(names, hands, goal).len() as int
            <= rest_of_pot(names, hands, goal, pot),
{
    lemma_leaders_exist(names, hands, goal);
    let rest = rest_of_pot(names, hands, goal, pot);
    let n = leaders(names, hands, goal).len() as int;
    assert(rest / n >= 0 && n * (rest / n) == rest - rest % n && 0 <= rest % n <= rest)
        by (nonlinear_arith)
        requires
            rest >= 0,
            n > 0,
    ;
}

/// A point where points pass the machine limit rules out that the round can be scored.
proof fn lemma_overflow_is_final(
    points: Map<PlayerName, int>,
    names: Seq<PlayerName>,
    hands: Map<PlayerName, Inventory>,
    goal: Card,
    pot: int,
    n: int,
    p: PlayerName,
)
    requires
        0 <= n <= names.len(),
        points.contains_key(p),
        credited(points, names.take(n), awards(hands, goal))[p] > usize::MAX,
    ensures
        !can_score(points, names, hands, goal, pot),
{
    let paid = credited(points, names, awards(hands, goal));
    lemma_credited_grows(points, names, awards(hands, goal), n, p);
    if names.len() > 0 && rest_of_pot(names, hands, goal, pot) >= 0 {
        let share = share_of(names, hands, goal, pot);
        lemma_shares(names, hands, goal, pot);
        let takers = paid_of(names, hands, goal);
        lemma_credited_grows(paid, takers, flat(share), 0, p);
        assert(takers.take(0) =~= Seq::empty());
        assert(scored(points, names, hands, goal, pot)[p] > usize::MAX);
    }
}

/// Pays for the goal cards in each hand out of the pot and finds the leaders. Gives up where an
/// entry is missing, the pot runs out or a player's points become too many.
fn pay_for_cards(
    points: &mut PlayerMap<usize>,
    names: &Vec<PlayerName>,
    hands: &PlayerMap<Inventory>,
    goal: Card,
    pot: usize,
) -> (result: Option<(usize, PlayerName, usize, Vec<PlayerName>)>)
    ensures
        match result {
            Some((rest, winner, best, tied)) => {
                &&& all_seated(names@, hands@)
                &&& all_seated(names@, old(points)@)
                &&& amounts(final(points)@) == credited(
                    amounts(old(points)@),
                    names@,
                    awards(hands@, goal),
                )
                &&& rest == rest_of_pot(names@, hands@, goal, pot as int)
                &&& winner == winner_of(names@, hands@, goal)
                &&& best == best_of(names@, hands@, goal)
                &&& tied@ == tied_of(names@, hands@, goal)
            },
            None => !can_score(amounts(old(points)@), names@, hands@, goal, pot as int),
        },
{
    let ghost start = amounts(points@);
    let ghost h = hands@;
    let ghost award = awards(h, goal);
    let mut rest: usize = pot;
    let mut winner: PlayerName = PlayerName::Nobody;
    let mut best: usize = 0;
    let mut tied: Vec<PlayerName> = Vec::new();
    proof {
        assert(names@.take(0) =~= Seq::empty());
        lemma_leaders_exist(names@.take(0), h, goal);
        assert(leaders(names@.take(0), h, goal) =~= Seq::empty());
    }
    for i in 0..names.len()
        invariant
            start == amounts(old(points)@),
            h == hands@,
            award == awards(h, goal),
            forall|j: int| 0 <= j < i ==> h.contains_key(#[trigger] names@[j]),
            forall|j: int| 0 <= j < i ==> start.contains_key(#[trigger] names@[j]),
            amounts(points@) == credited(start, names@.take(i as int), award),
            amounts(points@).dom() == start.dom(),
            rest == rest_of_pot(names@.take(i as int), h, goal, pot as int),
            winner == winner_of(names@.take(i as int), h, goal),
            best == best_of(names@.take(i as int), h, goal),
            tied@ == tied_of(names@.take(i as int), h, goal),
    {
        let name: PlayerName = names[i];
        let ghost seen = names@.take(i as int);
        let ghost next = names@.take(i + 1);
        proof {
            assert(next.drop_last() =~= seen);
            assert(next.last() == name);
            assert(award(name) == CARD_AWARD * h[name].of(goal));
            lemma_credited_grows(start, names@, award, i + 1, name);
        }
        let goal_cards: usize = match hands.get(&name) {
            Some(hand) => hand.get(&goal),
            None => {
                assert(!h.contains_key(names@[i as int]));
                return None;
            },
        };
        let held: usize = match points.get(&name) {
            Some(held) => *held,
            None => {
                assert(!start.contains_key(names@[i as int]));
                return None;
            },
        };
        let earned: usize = match goal_cards.checked_mul(CARD_AWARD) {
            Some(earned) => earned,
            None => {
                return None;
            },
        };
        if earned > rest {
            return None;
        }
        if held > usize::MAX - earned {
            proof {
                lemma_overflow_is_final(start, names@, h, goal, pot as int, i + 1, name);
            }
            return None;
        }
        proof {
            lemma_leaders_push(next, h, goal, best_of(next, h, goal));
            lemma_leaders_exist(seen, h, goal);
            if goal_cards > best {
                lemma_no_holders_above_best(seen, h, goal, goal_cards);
            }
        }
        if goal_cards >= best {
            if goal_cards == best {
                tied.push(name);
            } else {
                winner = name;
                best = goal_cards;
                tied.clear();
            }
        }
        points.insert(name, held + earned);
        rest = rest - earned;
        proof {
            assert(amounts(points@) =~= credited(start, next, award));
            assert(tied@ =~= tied_of(next, h, goal));
        }
    }
    assert(names@.take(names@.len() as int) =~= names@);
    Some((rest, winner, best, tied))
}

/// Pays one amount to each of the names in turn. Gives up where somebody's points become too
/// many.
fn pay_each(points: &mut PlayerMap<usize>, names: &Vec<PlayerName>, amount: usize) -> (done: bool)
    requires
        all_seated(names@, old(points)@),
    ensures
        done ==> amounts(final(points)@) == credited(
            amounts(old(points)@),
            names@,
            flat(amount as int),
        ),
        done <==> forall|p: PlayerName|
            old(points)@.contains_key(p) ==> #[trigger] credited(
                amounts(old(points)@),
                names@,
                flat(amount as int),
            )[p] <= usize::MAX,
{
    let ghost start = amounts(points@);
    let ghost each = flat(amount as int);
    assert(names@.take(0) =~= Seq::empty());
    for i in 0..names.len()
        invariant
            start == amounts(old(points)@),
            each == flat(amount as int),
            all_seated(names@, start),
            amounts(points@) == credited(start, names@.take(i as int), each),
            amounts(points@).dom() == start.dom(),
    {
        let name: PlayerName = names[i];
        let ghost next = names@.take(i + 1);
        proof {
            assert(start.contains_key(names@[i as int]));
            assert(amounts(points@).contains_key(name));
            assert(next.drop_last() =~= names@.take(i as int));
            lemma_credited_grows(start, names@, each, i + 1, name);
        }
        let held: usize = match points.get(&name) {
            Some(held) => *held,
            None => 0,
        };
        if held > usize::MAX - amount {
            return false;
        }
        points.insert(name, held + amount);
        assert(amounts(points@) =~= credited(start, next, each));
    }
    assert(names@.take(names@.len() as int) =~= names@);
    assert forall|p: PlayerName| old(points)@.contains_key(p) implies #[trigger] credited(
        start,
        names@,
        each,
    )[p] <= usize::MAX by {
        assert(amounts(points@).contains_key(p));
        assert(amounts(points@)[p] == points@[p]);
    }
    true
}

/// The players to whom a share is paid are at the table.
pub proof fn lemma_paid_are_seated(
    points: Map<PlayerName, int>,
    names: Seq<PlayerName>,
    hands: Map<PlayerName, Inventory>,
    goal: Card,
)
    requires
        all_seated(names, points),
    ensures
        all_seated(paid_of(names, hands, goal), points),
{
    let takers = paid_of(names, hands, goal);
    assert forall|i: int| 0 <= i < takers.len() implies points.contains_key(#[trigger] takers[i]) by {
        lemma_holders_are_players(names, hands, goal, best_of(names, hands, goal), i);
        let j = names.index_of(takers[i]);
        assert(points.contains_key(names[j]));
    }
}

/// Lists the winner, if there is one, and the players who are level with the winner.
fn list_leaders(winner: PlayerName, best: usize, tied: &Vec<PlayerName>) -> (all: Vec<PlayerName>)
    ensures
        all@ == (if best > 0 {
            seq![winner] + tied@
        } else {
            tied@
        }),
{
    let mut all: Vec<PlayerName> = Vec::new();
    if best > 0 {
        all.push(winner);
    }
    let ghost first = all@;
    for i in 0..tied.len()
        invariant
            all@ == first + tied@.take(i as int),
    {
        all.push(tied[i]);
        assert(all@ =~= first + tied@.take(i + 1));
    }
    assert(all@ =~= first + tied@);
    all
}

/// Scores a round from the points, the hands and the pot. There is no result exactly where the
/// round cannot be scored.
#[verifier::rlimit(30)]
pub fn score(
    points: &PlayerMap<usize>,
    names: &Vec<PlayerName>,
    hands: &PlayerMap<Inventory>,
    goal: Card,
    pot: usize,
) -> (result: Option<(PlayerMap<usize>, RoundResult)>)
    ensures
        result is Some <==> can_score(amounts(points@), names@, hands@, goal, pot as int),
        result matches Some((after, round)) ==> {
            &&& amounts(after@) == scored(amounts(points@), names@, hands@, goal, pot as int)
            &&& round.is_result(names@, hands@, goal, pot as int)
        },
{
    if names.len() == 0 {
        return None;
    }
    let mut after: PlayerMap<usize> = points.copy();
    let ghost start = amounts(points@);
    let ghost award = awards(hands@, goal);
    let (rest, winner, best, tied): (usize, PlayerName, usize, Vec<PlayerName>) = match pay_for_cards(
        &mut after,
        names,
        hands,
        goal,
        pot,
    ) {
        Some(paid) => paid,
        None => {
            return None;
        },
    };
    proof {
        lemma_leaders_exist(names@, hands@, goal);
        lemma_credited_frame(start, names@, award);
        lemma_paid_are_seated(start, names@, hands@, goal);
        assert(start.dom() =~= points@.dom());
        assert(amounts(after@).dom() =~= after@.dom());
        assert forall|i: int| 0 <= i < paid_of(names@, hands@, goal).len() implies after@.contains_key(
            #[trigger] paid_of(names@, hands@, goal)[i],
        ) by {
            assert(start.contains_key(paid_of(names@, hands@, goal)[i]));
        }
    }
    let ghost mid = after@;
    let takers: Vec<PlayerName> = list_leaders(winner, best, &tied);
    assert(takers@ =~= paid_of(names@, hands@, goal));
    let share: usize = rest / takers.len();
    let done: bool = pay_each(&mut after, &takers, share);
    proof {
        assert(scored(start, names@, hands@, goal, pot as int) == credited(
            amounts(mid),
            paid_of(names@, hands@, goal),
            flat(share as int),
        ));
        assert(forall|p: PlayerName| #[trigger] start.contains_key(p) <==> mid.contains_key(p));
    }
    if !done {
        return None;
    }
    Some((after, RoundResult { winner, goal_cards: best, tied, pot: rest, share }))
}

impl MatchMaker {
    /// Whether the round can be scored with a pot.
    pub fn can_score_round(&self, pot: usize) -> (yes: bool)
        ensures
            yes == can_score(
                amounts(self.player_points@),
                self.player_names@,
                self.player_inventories@,
                self.goal_suit,
                pot as int,
            ),
    {
        score(
            &self.player_points,
            &self.player_names,
            &self.player_inventories,
            self.goal_suit,
            pot,
        ).is_some()
    }

    /// Pays each player for the goal cards in hand and the rest of the pot to whoever holds the
    /// most of them.
    pub fn score_round(&mut self, pot: usize) -> (result: RoundResult)
        requires
            can_score(
                amounts(old(self).player_points@),
                old(self).player_names@,
                old(self).player_inventories@,
                old(self).goal_suit,
                pot as int,
            ),
        ensures
            amounts(final(self).player_points@) == scored(
                amounts(old(self).player_points@),
                old(self).player_names@,
                old(self).player_inventories@,
                old(self).goal_suit,
                pot as int,
            ),
            result.is_result(
                old(self).player_names@,
                old(self).player_inventories@,
                old(self).goal_suit,
                pot as int,
            ),
            *final(self) == (MatchMaker { player_points: final(self).player_points, ..*old(self) }),
    {
        let (points, result): (PlayerMap<usize>, RoundResult) = score(
            &self.player_points,
            &self.player_names,
            &self.player_inventories,
            self.goal_suit,
            pot,
        ).unwrap();
        self.player_points = points;
        result
    }
}

/// The antes make the pot: what leaves the players is in it.
pub proof fn law_antes_make_the_pot(points: Map<PlayerName, int>, order: Seq<PlayerName>, ante: int)
    requires
        is_asking_order(order, points),
    ensures
        total(points_after_antes(points, order, ante)) + payers(points, order, ante) * ante == total(
            points,
        ),
{
    lemma_payers_bounds(points, order, ante, 0);
    let asked = order.take(payers(points, order, ante));
    assert forall|i: int| 0 <= i < asked.len() implies points.contains_key(#[trigger] asked[i]) by {
        assert(order.to_set().contains(order[i]));
    }
    lemma_credited_total(points, asked, flat(-ante));
    lemma_sum_flat(asked, -ante);
    let k = payers(points, order, ante);
    assert(k * (-ante) + k * ante == 0) by (nonlinear_arith);
}

pub proof fn lemma_payers_bounds(points: Map<PlayerName, int>, order: Seq<PlayerName>, ante: int, i: int)
    requires
        0 <= i <= order.len(),
    ensures
        i <= payers_from(points, order, ante, i) <= order.len(),
        forall|j: int|
            i <= j < payers_from(points, order, ante, i) ==> points[#[trigger] order[j]] >= ante,
        payers_from(points, order, ante, i) < order.len() ==> points[order[payers_from(
            points,
            order,
            ante,
            i,
        )]] < ante,
    decreases order.len() - i,
{
    if i < order.len() && points[order[i]] >= ante {
        lemma_payers_bounds(points, order, ante, i + 1);
    }
}

/// Where everyone can pay the ante, everyone does, in whatever order they are asked.
pub proof fn law_everyone_pays_who_can(
    points: Map<PlayerName, int>,
    order: Seq<PlayerName>,
    ante: int,
    p: PlayerName,
)
    requires
        is_asking_order(order, points),
        forall|q: PlayerName| points.contains_key(q) ==> #[trigger] points[q] >= ante,
        points.contains_key(p),
    ensures
        payers(points, order, ante) == order.len(),
        points_after_antes(points, order, ante)[p] == points[p] - ante,
{
    lemma_payers_bounds(points, order, ante, 0);
    let k = payers(points, order, ante);
    if k < order.len() {
        assert(order.to_set().contains(order[k]));
        assert(points[order[k]] >= ante);
    }
    assert(order.take(k) =~= order);
    assert(order.to_set().contains(p));
    let i = order.index_of(p);
    lemma_credited_once(points, order, flat(-ante), i);
}

/// Where no name comes twice, each is credited once.
pub proof fn lemma_credited_once(
    points: Map<PlayerName, int>,
    names: Seq<PlayerName>,
    amount: spec_fn(PlayerName) -> int,
    i: int,
)
    requires
        names.no_duplicates(),
        all_seated(names, points),
        0 <= i < names.len(),
    ensures
        credited(points, names, amount)[names[i]] == points[names[i]] + amount(names[i]),
    decreases names.len(),
{
    let rest = names.drop_last();
    assert forall|j: int| 0 <= j < rest.len() implies points.contains_key(#[trigger] rest[j]) by {
        assert(points.contains_key(names[j]));
    }
    lemma_credited_frame(points, rest, amount);
    if i < rest.len() {
        lemma_credited_once(points, rest, amount, i);
        assert(names[i] != names[names.len() - 1]);
    } else if rest.contains(names[i]) {
        let j = rest.index_of(names[i]);
        assert(names[j] == names[i]);
    }
}

/// Scoring pays the pot out, but for the points that cannot be divided between the leaders: with
/// a sole winner, all of it.
pub proof fn law_scoring_pays_the_pot(
    points: Map<PlayerName, int>,
    names: Seq<PlayerName>,
    hands: Map<PlayerName, Inventory>,
    goal: Card,
    pot: int,
)
    requires
        can_score(points, names, hands, goal, pot),
    ensures
        total(scored(points, names, hands, goal, pot)) == total(points) + pot - rest_of_pot(
            names,
            hands,
            goal,
            pot,
        ) % leaders(names, hands, goal).len() as int,
{
    lemma_scored_total(points, names, hands, goal, pot);
}

/// What scoring pays out.
pub proof fn lemma_scored_total(
    points: Map<PlayerName, int>,
    names: Seq<PlayerName>,
    hands: Map<PlayerName, Inventory>,
    goal: Card,
    pot: int,
)
    requires
        names.len() > 0,
        all_seated(names, points),
        rest_of_pot(names, hands, goal, pot) >= 0,
    ensures
        scored(points, names, hands, goal, pot).dom() == points.dom(),
        total(scored(points, names, hands, goal, pot)) == total(points) + pot - rest_of_pot(
            names,
            hands,
            goal,
            pot,
        ) % leaders(names, hands, goal).len() as int,
{
    let award = awards(hands, goal);
    let takers = paid_of(names, hands, goal);
    let share = share_of(names, hands, goal, pot);
    lemma_credited_frame(points, names, award);
    lemma_credited_total(points, names, award);
    lemma_paid_are_seated(points, names, hands, goal);
    let paid = credited(points, names, award);
    assert forall|i: int| 0 <= i < takers.len() implies paid.contains_key(#[trigger] takers[i]) by {
        assert(points.contains_key(takers[i]));
    }
    lemma_credited_frame(paid, takers, flat(share));
    lemma_credited_total(paid, takers, flat(share));
    lemma_sum_flat(takers, share);
    lemma_shares(names, hands, goal, pot);
}

/// Scoring never makes points: the players gain at most the pot, and fewer points are left in it
/// than there are leaders.
pub proof fn law_scoring_makes_no_points(
    points: Map<PlayerName, int>,
    names: Seq<PlayerName>,
    hands: Map<PlayerName, Inventory>,
    goal: Card,
    pot: int,
)
    requires
        can_score(points, names, hands, goal, pot),
    ensures
        total(scored(points, names, hands, goal, pot)) <= total(points) + pot,
        total(scored(points, names, hands, goal, pot)) > total(points) + pot - leaders(
            names,
            hands,
            goal,
        ).len(),
{
    lemma_scored_total(points, names, hands, goal, pot);
    lemma_shares(names, hands, goal, pot);
    let rest = rest_of_pot(names, hands, goal, pot);
    let n = leaders(names, hands, goal).len() as int;
    assert(rest % n < n) by (nonlinear_arith)
        requires
            n > 0,
    ;
}

/// Ten points for each card that distinct players hold add up to no more than for all cards.
proof fn lemma_awards_bound(names: Seq<PlayerName>, hands: Map<PlayerName, Inventory>, goal: Card)
    requires
        names.no_duplicates(),
        all_seated(names, hands),
    ensures
        sum_of(names, awards(hands, goal)) <= CARD_AWARD * total(holdings(hands, goal)),
{
    let held = holdings(hands, goal);
    let take = |p: PlayerName| -held[p];
    assert forall|i: int| 0 <= i < names.len() implies held.contains_key(#[trigger] names[i]) by {
        assert(hands.contains_key(names[i]));
    }
    lemma_credited_total(held, names, take);
    lemma_credited_frame(held, names, take);
    let left = credited(held, names, take);
    assert forall|p: PlayerName| left.contains_key(p) implies #[trigger] left[p] >= 0 by {
        if names.contains(p) {
            let i = names.index_of(p);
            lemma_credited_once(held, names, take, i);
        } else {
            assert(left[p] == held[p]);
        }
    }
    lemma_total_nonnegative(left);
    lemma_sum_scaled(names, hands, goal, take);
}

proof fn lemma_sum_scaled(
    names: Seq<PlayerName>,
    hands: Map<PlayerName, Inventory>,
    goal: Card,
    take: spec_fn(PlayerName) -> int,
)
    requires
        all_seated(names, hands),
        forall|p: PlayerName| #[trigger] take(p) == -holdings(hands, goal)[p],
    ensures
        sum_of(names, awards(hands, goal)) == CARD_AWARD * -sum_of(names, take),
    decreases names.len(),
{
    if names.len() > 0 {
        let rest = names.drop_last();
        assert forall|i: int| 0 <= i < rest.len() implies hands.contains_key(#[trigger] rest[i]) by {
            assert(hands.contains_key(names[i]));
        }
        lemma_sum_scaled(rest, hands, goal, take);
        assert(hands.contains_key(names[names.len() - 1]));
        assert(take(names.last()) == -holdings(hands, goal)[names.last()]);
    }
}

/// Where no player sits twice and everyone paid the ante, the pot covers the goal cards, of
/// which the deck holds ten at most.
pub proof fn law_full_pot_covers_the_goal_cards(
    names: Seq<PlayerName>,
    hands: Map<PlayerName, Inventory>,
    goal: Card,
)
    requires
        names.no_duplicates(),
        names.len() > 0,
        all_seated(names, hands),
        total(holdings(hands, goal)) <= 10,
    ensures
        rest_of_pot(
            names,
            hands,
            goal,
            names.len() * (FULL_POT as int / names.len() as int),
        ) >= 0,
{
    lemma_awards_bound(names, hands, goal);
    lemma_player_bound(names);
    let n = names.len() as int;
    assert(n * (FULL_POT as int / n) >= 100) by (nonlinear_arith)
        requires
            0 < n <= 11,
            FULL_POT == 200,
    ;
}

/// The winner and the players level with the winner are those with the most goal cards: every
/// leader holds as many, no player holds more, and nobody else holds as many.
pub proof fn law_leaders_hold_the_most(
    names: Seq<PlayerName>,
    hands: Map<PlayerName, Inventory>,
    goal: Card,
    i: int,
)
    requires
        0 <= i < names.len(),
    ensures
        hands[names[i]].of(goal) <= best_of(names, hands, goal),
        leaders(names, hands, goal).contains(names[i]) <==> hands[names[i]].of(goal) == best_of(
            names,
            hands,
            goal,
        ),
        leaders(names, hands, goal).len() > 0,
{
    lemma_best_bounds(names, hands, goal, i);
    lemma_leaders_exist(names, hands, goal);
    let best = best_of(names, hands, goal);
    if leaders(names, hands, goal).contains(names[i]) {
        let k = leaders(names, hands, goal).index_of(names[i]);
        lemma_holders_are_players(names, hands, goal, best, k);
    }
    if hands[names[i]].of(goal) == best {
        lemma_holders_contain(names, hands, goal, best, i);
    }
}

pub proof fn lemma_best_bounds(
    names: Seq<PlayerName>,
    hands: Map<PlayerName, Inventory>,
    goal: Card,
    i: int,
)
    requires
        0 <= i < names.len(),
    ensures
        hands[names[i]].of(goal) <= best_of(names, hands, goal),
    decreases names.len(),
{
    if i < names.len() - 1 {
        lemma_best_bounds(names.drop_last(), hands, goal, i);
    }
}

proof fn lemma_holders_contain(
    names: Seq<PlayerName>,
    hands: Map<PlayerName, Inventory>,
    goal: Card,
    n: usize,
    i: int,
)
    requires
        0 <= i < names.len(),
        hands[names[i]].of(goal) == n,
    ensures
        holders(names, hands, goal, n).contains(names[i]),
    decreases names.len(),
{
    lemma_leaders_push(names, hands, goal, n);
    let all = holders(names, hands, goal, n);
    if i < names.len() - 1 {
        let rest = holders(names.drop_last(), hands, goal, n);
        lemma_holders_contain(names.drop_last(), hands, goal, n, i);
        let k = rest.index_of(names[i]);
        assert(all[k] == names[i]);
    } else {
        assert(all[all.len() - 1] == names[i]);
    }
}

/// Where no player sits twice, nobody is twice among the holders.
proof fn lemma_holders_once(
    names: Seq<PlayerName>,
    hands: Map<PlayerName, Inventory>,
    goal: Card,
    n: usize,
)
    requires
        names.no_duplicates(),
    ensures
        holders(names, hands, goal, n).no_duplicates(),
    decreases names.len(),
{
    if names.len() > 0 {
        let rest = names.drop_last();
        let less = holders(rest, hands, goal, n);
        lemma_leaders_push(names, hands, goal, n);
        lemma_holders_once(rest, hands, goal, n);
        assert forall|i: int| 0 <= i < less.len() implies #[trigger] less[i] != names.last() by {
            lemma_holders_are_players(rest, hands, goal, n, i);
            let j = rest.index_of(less[i]);
            assert(names[j] == less[i]);
            assert(names[j] != names[names.len() - 1]);
        }
    } else {
        reveal_with_fuel(Seq::filter, 2);
    }
}

/// Where no player sits twice, each player is paid for the goal cards in hand, and besides that
/// an equal share of the rest of the pot exactly where the player is a leader.
pub proof fn law_scoring_by_player(
    points: Map<PlayerName, int>,
    names: Seq<PlayerName>,
    hands: Map<PlayerName, Inventory>,
    goal: Card,
    pot: int,
    i: int,
)
    requires
        names.no_duplicates(),
        all_seated(names, points),
        0 <= i < names.len(),
    ensures
        scored(points, names, hands, goal, pot)[names[i]] == points[names[i]] + CARD_AWARD
            * hands[names[i]].of(goal) + (if leaders(names, hands, goal).contains(names[i]) {
            share_of(names, hands, goal, pot)
        } else {
            0
        }),
{
    let award = awards(hands, goal);
    let takers = paid_of(names, hands, goal);
    let share = share_of(names, hands, goal, pot);
    let paid = credited(points, names, award);
    lemma_leaders_exist(names, hands, goal);
    lemma_holders_once(names, hands, goal, best_of(names, hands, goal));
    lemma_credited_frame(points, names, award);
    lemma_credited_once(points, names, award, i);
    lemma_paid_are_seated(points, names, hands, goal);
    assert forall|k: int| 0 <= k < takers.len() implies paid.contains_key(#[trigger] takers[k]) by {
        assert(points.contains_key(takers[k]));
    }
    lemma_credited_frame(paid, takers, flat(share));
    if takers.contains(names[i]) {
        lemma_credited_once(paid, takers, flat(share), takers.index_of(names[i]));
    }
}

} // verus!
