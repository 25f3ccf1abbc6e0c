//! Sums over all players.

use vstd::prelude::*;

use super::PlayerName;
use super::all_names;

verus! {

/// The amount of a player, nothing where there is no entry.
pub open spec fn amount_of(amounts: Map<PlayerName, int>, name: PlayerName) -> int {
    if amounts.contains_key(name) {
        amounts[name]
    } else {
        0
    }
}

/// The amounts of some players together.
pub open spec fn sum_over(amounts: Map<PlayerName, int>, names: Seq<PlayerName>) -> int
    decreases names.len(),
{
    if names.len() == 0 {
        0
    } else {
        sum_over(amounts, names.drop_last()) + amount_of(amounts, names.last())
    }
}

/// The amounts of all players together.
#[verifier::opaque]
pub open spec fn total(amounts: Map<PlayerName, int>) -> int {
    sum_over(amounts, all_names())
}

/// Changing one entry changes a sum by as much, where the sum takes the entry in.
proof fn lemma_sum_insert(
    amounts: Map<PlayerName, int>,
    names: Seq<PlayerName>,
    name: PlayerName,
    value: int,
)
    requires
        names.no_duplicates(),
    ensures
        sum_over(amounts.insert(name, value), names) == sum_over(amounts, names) + if names.contains(
            name,
        ) {
            value - amount_of(amounts, name)
        } else {
            0
        },
    decreases names.len(),
{
    if names.len() > 0 {
        let rest = names.drop_last();
        lemma_sum_insert(amounts, rest, name, value);
        if names.last() == name {
            assert(names[names.len() - 1] == name);
            if rest.contains(name) {
                let i = rest.index_of(name);
                assert(names[i] == names[names.len() - 1]);
            }
        } else if names.contains(name) {
            let i = names.index_of(name);
            assert(rest[i] == name);
        } else if rest.contains(name) {
            let i = rest.index_of(name);
            assert(names[i] == name);
        }
    }
}

/// Every player is among all players, once.
proof fn lemma_all_names(name: PlayerName)
    ensures
        all_names().contains(name),
        all_names().no_duplicates(),
{
    super::lemma_codes();
    let c = super::code_of(name);
    assert(all_names()[c as int] == name);
    assert forall|i: int, j: int|
        0 <= i < all_names().len() && 0 <= j < all_names().len() && i != j implies all_names()[i]
        != all_names()[j] by {
        assert(super::code_of(super::name_of(i as u8)) == i);
        assert(super::code_of(super::name_of(j as u8)) == j);
    }
}

/// Changing one entry changes the total by as much.
pub proof fn lemma_total_insert(amounts: Map<PlayerName, int>, name: PlayerName, value: int)
    ensures
        total(amounts.insert(name, value)) == total(amounts) + value - amount_of(amounts, name),
{
    reveal(total);
    lemma_all_names(name);
    lemma_sum_insert(amounts, all_names(), name, value);
}

/// With nothing filed the total is zero.
pub proof fn lemma_total_empty()
    ensures
        total(Map::<PlayerName, int>::empty()) == 0,
{
    reveal(total);
    lemma_sum_empty(all_names());
}

proof fn lemma_sum_empty(names: Seq<PlayerName>)
    ensures
        sum_over(Map::<PlayerName, int>::empty(), names) == 0,
    decreases names.len(),
{
    if names.len() > 0 {
        lemma_sum_empty(names.drop_last());
    }
}

/// Amounts that are not negative add up to no negative total.
pub proof fn lemma_total_nonnegative(amounts: Map<PlayerName, int>)
    requires
        forall|p: PlayerName| amounts.contains_key(p) ==> #[trigger] amounts[p] >= 0,
    ensures
        total(amounts) >= 0,
{
    reveal(total);
    lemma_sum_nonnegative(amounts, all_names());
}

proof fn lemma_sum_nonnegative(amounts: Map<PlayerName, int>, names: Seq<PlayerName>)
    requires
        forall|p: PlayerName| amounts.contains_key(p) ==> #[trigger] amounts[p] >= 0,
    ensures
        sum_over(amounts, names) >= 0,
    decreases names.len(),
{
    if names.len() > 0 {
        lemma_sum_nonnegative(amounts, names.drop_last());
    }
}

} // verus!
