//! A table with at most one entry per player.

use std::collections::HashMap;

use vstd::prelude::*;

use super::PlayerName;
use super::code_of;
use super::lemma_codes;
use super::name_of;

verus! {

/// A hash table from players to values, keyed by the players' codes.
#[verifier::reject_recursive_types(V)]
pub struct PlayerMap<V> {
    entries: HashMap<u8, V>,
}

impl<V> View for PlayerMap<V> {
    type V = Map<PlayerName, V>;

    closed spec fn view(&self) -> Map<PlayerName, V> {
        Map::new(
            |p: PlayerName| self.entries@.contains_key(code_of(p)),
            |p: PlayerName| self.entries@[code_of(p)],
        )
    }
}

impl<V> PlayerMap<V> {
    /// Only codes of players occur as keys.
    #[verifier::type_invariant]
    spec fn keys_are_codes(self) -> bool {
        forall|c: u8| #[trigger] self.entries@.contains_key(c) ==> c < 11
    }

    /// The table without entries.
    pub fn new() -> (m: PlayerMap<V>)
        ensures
            m@ == Map::<PlayerName, V>::empty(),
    {
        let m = PlayerMap { entries: HashMap::new() };
        assert(m@ =~= Map::<PlayerName, V>::empty());
        m
    }

    /// Files a value under a player, in place of an earlier one.
    pub fn insert(&mut self, name: PlayerName, value: V)
        ensures
            final(self)@ == old(self)@.insert(name, value),
    {
        proof {
            use_type_invariant(&*self);
            lemma_codes();
        }
        let mut entries: HashMap<u8, V> = HashMap::new();
        std::mem::swap(&mut self.entries, &mut entries);
        entries.insert(name.code(), value);
        self.entries = entries;
        assert(self@ =~= old(self)@.insert(name, value));
    }

    /// The value filed under a player.
    pub fn get(&self, name: &PlayerName) -> (value: Option<&V>)
        ensures
            value == (if self@.contains_key(*name) { Some(&self@[*name]) } else { None }),
    {
        let code: u8 = name.code();
        self.entries.get(&code)
    }

    /// The players with an entry, each once, in the order in which the hash table walks them.
    /// That order is the hasher's and differs from run to run.
    pub fn names(&self) -> (names: Vec<PlayerName>)
        ensures
            names@.no_duplicates(),
            names@.to_set() == self@.dom(),
    {
        proof {
            use_type_invariant(self);
            lemma_codes();
        }
        let mut names: Vec<PlayerName> = Vec::new();
        let ghost mut codes: Seq<u8> = Seq::empty();
        for code in it: self.entries.keys()
            invariant
                self.keys_are_codes(),
                it.seq().no_duplicates(),
                it.seq().unref().to_set() == self.entries@.dom(),
                codes == it.seq().unref().take(it.index() as int),
                it.index() == it.seq().len() ==> codes == it.seq().unref(),
                codes.no_duplicates(),
                forall|i: int| 0 <= i < codes.len() ==> #[trigger] codes[i] < 11,
                names@ == codes.map_values(|c: u8| name_of(c)),
        {
            assert(it.seq().unref()[it.index() as int] == *code);
            assert(it.seq().unref().to_set().contains(*code));
            names.push(PlayerName::from_code(*code));
            proof {
                codes = codes.push(*code);
            }
        }
        proof {
            assert(codes.to_set() == self.entries@.dom());
            assert forall|p: PlayerName| names@.to_set().contains(p) <==> self@.dom().contains(p) by {
                if names@.contains(p) {
                    let i = names@.index_of(p);
                    assert(codes.contains(codes[i]));
                }
                if self@.dom().contains(p) {
                    assert(codes.to_set().contains(code_of(p)));
                    let i = codes.index_of(code_of(p));
                    assert(names@[i] == p);
                }
            }
            assert(names@.to_set() =~= self@.dom());
        }
        names
    }
}

impl<V: Copy> PlayerMap<V> {
    /// A second table with the same entries.
    pub fn copy(&self) -> (m: PlayerMap<V>)
        ensures
            m@ == self@,
    {
        let names: Vec<PlayerName> = self.names();
        let mut m: PlayerMap<V> = PlayerMap::new();
        for i in 0..names.len()
            invariant
                names@.to_set() == self@.dom(),
                m@ == self@.restrict(names@.take(i as int).to_set()),
        {
            let name: PlayerName = names[i];
            assert(names@.to_set().contains(name));
            if let Some(value) = self.get(&name) {
                m.insert(name, *value);
            }
            assert forall|p: PlayerName| names@.take(i + 1).to_set().contains(p) <==> names@.take(
                i as int,
            ).to_set().contains(p) || p == name by {
                if names@.take(i + 1).contains(p) && p != name {
                    let j = names@.take(i + 1).index_of(p);
                    assert(names@.take(i as int)[j] == p);
                }
                if names@.take(i as int).contains(p) {
                    let j = names@.take(i as int).index_of(p);
                    assert(names@.take(i + 1)[j] == p);
                }
                assert(names@.take(i + 1)[i as int] == name);
            }
            assert(m@ =~= self@.restrict(names@.take(i + 1).to_set()));
        }
        assert(names@.take(names@.len() as int) =~= names@);
        assert(m@ =~= self@);
        m
    }
}

} // verus!
