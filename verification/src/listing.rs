//! Maps told as lists of pairs in the order of their keys.
use vstd::prelude::*;
use vstd::string::*;

use crate::json::{members, Json, JsonView};
use crate::order::{
    ascending, ascending_pairs_are_the_map, map_of, text_lt, unique, unique_pairs_are_the_map,
    TextMap,
};
use crate::ordered_map::{
    in_order, lemma_inserted_in_order, ordered_pairs_are_the_map, OrderedKey, OrderedMap,
};

verus! {

/// The pairs, with what each value says.
pub open spec fn viewed<K, T: View>(pairs: Seq<(K, T)>) -> Seq<(K, T::V)> {
    pairs.map_values(|pair: (K, T)| (pair.0, pair.1@))
}

/// Whether `pairs` lists the map in the order of its keys.
pub open spec fn lists_in_order<T>(pairs: Seq<(Seq<char>, T)>, map: Map<Seq<char>, T>) -> bool {
    ascending(pairs) && map_of(pairs) == map
}

/// The map as a list in the order of its keys.
pub open spec fn in_key_order<T>(map: Map<Seq<char>, T>) -> Seq<(Seq<char>, T)> {
    choose|pairs: Seq<(Seq<char>, T)>| lists_in_order(pairs, map)
}

/// The value of a key.
pub open spec fn value_of_key<K, T>(pairs: Seq<(K, T)>, key: K) -> Option<T> {
    if map_of(pairs).dom().contains(key) {
        Some(map_of(pairs)[key])
    } else {
        None
    }
}

proof fn lemma_drop_last<Q: OrderedKey, T>(pairs: Seq<(Q::Said, T)>)
    requires
        in_order::<Q, T>(pairs),
        pairs.len() > 0,
    ensures
        in_order::<Q, T>(pairs.drop_last()),
        !map_of(pairs.drop_last()).dom().contains(pairs.last().0),
        map_of(pairs.drop_last()) == map_of(pairs).remove(pairs.last().0),
{
    let rest = pairs.drop_last();
    assert forall|i: int, j: int| 0 <= i < j < rest.len() implies Q::before(
        #[trigger] rest[i].0,
        #[trigger] rest[j].0,
    ) by {
        assert(Q::before(pairs[i].0, pairs[j].0));
    }
    ordered_pairs_are_the_map::<Q, T>(rest);
    if map_of(rest).dom().contains(pairs.last().0) {
        let i = choose|i: int| 0 <= i < rest.len() && (#[trigger] rest[i]).0 == pairs.last().0;
        assert(Q::before(pairs[i].0, pairs[pairs.len() - 1].0));
        Q::irreflexive(pairs[i].0);
    }
    assert(map_of(pairs).remove(pairs.last().0) =~= map_of(rest));
}

proof fn lemma_last_is_last<Q: OrderedKey, T>(a: Seq<(Q::Said, T)>, b: Seq<(Q::Said, T)>)
    requires
        in_order::<Q, T>(a),
        in_order::<Q, T>(b),
        map_of(a) == map_of(b),
        a.len() > 0,
        b.len() > 0,
    ensures
        a.last() == b.last(),
{
    ordered_pairs_are_the_map::<Q, T>(a);
    ordered_pairs_are_the_map::<Q, T>(b);
    let end = a.len() - 1;
    let finish = b.len() - 1;
    assert(map_of(b).dom().contains(a[end].0));
    let j = choose|j: int| 0 <= j < b.len() && (#[trigger] b[j]).0 == a[end].0;
    assert(map_of(a).dom().contains(b[finish].0));
    let i = choose|i: int| 0 <= i < a.len() && (#[trigger] a[i]).0 == b[finish].0;
    if j != finish {
        assert(Q::before(b[j].0, b[finish].0));
        if i == end {
            Q::irreflexive(a[end].0);
        } else {
            assert(Q::before(a[i].0, a[end].0));
            Q::transitive(a[end].0, b[finish].0, a[end].0);
            Q::irreflexive(a[end].0);
        }
    }
    assert(a[end].1 == map_of(a)[a[end].0]);
    assert(b[finish].1 == map_of(b)[b[finish].0]);
}

/// A map is listed in the order of its keys in one way only.
pub proof fn order_is_unique<Q: OrderedKey, T>(a: Seq<(Q::Said, T)>, b: Seq<(Q::Said, T)>)
    requires
        in_order::<Q, T>(a),
        in_order::<Q, T>(b),
        map_of(a) == map_of(b),
    ensures
        a == b,
    decreases a.len(),
{
    ordered_pairs_are_the_map::<Q, T>(a);
    ordered_pairs_are_the_map::<Q, T>(b);
    if a.len() > 0 {
        lemma_last_is_last::<Q, T>(a, b);
        lemma_drop_last::<Q, T>(a);
        lemma_drop_last::<Q, T>(b);
        order_is_unique::<Q, T>(a.drop_last(), b.drop_last());
        assert(a =~= a.drop_last().push(a.last()));
        assert(b =~= b.drop_last().push(b.last()));
    } else {
        assert(a =~= b);
    }
}

/// A map from texts is listed in the order of its keys in one way only.
pub proof fn key_order_is_unique<T>(a: Seq<(Seq<char>, T)>, b: Seq<(Seq<char>, T)>)
    requires
        ascending(a),
        ascending(b),
        map_of(a) == map_of(b),
    ensures
        a == b,
{
    assert(in_order::<String, T>(a));
    assert(in_order::<String, T>(b));
    order_is_unique::<String, T>(a, b);
}

/// The map as a list in the order of its keys.
pub open spec fn sorted<Q: OrderedKey, T>(map: Map<Q::Said, T>) -> Seq<(Q::Said, T)> {
    choose|pairs: Seq<(Q::Said, T)>| #[trigger] in_order::<Q, T>(pairs) && map_of(pairs) == map
}

/// A list in the order of its keys is its map in that order.
pub proof fn ordered_list_is_sorted<Q: OrderedKey, T>(pairs: Seq<(Q::Said, T)>)
    requires
        in_order::<Q, T>(pairs),
    ensures
        sorted::<Q, T>(map_of(pairs)) == pairs,
{
    order_is_unique::<Q, T>(sorted::<Q, T>(map_of(pairs)), pairs);
}

proof fn lemma_place<Q: OrderedKey, T>(pairs: Seq<(Q::Said, T)>, key: Q::Said) -> (place: int)
    requires
        in_order::<Q, T>(pairs),
        forall|i: int| 0 <= i < pairs.len() ==> (#[trigger] pairs[i]).0 != key,
    ensures
        0 <= place <= pairs.len(),
        forall|i: int| 0 <= i < place ==> Q::before(#[trigger] pairs[i].0, key),
        forall|i: int| place <= i < pairs.len() ==> Q::before(key, #[trigger] pairs[i].0),
    decreases pairs.len(),
{
    if pairs.len() == 0 {
        0
    } else {
        let rest = pairs.drop_last();
        let last = pairs.len() - 1;
        Q::total(pairs[last].0, key);
        if Q::before(pairs[last].0, key) {
            assert forall|i: int| 0 <= i < pairs.len() implies Q::before(
                #[trigger] pairs[i].0,
                key,
            ) by {
                if i < last {
                    assert(Q::before(pairs[i].0, pairs[last].0));
                    Q::transitive(pairs[i].0, pairs[last].0, key);
                }
            }
            pairs.len() as int
        } else {
            lemma_drop_last::<Q, T>(pairs);
            assert forall|i: int| 0 <= i < rest.len() implies (#[trigger] rest[i]).0 != key by {
                assert(pairs[i].0 != key);
            }
            let place = lemma_place::<Q, T>(rest, key);
            assert forall|i: int| 0 <= i < place implies Q::before(#[trigger] pairs[i].0, key) by {
                assert(Q::before(rest[i].0, key));
            }
            assert forall|i: int| place <= i < pairs.len() implies Q::before(
                key,
                #[trigger] pairs[i].0,
            ) by {
                if i < last {
                    assert(Q::before(key, rest[i].0));
                }
            }
            place
        }
    }
}

/// Every finite map has a list in the order of its keys.
pub proof fn every_map_is_sorted<Q: OrderedKey, T>(map: Map<Q::Said, T>)
    requires
        map.dom().finite(),
    ensures
        in_order::<Q, T>(sorted::<Q, T>(map)),
        map_of(sorted::<Q, T>(map)) == map,
    decreases map.dom().len(),
{
    if map.dom().len() == 0 {
        let none = Seq::<(Q::Said, T)>::empty();
        assert(map_of(none) =~= map);
        assert(in_order::<Q, T>(none));
    } else {
        let key = map.dom().choose();
        let rest = map.remove(key);
        every_map_is_sorted::<Q, T>(rest);
        let pairs = sorted::<Q, T>(rest);
        ordered_pairs_are_the_map::<Q, T>(pairs);
        let place = lemma_place::<Q, T>(pairs, key);
        let after = pairs.insert(place, (key, map[key]));
        lemma_inserted_in_order::<Q, T>(pairs, after, place, key, map[key]);
        assert(map_of(after) =~= map);
    }
}

/// Every finite map from texts has a list in the order of its keys.
pub proof fn every_map_is_in_key_order<T>(map: Map<Seq<char>, T>)
    requires
        map.dom().finite(),
    ensures
        ascending(in_key_order(map)),
        map_of(in_key_order(map)) == map,
{
    every_map_is_sorted::<String, T>(map);
    assert(lists_in_order(sorted::<String, T>(map), map));
}

/// A list of pairs makes a finite map of its keys.
pub proof fn listed_maps_are_finite<K, T>(pairs: Seq<(K, T)>)
    ensures
        map_of(pairs).dom().finite(),
    decreases pairs.len(),
{
    if pairs.len() > 0 {
        listed_maps_are_finite(pairs.drop_last());
    }
}

/// An ascending list is its map in the order of its keys.
pub proof fn ascending_list_is_in_key_order<T>(pairs: Seq<(Seq<char>, T)>)
    requires
        ascending(pairs),
    ensures
        in_key_order(map_of(pairs)) == pairs,
{
    assert(lists_in_order(pairs, map_of(pairs)));
    key_order_is_unique(in_key_order(map_of(pairs)), pairs);
}

/// The map of what the values of a list say.
pub proof fn lemma_viewed<K, T: View>(pairs: Seq<(K, T)>)
    requires
        unique(pairs),
    ensures
        unique(viewed(pairs)),
        map_of(viewed(pairs)) == map_of(pairs).map_values(|value: T| value@),
{
    let said = viewed(pairs);
    assert forall|i: int, j: int| 0 <= i < j < said.len() implies #[trigger] said[i].0
        != #[trigger] said[j].0 by {
        assert(pairs[i].0 != pairs[j].0);
    }
    unique_pairs_are_the_map(pairs);
    unique_pairs_are_the_map(said);
    let values = map_of(pairs).map_values(|value: T| value@);
    assert forall|k: K| map_of(said).dom().contains(k) == #[trigger] values.dom().contains(k) by {
        if map_of(said).dom().contains(k) {
            let i = choose|i: int| 0 <= i < said.len() && (#[trigger] said[i]).0 == k;
            assert(pairs[i].0 == k);
        }
        if map_of(pairs).dom().contains(k) {
            let i = choose|i: int| 0 <= i < pairs.len() && (#[trigger] pairs[i]).0 == k;
            assert(said[i].0 == k);
        }
    }
    assert forall|k: K| #[trigger] values.dom().contains(k) implies map_of(said)[k]
        == values[k] by {
        assert(map_of(pairs).dom().contains(k));
        let i = choose|i: int| 0 <= i < pairs.len() && (#[trigger] pairs[i]).0 == k;
        assert(said[i].0 == k);
    }
    assert(map_of(said) =~= values);
}

/// What the values of an ascending list say is listed in ascending order.
pub proof fn lemma_viewed_ascending<T: View>(pairs: Seq<(Seq<char>, T)>)
    requires
        ascending(pairs),
    ensures
        ascending(viewed(pairs)),
        unique(pairs),
        map_of(viewed(pairs)) == map_of(pairs).map_values(|value: T| value@),
{
    ascending_pairs_are_the_map(pairs);
    lemma_viewed(pairs);
    let said = viewed(pairs);
    assert forall|i: int, j: int| 0 <= i < j < said.len() implies text_lt(
        #[trigger] said[i].0,
        #[trigger] said[j].0,
    ) by {
        assert(text_lt(pairs[i].0, pairs[j].0));
    }
}

impl<T: View> TextMap<T> {
    /// The keys, and what their values say, in the order of the keys.
    pub open spec fn listed(self) -> Seq<(Seq<char>, T::V)> {
        viewed(self.pairs())
    }

    /// The value of a key.
    pub fn lookup(&self, key: &str) -> (value: Option<&T>)
        requires
            self.wf(),
        ensures
            match value {
                Some(v) => value_of_key(self.listed(), key@) == Some(v@),
                None => value_of_key(self.listed(), key@) is None,
            },
    {
        proof {
            lemma_viewed_ascending(self.pairs());
        }
        self.get(key)
    }

    /// Sets the value of a key.
    pub fn set(&mut self, key: String, value: T)
        requires
            old(self).wf(),
        ensures
            final(self).wf(),
            ascending(final(self).listed()),
            map_of(final(self).listed()) == map_of(old(self).listed()).insert(key@, value@),
    {
        proof {
            lemma_viewed_ascending(self.pairs());
        }
        self.insert(key, value);
        proof {
            lemma_viewed_ascending(self.pairs());
            assert(map_of(self.listed()) =~= map_of(old(self).listed()).insert(key@, value@));
        }
    }
}

impl<Q: OrderedKey, T: View> OrderedMap<Q, T> {
    /// The keys, and what their values say, in the order of the keys.
    pub open spec fn listed(self) -> Seq<(Q::Said, T::V)> {
        viewed(self.pairs())
    }

    /// The values, by what they say, are in the order of the keys.
    pub proof fn lemma_listed(self)
        requires
            self.wf(),
        ensures
            in_order::<Q, T::V>(self.listed()),
            map_of(self.listed()) == self@.map_values(|value: T| value@),
            sorted::<Q, T::V>(map_of(self.listed())) == self.listed(),
            unique(self.pairs()),
    {
        ordered_pairs_are_the_map::<Q, T>(self.pairs());
        lemma_viewed(self.pairs());
        let pairs = self.pairs();
        let said = self.listed();
        assert forall|i: int, j: int| 0 <= i < j < said.len() implies Q::before(
            #[trigger] said[i].0,
            #[trigger] said[j].0,
        ) by {
            assert(Q::before(pairs[i].0, pairs[j].0));
        }
        ordered_list_is_sorted::<Q, T::V>(said);
    }

    /// The value of a key.
    pub fn lookup(&self, key: &Q) -> (value: Option<&T>)
        requires
            self.wf(),
        ensures
            match value {
                Some(v) => value_of_key(self.listed(), key.said()) == Some(v@),
                None => value_of_key(self.listed(), key.said()) is None,
            },
    {
        proof {
            self.lemma_listed();
        }
        self.get(key)
    }

    /// Sets the value of a key.
    pub fn set(&mut self, key: Q, value: T)
        requires
            old(self).wf(),
        ensures
            final(self).wf(),
            in_order::<Q, T::V>(final(self).listed()),
            map_of(final(self).listed()) == map_of(old(self).listed()).insert(key.said(), value@),
    {
        let ghost said = key.said();
        proof {
            self.lemma_listed();
        }
        self.insert(key, value);
        proof {
            self.lemma_listed();
            assert(map_of(self.listed()) =~= map_of(old(self).listed()).insert(said, value@));
        }
    }

    /// Takes the value of a key out of the map.
    pub fn take_out(&mut self, key: &Q) -> (value: Option<T>)
        requires
            old(self).wf(),
        ensures
            final(self).wf(),
            in_order::<Q, T::V>(final(self).listed()),
            map_of(final(self).listed()) == map_of(old(self).listed()).remove(key.said()),
            match value {
                Some(v) => value_of_key(old(self).listed(), key.said()) == Some(v@),
                None => value_of_key(old(self).listed(), key.said()) is None,
            },
    {
        proof {
            self.lemma_listed();
        }
        let value = self.take(key);
        proof {
            self.lemma_listed();
            assert(map_of(self.listed()) =~= map_of(old(self).listed()).remove(key.said()));
        }
        value
    }
}

proof fn lemma_members_are_entries(entries: Vec<(String, Json)>, n: nat)
    requires
        0 < n <= entries@.len(),
    ensures
        members(entries, n) == members(entries, (n - 1) as nat).insert(
            entries@[n - 1].0@,
            entries@[n - 1].1@,
        ),
{
}

impl Json {
    /// The members of an object, in the order of their keys.
    pub fn sorted_members(&self) -> (sorted: Option<TextMap<&Json>>)
        ensures
            match sorted {
                Some(map) => map.wf() && self@ is Object && map.listed() == in_key_order(
                    self@->Object_0,
                ) && ascending(map.listed()) && map_of(map.listed()) == self@->Object_0,
                None => !(self@ is Object),
            },
    {
        match self {
            Json::Object(entries) => {
                let mut map: TextMap<&Json> = TextMap::new();
                let mut i: usize = 0;
                proof {
                    assert(map.listed() =~= Seq::<(Seq<char>, JsonView)>::empty());
                }
                while i < entries.len()
                    invariant
                        *self == Json::Object(*entries),
                        i <= entries@.len(),
                        map.wf(),
                        ascending(map.listed()),
                        map_of(map.listed()) == members(*entries, i as nat),
                    decreases entries@.len() - i,
                {
                    map.set(entries[i].0.clone(), &entries[i].1);
                    i = i + 1;
                    proof {
                        lemma_members_are_entries(*entries, i as nat);
                    }
                }
                proof {
                    ascending_list_is_in_key_order(map.listed());
                }
                Some(map)
            },
            _ => None,
        }
    }
}

} // verus!
