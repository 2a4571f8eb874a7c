//! Maps that keep their keys in order.
use vstd::prelude::*;
use vstd::string::*;

use crate::order::{
    map_of, order_of, text_lt, text_order_irreflexive, text_order_total, text_order_transitive,
    unique, unique_pairs_are_the_map, TextOrder,
};

verus! {

/// A key that stands in an order.
pub trait OrderedKey: Sized {
    /// What the key says.
    type Said;

    /// What the key says.
    spec fn said(&self) -> Self::Said;

    /// Whether one key comes before another.
    spec fn before(a: Self::Said, b: Self::Said) -> bool;

    /// No key comes before itself.
    proof fn irreflexive(a: Self::Said)
        ensures
            !Self::before(a, a),
    ;

    /// The order of keys is transitive.
    proof fn transitive(a: Self::Said, b: Self::Said, c: Self::Said)
        requires
            Self::before(a, b),
            Self::before(b, c),
        ensures
            Self::before(a, c),
    ;

    /// Of two different keys one comes before the other.
    proof fn total(a: Self::Said, b: Self::Said)
        ensures
            a == b || Self::before(a, b) || Self::before(b, a),
    ;

    /// Where one key stands to another.
    fn stands_to(&self, other: &Self) -> (order: TextOrder)
        ensures
            match order {
                TextOrder::Before => Self::before(self.said(), other.said()),
                TextOrder::Same => self.said() == other.said(),
                TextOrder::After => Self::before(other.said(), self.said()),
            },
    ;
}

/// The place of a routed expert: its layer, then its number.
#[derive(Clone, Copy, Debug, PartialEq, Eq, Structural)]
pub struct ExpertPlace {
    pub layer_id: usize,
    pub expert_id: usize,
}

impl OrderedKey for ExpertPlace {
    type Said = ExpertPlace;

    open spec fn said(&self) -> ExpertPlace {
        *self
    }

    open spec fn before(a: ExpertPlace, b: ExpertPlace) -> bool {
        a.layer_id < b.layer_id || (a.layer_id == b.layer_id && a.expert_id < b.expert_id)
    }

    proof fn irreflexive(a: ExpertPlace) {
    }

    proof fn transitive(a: ExpertPlace, b: ExpertPlace, c: ExpertPlace) {
    }

    proof fn total(a: ExpertPlace, b: ExpertPlace) {
    }

    fn stands_to(&self, other: &ExpertPlace) -> (order: TextOrder) {
        if self.layer_id < other.layer_id || (self.layer_id == other.layer_id && self.expert_id
            < other.expert_id) {
            TextOrder::Before
        } else if self.layer_id == other.layer_id && self.expert_id == other.expert_id {
            TextOrder::Same
        } else {
            TextOrder::After
        }
    }
}

/// The place of a tensor of a layer: its layer, then its name there.
#[derive(Clone, Debug, PartialEq, Eq)]
pub struct LayerPlace {
    pub layer_id: usize,
    pub suffix: String,
}

impl OrderedKey for LayerPlace {
    type Said = (usize, Seq<char>);

    open spec fn said(&self) -> (usize, Seq<char>) {
        (self.layer_id, self.suffix@)
    }

    open spec fn before(a: (usize, Seq<char>), b: (usize, Seq<char>)) -> bool {
        a.0 < b.0 || (a.0 == b.0 && text_lt(a.1, b.1))
    }

    proof fn irreflexive(a: (usize, Seq<char>)) {
        text_order_irreflexive(a.1);
    }

    proof fn transitive(a: (usize, Seq<char>), b: (usize, Seq<char>), c: (usize, Seq<char>)) {
        if a.0 == b.0 && b.0 == c.0 {
            text_order_transitive(a.1, b.1, c.1);
        }
    }

    proof fn total(a: (usize, Seq<char>), b: (usize, Seq<char>)) {
        text_order_total(a.1, b.1);
    }

    fn stands_to(&self, other: &LayerPlace) -> (order: TextOrder) {
        if self.layer_id < other.layer_id {
            TextOrder::Before
        } else if self.layer_id > other.layer_id {
            TextOrder::After
        } else {
            proof {
                text_order_total(self.suffix@, other.suffix@);
            }
            order_of(self.suffix.as_str(), other.suffix.as_str())
        }
    }
}

impl OrderedKey for String {
    type Said = Seq<char>;

    open spec fn said(&self) -> Seq<char> {
        self@
    }

    open spec fn before(a: Seq<char>, b: Seq<char>) -> bool {
        text_lt(a, b)
    }

    proof fn irreflexive(a: Seq<char>) {
        text_order_irreflexive(a);
    }

    proof fn transitive(a: Seq<char>, b: Seq<char>, c: Seq<char>) {
        text_order_transitive(a, b, c);
    }

    proof fn total(a: Seq<char>, b: Seq<char>) {
        text_order_total(a, b);
    }

    fn stands_to(&self, other: &String) -> (order: TextOrder) {
        proof {
            text_order_total(self@, other@);
        }
        order_of(self.as_str(), other.as_str())
    }
}

/// Whether the keys of `pairs` ascend strictly.
pub open spec fn in_order<Q: OrderedKey, T>(pairs: Seq<(Q::Said, T)>) -> bool {
    forall|i: int, j: int|
        0 <= i < j < pairs.len() ==> Q::before(#[trigger] pairs[i].0, #[trigger] pairs[j].0)
}

/// A map listed by pairs with ascending keys holds exactly these pairs.
pub proof fn ordered_pairs_are_the_map<Q: OrderedKey, T>(pairs: Seq<(Q::Said, T)>)
    requires
        in_order::<Q, T>(pairs),
    ensures
        unique(pairs),
        map_of(pairs).dom().finite(),
        map_of(pairs).len() == pairs.len(),
        forall|i: int|
            0 <= i < pairs.len() ==> map_of(pairs).dom().contains((#[trigger] pairs[i]).0)
                && map_of(pairs)[pairs[i].0] == pairs[i].1,
        forall|k: Q::Said| #[trigger]
            map_of(pairs).dom().contains(k) ==> exists|i: int|
                0 <= i < pairs.len() && (#[trigger] pairs[i]).0 == k,
{
    assert forall|i: int, j: int| 0 <= i < j < pairs.len() implies #[trigger] pairs[i].0
        != #[trigger] pairs[j].0 by {
        Q::irreflexive(pairs[i].0);
        assert(Q::before(pairs[i].0, pairs[j].0));
    }
    unique_pairs_are_the_map(pairs);
}

/// A map that keeps its keys in order.
#[derive(Clone, Debug, PartialEq, Eq)]
#[verifier::reject_recursive_types(Q)]
pub struct OrderedMap<Q, T> {
    entries: Vec<(Q, T)>,
}

impl<Q: OrderedKey, T> View for OrderedMap<Q, T> {
    type V = Map<Q::Said, T>;

    open spec fn view(&self) -> Map<Q::Said, T> {
        map_of(self.pairs())
    }
}

impl<Q: OrderedKey, T> OrderedMap<Q, T> {
    /// The keys and values in the order in which they are kept.
    pub closed spec fn pairs(self) -> Seq<(Q::Said, T)> {
        Seq::new(self.entries@.len(), |i: int| (self.entries@[i].0.said(), self.entries@[i].1))
    }

    /// The keys ascend strictly.
    pub open spec fn wf(self) -> bool {
        in_order::<Q, T>(self.pairs())
    }

    /// The map without entries.
    pub fn new() -> (map: Self)
        ensures
            map.wf(),
            map.pairs() == Seq::<(Q::Said, T)>::empty(),
            map@ == Map::<Q::Said, T>::empty(),
    {
        let map = OrderedMap { entries: Vec::new() };
        proof {
            assert(map.pairs() =~= Seq::empty());
        }
        map
    }

    /// The number of entries.
    pub fn len(&self) -> (len: usize)
        requires
            self.wf(),
        ensures
            len == self.pairs().len(),
            len == self@.len(),
            self@.dom().finite(),
    {
        proof {
            ordered_pairs_are_the_map::<Q, T>(self.pairs());
        }
        self.entries.len()
    }

    /// The key at a place.
    pub fn key_at(&self, index: usize) -> (key: &Q)
        requires
            index < self.pairs().len(),
        ensures
            key.said() == self.pairs()[index as int].0,
    {
        &self.entries[index].0
    }

    /// The value at a place.
    pub fn value_at(&self, index: usize) -> (value: &T)
        requires
            index < self.pairs().len(),
        ensures
            *value == self.pairs()[index as int].1,
    {
        &self.entries[index].1
    }

    /// The place of the first key that does not come before `key`, and whether it is `key`.
    fn find(&self, key: &Q) -> (found: (usize, bool))
        requires
            self.wf(),
        ensures
            found.0 <= self.pairs().len(),
            forall|i: int|
                0 <= i < found.0 ==> Q::before(#[trigger] self.pairs()[i].0, key.said()),
            forall|i: int|
                found.0 < i < self.pairs().len() ==> Q::before(
                    key.said(),
                    #[trigger] self.pairs()[i].0,
                ),
            found.1 ==> found.0 < self.pairs().len() && self.pairs()[found.0 as int].0
                == key.said(),
            !found.1 && found.0 < self.pairs().len() ==> Q::before(
                key.said(),
                self.pairs()[found.0 as int].0,
            ),
            found.1 == self@.dom().contains(key.said()),
    {
        let mut i: usize = 0;
        while i < self.entries.len()
            invariant
                self.wf(),
                i <= self.entries@.len(),
                forall|j: int|
                    0 <= j < i ==> Q::before(#[trigger] self.pairs()[j].0, key.said()),
            decreases self.entries@.len() - i,
        {
            let order = self.entries[i].0.stands_to(key);
            match order {
                TextOrder::Before => {
                    i = i + 1;
                },
                TextOrder::Same => {
                    proof {
                        ordered_pairs_are_the_map::<Q, T>(self.pairs());
                        assert(self.pairs()[i as int].0 == key.said());
                    }
                    return (i, true);
                },
                TextOrder::After => {
                    proof {
                        ordered_pairs_are_the_map::<Q, T>(self.pairs());
                        assert forall|j: int| i < j < self.pairs().len() implies Q::before(
                            key.said(),
                            #[trigger] self.pairs()[j].0,
                        ) by {
                            Q::transitive(
                                key.said(),
                                self.pairs()[i as int].0,
                                self.pairs()[j].0,
                            );
                        }
                        Q::irreflexive(key.said());
                    }
                    return (i, false);
                },
            }
        }
        proof {
            ordered_pairs_are_the_map::<Q, T>(self.pairs());
            Q::irreflexive(key.said());
        }
        (i, false)
    }

    /// The value of a key.
    pub fn get(&self, key: &Q) -> (value: Option<&T>)
        requires
            self.wf(),
        ensures
            match value {
                Some(v) => self@.dom().contains(key.said()) && self@[key.said()] == *v,
                None => !self@.dom().contains(key.said()),
            },
    {
        let (place, present) = self.find(key);
        if present {
            proof {
                ordered_pairs_are_the_map::<Q, T>(self.pairs());
            }
            Some(&self.entries[place].1)
        } else {
            None
        }
    }

    /// Whether a key has a value.
    pub fn contains_key(&self, key: &Q) -> (present: bool)
        requires
            self.wf(),
        ensures
            present == self@.dom().contains(key.said()),
    {
        self.find(key).1
    }

    /// Sets the value of a key.
    pub fn insert(&mut self, key: Q, value: T)
        requires
            old(self).wf(),
        ensures
            final(self).wf(),
            final(self)@ == old(self)@.insert(key.said(), value),
    {
        let ghost before = self.pairs();
        let (place, present) = self.find(&key);
        let ghost said = key.said();
        proof {
            ordered_pairs_are_the_map::<Q, T>(before);
        }
        if present {
            self.entries[place] = (key, value);
            proof {
                let after = self.pairs();
                assert(after =~= before.update(place as int, (said, value)));
                crate::order::lemma_replaced(before, after, place as int, said, value);
            }
        } else {
            self.entries.insert(place, (key, value));
            proof {
                let after = self.pairs();
                assert(after =~= before.insert(place as int, (said, value)));
                lemma_inserted_in_order::<Q, T>(before, after, place as int, said, value);
            }
        }
    }

    /// Takes the value of a key out of the map.
    pub fn take(&mut self, key: &Q) -> (value: Option<T>)
        requires
            old(self).wf(),
        ensures
            final(self).wf(),
            match value {
                Some(v) => old(self)@.dom().contains(key.said()) && old(self)@[key.said()] == v
                    && final(self)@ == old(self)@.remove(key.said()),
                None => !old(self)@.dom().contains(key.said()) && final(self)@ == old(self)@,
            },
    {
        let ghost before = self.pairs();
        proof {
            ordered_pairs_are_the_map::<Q, T>(before);
        }
        let (place, present) = self.find(key);
        if present {
            let (_, value) = self.entries.remove(place);
            proof {
                let after = self.pairs();
                assert(after =~= before.remove(place as int));
                crate::order::lemma_removed(before, after, place as int, key.said());
                assert forall|i: int, j: int| 0 <= i < j < after.len() implies Q::before(
                    #[trigger] after[i].0,
                    #[trigger] after[j].0,
                ) by {
                    let a = if i < place {
                        i
                    } else {
                        i + 1
                    };
                    let b = if j < place {
                        j
                    } else {
                        j + 1
                    };
                    assert(after[i] == before[a]);
                    assert(after[j] == before[b]);
                }
                assert(map_of(before)[before[place as int].0] == value);
            }
            Some(value)
        } else {
            None
        }
    }
}

pub(crate) proof fn lemma_inserted_in_order<Q: OrderedKey, T>(
    before: Seq<(Q::Said, T)>,
    after: Seq<(Q::Said, T)>,
    place: int,
    key: Q::Said,
    value: T,
)
    requires
        in_order::<Q, T>(before),
        0 <= place <= before.len(),
        forall|i: int| 0 <= i < place ==> Q::before(#[trigger] before[i].0, key),
        forall|i: int| place <= i < before.len() ==> Q::before(key, #[trigger] before[i].0),
        after == before.insert(place, (key, value)),
    ensures
        in_order::<Q, T>(after),
        map_of(after) == map_of(before).insert(key, value),
{
    assert forall|i: int, j: int| 0 <= i < j < after.len() implies Q::before(
        #[trigger] after[i].0,
        #[trigger] after[j].0,
    ) by {
        let a = if i < place {
            i
        } else {
            i - 1
        };
        let b = if j < place {
            j
        } else {
            j - 1
        };
        if i != place {
            assert(after[i] == before[a]);
        }
        if j != place {
            assert(after[j] == before[b]);
        }
    }
    ordered_pairs_are_the_map::<Q, T>(before);
    ordered_pairs_are_the_map::<Q, T>(after);
    crate::order::lemma_inserted_pairs(before, after, place, key, value);
}

} // verus!
