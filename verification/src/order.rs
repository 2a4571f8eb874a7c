//! The order of texts, character by character, and maps that keep their keys in it.
use vstd::prelude::*;
use vstd::string::*;

use crate::text::chars_of;

verus! {

/// Whether `a` comes before `b`: at the first difference it has the smaller character or ends.
pub open spec fn text_lt(a: Seq<char>, b: Seq<char>) -> bool
    decreases a.len(),
{
    if b.len() == 0 {
        false
    } else if a.len() == 0 {
        true
    } else if a[0] != b[0] {
        (a[0] as u32) < (b[0] as u32)
    } else {
        text_lt(a.skip(1), b.skip(1))
    }
}

/// Where one text stands to another.
#[derive(Clone, Copy, Debug, PartialEq, Eq, Structural)]
pub enum TextOrder {
    Before,
    Same,
    After,
}

/// Where `a` stands to `b`.
pub open spec fn text_order(a: Seq<char>, b: Seq<char>) -> TextOrder {
    if a == b {
        TextOrder::Same
    } else if text_lt(a, b) {
        TextOrder::Before
    } else {
        TextOrder::After
    }
}

proof fn lemma_char_codes(a: char, b: char)
    ensures
        (a as u32 == b as u32) == (a == b),
{
}

/// No text comes before itself.
pub proof fn text_order_irreflexive(a: Seq<char>)
    ensures
        !text_lt(a, a),
    decreases a.len(),
{
    if a.len() > 0 {
        text_order_irreflexive(a.skip(1));
    }
}

/// The order of texts is transitive.
pub proof fn text_order_transitive(a: Seq<char>, b: Seq<char>, c: Seq<char>)
    requires
        text_lt(a, b),
        text_lt(b, c),
    ensures
        text_lt(a, c),
    decreases a.len(),
{
    if a.len() > 0 {
        if a[0] == b[0] && b[0] == c[0] {
            text_order_transitive(a.skip(1), b.skip(1), c.skip(1));
        }
    }
}

/// Of two different texts exactly one comes before the other.
pub proof fn text_order_total(a: Seq<char>, b: Seq<char>)
    ensures
        a != b ==> (text_lt(a, b) != text_lt(b, a)),
    decreases a.len(),
{
    if a.len() == 0 {
        if b.len() == 0 {
            assert(a =~= b);
        }
    } else if b.len() > 0 {
        if a[0] == b[0] {
            text_order_total(a.skip(1), b.skip(1));
            if a.skip(1) == b.skip(1) {
                assert(a =~= seq![a[0]] + a.skip(1));
                assert(b =~= seq![b[0]] + b.skip(1));
            }
        } else {
            lemma_char_codes(a[0], b[0]);
        }
    }
}

/// Where `a` stands to `b`.
pub fn order_of(a: &str, b: &str) -> (order: TextOrder)
    ensures
        order == text_order(a@, b@),
{
    let left = chars_of(a);
    let right = chars_of(b);
    let mut i: usize = 0;
    proof {
        assert(left@.skip(0) =~= left@);
        assert(right@.skip(0) =~= right@);
    }
    while i < left.len() && i < right.len()
        invariant
            left@ == a@,
            right@ == b@,
            i <= left@.len(),
            i <= right@.len(),
            left@.take(i as int) == right@.take(i as int),
            text_lt(left@, right@) == text_lt(left@.skip(i as int), right@.skip(i as int)),
        decreases left@.len() - i,
    {
        proof {
            lemma_char_codes(left@[i as int], right@[i as int]);
            assert(left@.skip(i as int)[0] == left@[i as int]);
            assert(right@.skip(i as int)[0] == right@[i as int]);
            assert(left@.skip(i as int).skip(1) =~= left@.skip(i + 1));
            assert(right@.skip(i as int).skip(1) =~= right@.skip(i + 1));
        }
        if left[i] != right[i] {
            proof {
                assert(left@ != right@);
            }
            return if (left[i] as u32) < (right[i] as u32) {
                TextOrder::Before
            } else {
                TextOrder::After
            };
        }
        proof {
            assert(left@.take(i + 1) =~= left@.take(i as int).push(left@[i as int]));
            assert(right@.take(i + 1) =~= right@.take(i as int).push(right@[i as int]));
        }
        i = i + 1;
    }
    if left.len() == right.len() {
        proof {
            assert(left@.take(i as int) =~= left@);
            assert(right@.take(i as int) =~= right@);
        }
        TextOrder::Same
    } else if left.len() < right.len() {
        TextOrder::Before
    } else {
        TextOrder::After
    }
}

/// Whether no key occurs twice in `pairs`.
pub open spec fn unique<K, T>(pairs: Seq<(K, T)>) -> bool {
    forall|i: int, j: int| 0 <= i < j < pairs.len() ==> #[trigger] pairs[i].0 != #[trigger] pairs[j].0
}

/// Whether the keys of `pairs` ascend strictly.
pub open spec fn ascending<T>(pairs: Seq<(Seq<char>, T)>) -> bool {
    forall|i: int, j: int|
        0 <= i < j < pairs.len() ==> text_lt(#[trigger] pairs[i].0, #[trigger] pairs[j].0)
}

/// The map that `pairs` lists.
pub open spec fn map_of<K, T>(pairs: Seq<(K, T)>) -> Map<K, T>
    decreases pairs.len(),
{
    if pairs.len() == 0 {
        Map::empty()
    } else {
        map_of(pairs.drop_last()).insert(pairs.last().0, pairs.last().1)
    }
}

/// A map listed by pairs with different keys holds exactly these pairs.
pub proof fn unique_pairs_are_the_map<K, T>(pairs: Seq<(K, T)>)
    requires
        unique(pairs),
    ensures
        map_of(pairs).dom().finite(),
        map_of(pairs).len() == pairs.len(),
        forall|i: int|
            0 <= i < pairs.len() ==> map_of(pairs).dom().contains((#[trigger] pairs[i]).0)
                && map_of(pairs)[pairs[i].0] == pairs[i].1,
        forall|k: K| #[trigger]
            map_of(pairs).dom().contains(k) ==> exists|i: int|
                0 <= i < pairs.len() && (#[trigger] pairs[i]).0 == k,
    decreases pairs.len(),
{
    if pairs.len() > 0 {
        let rest = pairs.drop_last();
        assert forall|i: int, j: int| 0 <= i < j < rest.len() implies #[trigger] rest[i].0
            != #[trigger] rest[j].0 by {
            assert(pairs[i].0 != pairs[j].0);
        }
        unique_pairs_are_the_map(rest);
        let last = pairs.last();
        assert forall|i: int| 0 <= i < rest.len() implies (#[trigger] rest[i]).0 != last.0 by {
            assert(pairs[i].0 != pairs[pairs.len() - 1].0);
        }
        assert(!map_of(rest).dom().contains(last.0));
        assert forall|i: int| 0 <= i < pairs.len() implies map_of(pairs).dom().contains(
            (#[trigger] pairs[i]).0,
        ) && map_of(pairs)[pairs[i].0] == pairs[i].1 by {
            if i < rest.len() {
                assert(rest[i] == pairs[i]);
            }
        }
        assert forall|k: K| #[trigger] map_of(pairs).dom().contains(k) implies exists|i: int|
            0 <= i < pairs.len() && (#[trigger] pairs[i]).0 == k by {
            if k == last.0 {
                assert(pairs[pairs.len() - 1].0 == k);
            } else {
                assert(map_of(rest).dom().contains(k));
                let i = choose|i: int| 0 <= i < rest.len() && (#[trigger] rest[i]).0 == k;
                assert(pairs[i].0 == k);
            }
        }
    }
}

/// A map listed by pairs with ascending keys holds exactly these pairs.
pub proof fn ascending_pairs_are_the_map<T>(pairs: Seq<(Seq<char>, T)>)
    requires
        ascending(pairs),
    ensures
        unique(pairs),
        map_of(pairs).dom().finite(),
        map_of(pairs).len() == pairs.len(),
        forall|i: int|
            0 <= i < pairs.len() ==> map_of(pairs).dom().contains((#[trigger] pairs[i]).0)
                && map_of(pairs)[pairs[i].0] == pairs[i].1,
        forall|k: Seq<char>| #[trigger]
            map_of(pairs).dom().contains(k) ==> exists|i: int|
                0 <= i < pairs.len() && (#[trigger] pairs[i]).0 == k,
{
    assert forall|i: int, j: int| 0 <= i < j < pairs.len() implies #[trigger] pairs[i].0
        != #[trigger] pairs[j].0 by {
        text_order_irreflexive(pairs[i].0);
        assert(text_lt(pairs[i].0, pairs[j].0));
    }
    unique_pairs_are_the_map(pairs);
}

/// A map from texts that keeps its keys in the order of texts.
#[derive(Clone, Debug, PartialEq, Eq)]
pub struct TextMap<T> {
    entries: Vec<(String, T)>,
}

impl<T> View for TextMap<T> {
    type V = Map<Seq<char>, T>;

    open spec fn view(&self) -> Map<Seq<char>, T> {
        map_of(self.pairs())
    }
}

impl<T> TextMap<T> {
    /// The keys and values in the order in which they are kept.
    pub closed spec fn pairs(self) -> Seq<(Seq<char>, T)> {
        Seq::new(
            self.entries@.len(),
            |i: int| (self.entries@[i].0@, self.entries@[i].1),
        )
    }

    /// The keys ascend strictly.
    pub open spec fn wf(self) -> bool {
        ascending(self.pairs())
    }

    /// The map without entries.
    pub fn new() -> (map: Self)
        ensures
            map.wf(),
            map.pairs() == Seq::<(Seq<char>, T)>::empty(),
            map@ == Map::<Seq<char>, T>::empty(),
    {
        let map = TextMap { entries: Vec::new() };
        proof {
            assert(map.pairs() =~= Seq::empty());
        }
        map
    }

    /// The number of entries.
    pub fn len(&self) -> (len: usize)
        requires
            self.wf(),
        ensures
            len == self.pairs().len(),
            len == self@.len(),
            self@.dom().finite(),
    {
        proof {
            ascending_pairs_are_the_map(self.pairs());
        }
        self.entries.len()
    }

    /// The key at a place.
    pub fn key_at(&self, index: usize) -> (key: &str)
        requires
            index < self.pairs().len(),
        ensures
            key@ == self.pairs()[index as int].0,
    {
        self.entries[index].0.as_str()
    }

    /// The value at a place.
    pub fn value_at(&self, index: usize) -> (value: &T)
        requires
            index < self.pairs().len(),
        ensures
            *value == self.pairs()[index as int].1,
    {
        &self.entries[index].1
    }

    /// The place of the first key that does not come before `key`, and whether it is `key`.
    fn find(&self, key: &str) -> (found: (usize, bool))
        requires
            self.wf(),
        ensures
            found.0 <= self.pairs().len(),
            forall|i: int| 0 <= i < found.0 ==> text_lt(#[trigger] self.pairs()[i].0, key@),
            forall|i: int|
                found.0 < i < self.pairs().len() ==> text_lt(key@, #[trigger] self.pairs()[i].0),
            found.1 ==> found.0 < self.pairs().len() && self.pairs()[found.0 as int].0 == key@,
            !found.1 && found.0 < self.pairs().len() ==> text_lt(
                key@,
                self.pairs()[found.0 as int].0,
            ),
            found.1 == self@.dom().contains(key@),
    {
        let mut i: usize = 0;
        proof {
            ascending_pairs_are_the_map(self.pairs());
        }
        while i < self.entries.len()
            invariant
                self.wf(),
                i <= self.entries@.len(),
                forall|j: int| 0 <= j < i ==> text_lt(#[trigger] self.pairs()[j].0, key@),
            decreases self.entries@.len() - i,
        {
            let order = order_of(self.entries[i].0.as_str(), key);
            proof {
                text_order_total(self.pairs()[i as int].0, key@);
            }
            match order {
                TextOrder::Before => {
                    i = i + 1;
                },
                TextOrder::Same => {
                    proof {
                        ascending_pairs_are_the_map(self.pairs());
                        assert(self.pairs()[i as int].0 == key@);
                    }
                    return (i, true);
                },
                TextOrder::After => {
                    proof {
                        ascending_pairs_are_the_map(self.pairs());
                        assert forall|j: int| i < j < self.pairs().len() implies text_lt(
                            key@,
                            #[trigger] self.pairs()[j].0,
                        ) by {
                            text_order_transitive(
                                key@,
                                self.pairs()[i as int].0,
                                self.pairs()[j].0,
                            );
                        }
                        text_order_irreflexive(key@);
                    }
                    return (i, false);
                },
            }
        }
        proof {
            ascending_pairs_are_the_map(self.pairs());
            text_order_irreflexive(key@);
        }
        (i, false)
    }

    /// The value of a key.
    pub fn get(&self, key: &str) -> (value: Option<&T>)
        requires
            self.wf(),
        ensures
            match value {
                Some(v) => self@.dom().contains(key@) && self@[key@] == *v,
                None => !self@.dom().contains(key@),
            },
    {
        let (place, present) = self.find(key);
        if present {
            proof {
                ascending_pairs_are_the_map(self.pairs());
            }
            Some(&self.entries[place].1)
        } else {
            None
        }
    }

    /// Whether a key has a value.
    pub fn contains_key(&self, key: &str) -> (present: bool)
        requires
            self.wf(),
        ensures
            present == self@.dom().contains(key@),
    {
        self.find(key).1
    }

    /// Sets the value of a key.
    pub fn insert(&mut self, key: String, value: T)
        requires
            old(self).wf(),
        ensures
            final(self).wf(),
            final(self)@ == old(self)@.insert(key@, value),
    {
        let ghost before = self.pairs();
        proof {
            ascending_pairs_are_the_map(before);
        }
        let (place, present) = self.find(key.as_str());
        if present {
            self.entries[place] = (key, value);
            proof {
                let after = self.pairs();
                assert(after =~= before.update(place as int, (key@, value)));
                lemma_replaced(before, after, place as int, key@, value);
            }
        } else {
            self.entries.insert(place, (key, value));
            proof {
                let after = self.pairs();
                assert(after =~= before.insert(place as int, (key@, value)));
                lemma_inserted(before, after, place as int, key@, value);
            }
        }
    }
}

impl<T> TextMap<T> {
    /// Takes the value of a key out of the map.
    pub fn take(&mut self, key: &str) -> (value: Option<T>)
        requires
            old(self).wf(),
        ensures
            final(self).wf(),
            match value {
                Some(v) => old(self)@.dom().contains(key@) && old(self)@[key@] == v && final(self)@
                    == old(self)@.remove(key@),
                None => !old(self)@.dom().contains(key@) && final(self)@ == old(self)@,
            },
    {
        let ghost before = self.pairs();
        proof {
            ascending_pairs_are_the_map(before);
        }
        let (place, present) = self.find(key);
        if present {
            let (_, value) = self.entries.remove(place);
            proof {
                let after = self.pairs();
                assert(after =~= before.remove(place as int));
                lemma_removed(before, after, place as int, key@);
                assert forall|i: int, j: int| 0 <= i < j < after.len() implies text_lt(
                    #[trigger] after[i].0,
                    #[trigger] after[j].0,
                ) by {
                    let a = if i < place {
                        i
                    } else {
                        i + 1
                    };
                    let b = if j < place {
                        j
                    } else {
                        j + 1
                    };
                    assert(after[i] == before[a]);
                    assert(after[j] == before[b]);
                }
                assert(map_of(before)[before[place as int].0] == value);
            }
            Some(value)
        } else {
            None
        }
    }
}

/// Whether `pairs` lists the value `value` for the key `key`.
#[verifier::opaque]
spec fn lists<K, T>(pairs: Seq<(K, T)>, key: K, value: T) -> bool {
    exists|i: int| 0 <= i < pairs.len() && #[trigger] pairs[i] == (key, value)
}

proof fn lemma_lists<K, T>(pairs: Seq<(K, T)>, key: K, value: T)
    requires
        unique(pairs),
    ensures
        lists(pairs, key, value) == (map_of(pairs).dom().contains(key) && map_of(pairs)[key]
            == value),
{
    reveal(lists);
    unique_pairs_are_the_map(pairs);
    if lists(pairs, key, value) {
        let i = choose|i: int| 0 <= i < pairs.len() && #[trigger] pairs[i] == (key, value);
        assert(pairs[i].0 == key);
    }
    if map_of(pairs).dom().contains(key) && map_of(pairs)[key] == value {
        let i = choose|i: int| 0 <= i < pairs.len() && (#[trigger] pairs[i]).0 == key;
        assert(pairs[i] == (key, value));
    }
}

proof fn lemma_same_pairs<K, T>(before: Seq<(K, T)>, after: Seq<(K, T)>, key: K, value: T)
    requires
        unique(before),
        unique(after),
        forall|k: K, v: T|
            k != key ==> (#[trigger] lists(after, k, v) == lists(before, k, v)),
        lists(after, key, value),
    ensures
        map_of(after) == map_of(before).insert(key, value),
{
    let target = map_of(before).insert(key, value);
    lemma_lists(after, key, value);
    assert forall|k: K| map_of(after).dom().contains(k) == target.dom().contains(k) by {
        if k != key {
            lemma_lists(after, k, map_of(after)[k]);
            lemma_lists(before, k, map_of(after)[k]);
            lemma_lists(after, k, map_of(before)[k]);
            lemma_lists(before, k, map_of(before)[k]);
        }
    }
    assert forall|k: K| map_of(after).dom().contains(k) implies map_of(after)[k]
        == target[k] by {
        if k != key {
            lemma_lists(after, k, map_of(after)[k]);
            lemma_lists(before, k, map_of(after)[k]);
        }
    }
    assert(map_of(after) =~= target);
}

pub(crate) proof fn lemma_replaced<K, T>(
    before: Seq<(K, T)>,
    after: Seq<(K, T)>,
    place: int,
    key: K,
    value: T,
)
    requires
        unique(before),
        0 <= place < before.len(),
        before[place].0 == key,
        after == before.update(place, (key, value)),
    ensures
        unique(after),
        map_of(after) == map_of(before).insert(key, value),
{
    assert(unique(after)) by {
        assert forall|i: int, j: int| 0 <= i < j < after.len() implies #[trigger] after[i].0
            != #[trigger] after[j].0 by {
            assert(before[i].0 != before[j].0);
        }
    }
    assert(lists(after, key, value)) by {
        reveal(lists);
        assert(after[place] == (key, value));
    }
    assert forall|k: K, v: T| k != key implies (#[trigger] lists(after, k, v) == lists(
        before,
        k,
        v,
    )) by {
        reveal(lists);
        if lists(after, k, v) {
            let i = choose|i: int| 0 <= i < after.len() && #[trigger] after[i] == (k, v);
            assert(before[i] == (k, v));
        }
        if lists(before, k, v) {
            let i = choose|i: int| 0 <= i < before.len() && #[trigger] before[i] == (k, v);
            assert(after[i] == (k, v));
        }
    }
    lemma_same_pairs(before, after, key, value);
}

pub(crate) proof fn lemma_inserted_pairs<K, T>(
    before: Seq<(K, T)>,
    after: Seq<(K, T)>,
    place: int,
    key: K,
    value: T,
)
    requires
        unique(before),
        unique(after),
        0 <= place <= before.len(),
        after == before.insert(place, (key, value)),
    ensures
        map_of(after) == map_of(before).insert(key, value),
{
    assert(lists(after, key, value)) by {
        reveal(lists);
        assert(after[place] == (key, value));
    }
    assert forall|k: K, v: T| k != key implies (#[trigger] lists(after, k, v) == lists(
        before,
        k,
        v,
    )) by {
        reveal(lists);
        if lists(after, k, v) {
            let i = choose|i: int| 0 <= i < after.len() && #[trigger] after[i] == (k, v);
            if i < place {
                assert(before[i] == (k, v));
            } else {
                assert(before[i - 1] == (k, v));
            }
        }
        if lists(before, k, v) {
            let i = choose|i: int| 0 <= i < before.len() && #[trigger] before[i] == (k, v);
            if i < place {
                assert(after[i] == (k, v));
            } else {
                assert(after[i + 1] == (k, v));
            }
        }
    }
    lemma_same_pairs(before, after, key, value);
}

proof fn lemma_inserted<T>(
    before: Seq<(Seq<char>, T)>,
    after: Seq<(Seq<char>, T)>,
    place: int,
    key: Seq<char>,
    value: T,
)
    requires
        ascending(before),
        0 <= place <= before.len(),
        forall|i: int| 0 <= i < place ==> text_lt(#[trigger] before[i].0, key),
        forall|i: int| place <= i < before.len() ==> text_lt(key, #[trigger] before[i].0),
        after == before.insert(place, (key, value)),
    ensures
        ascending(after),
        map_of(after) == map_of(before).insert(key, value),
{
    assert forall|i: int, j: int| 0 <= i < j < after.len() implies text_lt(
        #[trigger] after[i].0,
        #[trigger] after[j].0,
    ) by {
        let a = if i < place {
            i
        } else {
            i - 1
        };
        let b = if j < place {
            j
        } else {
            j - 1
        };
        if i != place {
            assert(after[i] == before[a]);
        }
        if j != place {
            assert(after[j] == before[b]);
        }
    }
    ascending_pairs_are_the_map(before);
    ascending_pairs_are_the_map(after);
    lemma_inserted_pairs(before, after, place, key, value);
}

proof fn lemma_pushed<K, T>(before: Seq<(K, T)>, after: Seq<(K, T)>, key: K, value: T)
    requires
        unique(before),
        forall|i: int| 0 <= i < before.len() ==> (#[trigger] before[i]).0 != key,
        after == before.push((key, value)),
    ensures
        unique(after),
        map_of(after) == map_of(before).insert(key, value),
{
    assert(after.drop_last() =~= before);
    assert forall|i: int, j: int| 0 <= i < j < after.len() implies #[trigger] after[i].0
        != #[trigger] after[j].0 by {
        assert(after[i] == before[i]);
        if j < before.len() {
            assert(after[j] == before[j]);
        }
    }
}

pub(crate) proof fn lemma_removed<K, T>(before: Seq<(K, T)>, after: Seq<(K, T)>, place: int, key: K)
    requires
        unique(before),
        0 <= place < before.len(),
        before[place].0 == key,
        after == before.remove(place),
    ensures
        unique(after),
        map_of(after) == map_of(before).remove(key),
{
    assert forall|i: int, j: int| 0 <= i < j < after.len() implies #[trigger] after[i].0
        != #[trigger] after[j].0 by {
        let a = if i < place {
            i
        } else {
            i + 1
        };
        let b = if j < place {
            j
        } else {
            j + 1
        };
        assert(after[i] == before[a]);
        assert(after[j] == before[b]);
        assert(before[a].0 != before[b].0);
    }
    assert forall|k: K, v: T| k != key implies (#[trigger] lists(after, k, v) == lists(
        before,
        k,
        v,
    )) by {
        reveal(lists);
        if lists(after, k, v) {
            let i = choose|i: int| 0 <= i < after.len() && #[trigger] after[i] == (k, v);
            if i < place {
                assert(before[i] == (k, v));
            } else {
                assert(before[i + 1] == (k, v));
            }
        }
        if lists(before, k, v) {
            let i = choose|i: int| 0 <= i < before.len() && #[trigger] before[i] == (k, v);
            if i < place {
                assert(after[i] == (k, v));
            } else {
                assert(after[i - 1] == (k, v));
            }
        }
    }
    assert forall|v: T| !#[trigger] lists(after, key, v) by {
        reveal(lists);
        if lists(after, key, v) {
            let i = choose|i: int| 0 <= i < after.len() && #[trigger] after[i] == (key, v);
            if i < place {
                assert(after[i] == before[i]);
                assert(before[i].0 != before[place].0);
            } else {
                assert(after[i] == before[i + 1]);
                assert(before[place].0 != before[i + 1].0);
            }
        }
    }
    let target = map_of(before).remove(key);
    assert forall|k: K| map_of(after).dom().contains(k) == target.dom().contains(k) by {
        lemma_lists(after, k, map_of(after)[k]);
        if k != key {
            lemma_lists(before, k, map_of(after)[k]);
            lemma_lists(after, k, map_of(before)[k]);
            lemma_lists(before, k, map_of(before)[k]);
        }
    }
    assert forall|k: K| map_of(after).dom().contains(k) implies map_of(after)[k] == target[k] by {
        lemma_lists(after, k, map_of(after)[k]);
        if k != key {
            lemma_lists(before, k, map_of(after)[k]);
        }
    }
    assert(map_of(after) =~= target);
}

/// A map from numbers.
#[derive(Clone, Debug, PartialEq, Eq)]
pub struct NumberMap<T> {
    entries: Vec<(u64, T)>,
}

impl<T> View for NumberMap<T> {
    type V = Map<u64, T>;

    open spec fn view(&self) -> Map<u64, T> {
        map_of(self.pairs())
    }
}

impl<T> NumberMap<T> {
    /// The keys and values in the order in which they are kept.
    pub closed spec fn pairs(self) -> Seq<(u64, T)> {
        self.entries@
    }

    /// No key occurs twice.
    pub open spec fn wf(self) -> bool {
        unique(self.pairs())
    }

    /// The map without entries.
    pub fn new() -> (map: Self)
        ensures
            map.wf(),
            map.pairs() == Seq::<(u64, T)>::empty(),
            map@ == Map::<u64, T>::empty(),
    {
        NumberMap { entries: Vec::new() }
    }

    /// The number of entries.
    pub fn len(&self) -> (len: usize)
        requires
            self.wf(),
        ensures
            len == self.pairs().len(),
            len == self@.len(),
            self@.dom().finite(),
    {
        proof {
            unique_pairs_are_the_map(self.pairs());
        }
        self.entries.len()
    }

    /// The key at a place.
    pub fn key_at(&self, index: usize) -> (key: u64)
        requires
            index < self.pairs().len(),
        ensures
            key == self.pairs()[index as int].0,
    {
        self.entries[index].0
    }

    /// The value at a place.
    pub fn value_at(&self, index: usize) -> (value: &T)
        requires
            index < self.pairs().len(),
        ensures
            *value == self.pairs()[index as int].1,
    {
        &self.entries[index].1
    }

    /// The place of a key.
    fn find(&self, key: u64) -> (place: Option<usize>)
        requires
            self.wf(),
        ensures
            match place {
                Some(i) => i < self.pairs().len() && self.pairs()[i as int].0 == key
                    && self@.dom().contains(key) && self@[key] == self.pairs()[i as int].1,
                None => !self@.dom().contains(key) && forall|i: int|
                    0 <= i < self.pairs().len() ==> (#[trigger] self.pairs()[i]).0 != key,
            },
    {
        let mut i: usize = 0;
        while i < self.entries.len()
            invariant
                i <= self.entries@.len(),
                self.wf(),
                forall|j: int| 0 <= j < i ==> (#[trigger] self.pairs()[j]).0 != key,
            decreases self.entries@.len() - i,
        {
            if self.entries[i].0 == key {
                proof {
                    unique_pairs_are_the_map(self.pairs());
                    assert(self.pairs()[i as int].0 == key);
                }
                return Some(i);
            }
            i = i + 1;
        }
        proof {
            unique_pairs_are_the_map(self.pairs());
        }
        None
    }

    /// The value of a key.
    pub fn get(&self, key: u64) -> (value: Option<&T>)
        requires
            self.wf(),
        ensures
            match value {
                Some(v) => self@.dom().contains(key) && self@[key] == *v,
                None => !self@.dom().contains(key),
            },
    {
        match self.find(key) {
            Some(i) => Some(&self.entries[i].1),
            None => None,
        }
    }

    /// Sets the value of a key.
    pub fn insert(&mut self, key: u64, value: T)
        requires
            old(self).wf(),
        ensures
            final(self).wf(),
            final(self)@ == old(self)@.insert(key, value),
    {
        let ghost before = self.pairs();
        match self.find(key) {
            Some(i) => {
                self.entries[i] = (key, value);
                proof {
                    assert(self.pairs() =~= before.update(i as int, (key, value)));
                    lemma_replaced(before, self.pairs(), i as int, key, value);
                }
            },
            None => {
                self.entries.push((key, value));
                proof {
                    lemma_pushed(before, self.pairs(), key, value);
                }
            },
        }
    }

    /// Takes the value of a key out of the map.
    pub fn take(&mut self, key: u64) -> (value: Option<T>)
        requires
            old(self).wf(),
        ensures
            final(self).wf(),
            match value {
                Some(v) => old(self)@.dom().contains(key) && old(self)@[key] == v && final(self)@
                    == old(self)@.remove(key),
                None => !old(self)@.dom().contains(key) && final(self)@ == old(self)@,
            },
    {
        let ghost before = self.pairs();
        match self.find(key) {
            Some(i) => {
                let (_, value) = self.entries.remove(i);
                proof {
                    assert(self.pairs() =~= before.remove(i as int));
                    lemma_removed(before, self.pairs(), i as int, key);
                }
                Some(value)
            },
            None => None,
        }
    }
}

/// Four numbers as one key.
pub type Place = (usize, usize, usize, usize);

/// A map from places.
#[derive(Clone, Debug, PartialEq, Eq)]
pub struct PlaceMap<T> {
    entries: Vec<(Place, T)>,
}

impl<T> View for PlaceMap<T> {
    type V = Map<Place, T>;

    open spec fn view(&self) -> Map<Place, T> {
        map_of(self.pairs())
    }
}

impl<T> PlaceMap<T> {
    /// The keys and values in the order in which they are kept.
    pub closed spec fn pairs(self) -> Seq<(Place, T)> {
        self.entries@
    }

    /// No key occurs twice.
    pub open spec fn wf(self) -> bool {
        unique(self.pairs())
    }

    /// The map without entries.
    pub fn new() -> (map: Self)
        ensures
            map.wf(),
            map@ == Map::<Place, T>::empty(),
    {
        PlaceMap { entries: Vec::new() }
    }

    /// The place of a key.
    fn find(&self, key: Place) -> (place: Option<usize>)
        requires
            self.wf(),
        ensures
            match place {
                Some(i) => i < self.pairs().len() && self.pairs()[i as int].0 == key
                    && self@.dom().contains(key) && self@[key] == self.pairs()[i as int].1,
                None => !self@.dom().contains(key) && forall|i: int|
                    0 <= i < self.pairs().len() ==> (#[trigger] self.pairs()[i]).0 != key,
            },
    {
        let mut i: usize = 0;
        while i < self.entries.len()
            invariant
                i <= self.entries@.len(),
                self.wf(),
                forall|j: int| 0 <= j < i ==> (#[trigger] self.pairs()[j]).0 != key,
            decreases self.entries@.len() - i,
        {
            let other = self.entries[i].0;
            if other.0 == key.0 && other.1 == key.1 && other.2 == key.2 && other.3 == key.3 {
                proof {
                    unique_pairs_are_the_map(self.pairs());
                    assert(self.pairs()[i as int].0 == key);
                }
                return Some(i);
            }
            i = i + 1;
        }
        proof {
            unique_pairs_are_the_map(self.pairs());
        }
        None
    }

    /// The value of a key.
    pub fn get(&self, key: Place) -> (value: Option<&T>)
        requires
            self.wf(),
        ensures
            match value {
                Some(v) => self@.dom().contains(key) && self@[key] == *v,
                None => !self@.dom().contains(key),
            },
    {
        match self.find(key) {
            Some(i) => Some(&self.entries[i].1),
            None => None,
        }
    }

    /// Sets the value of a key.
    pub fn insert(&mut self, key: Place, value: T)
        requires
            old(self).wf(),
        ensures
            final(self).wf(),
            final(self)@ == old(self)@.insert(key, value),
    {
        let ghost before = self.pairs();
        match self.find(key) {
            Some(i) => {
                self.entries[i] = (key, value);
                proof {
                    assert(self.pairs() =~= before.update(i as int, (key, value)));
                    lemma_replaced(before, self.pairs(), i as int, key, value);
                }
            },
            None => {
                self.entries.push((key, value));
                proof {
                    lemma_pushed(before, self.pairs(), key, value);
                }
            },
        }
    }
}

} // verus!
