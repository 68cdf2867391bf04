//! Chunk coordinates, and collections keyed by them.
//!
//! Every collection here keeps its keys in a vector in which nothing occurs
//! twice, so that walking it does not depend on hashing, and finds a key's
//! place in the vector through a hash map.

use vstd::prelude::*;

verus! {

/// The origin of a chunk in world-block units. Equality is exact integer comparison.
#[derive(Clone, Copy, Debug, PartialEq, Eq, Hash, Structural)]
pub struct ChunkKey {
    pub x: i32,
    pub y: i32,
    pub z: i32,
}

/// A hash map from the three components of a chunk coordinate to a position.
///
/// Holds a `bevy::utils::HashMap`: a hash table with a fixed, unseeded
/// hasher. What it holds is named by `index_entries`, and it is reached only
/// through the four functions below.
#[verifier::external_body]
pub struct KeyIndex {
    map: bevy::utils::HashMap<(i32, i32, i32), usize>,
}

/// The entries of a key index.
pub uninterp spec fn index_entries(index: KeyIndex) -> Map<(i32, i32, i32), usize>;

/// The entries of an empty index.
pub open spec fn no_entries() -> Map<(i32, i32, i32), usize> {
    Map::empty()
}

/// Makes an empty index.
///
/// Calls `Default::default` of `bevy::utils::HashMap`, which makes a map
/// without entries.
#[verifier::external_body]
fn index_new() -> (made: KeyIndex)
    ensures
        index_entries(made) == no_entries(),
{
    KeyIndex { map: bevy::utils::HashMap::default() }
}

/// Looks a coordinate up.
///
/// Calls `get` of `bevy::utils::HashMap`, which gives the value stored under
/// an equal key, if there is one.
#[verifier::external_body]
fn index_get(index: &KeyIndex, x: i32, y: i32, z: i32) -> (r: Option<usize>)
    ensures
        r == (if index_entries(*index).contains_key((x, y, z)) {
            Some(index_entries(*index)[(x, y, z)])
        } else {
            None
        }),
{
    index.map.get(&(x, y, z)).copied()
}

/// Stores a position under a coordinate, replacing what was stored under it.
///
/// Calls `insert` of `bevy::utils::HashMap`, which stores the value under the
/// key and leaves every other entry alone.
#[verifier::external_body]
fn index_insert(index: &mut KeyIndex, x: i32, y: i32, z: i32, position: usize)
    ensures
        index_entries(*final(index)) == index_entries(*old(index)).insert((x, y, z), position),
{
    index.map.insert((x, y, z), position);
}

/// Forgets a coordinate.
///
/// Calls `remove` of `bevy::utils::HashMap`, which takes the entry of an equal
/// key out, if there is one, and leaves every other entry alone.
#[verifier::external_body]
fn index_remove(index: &mut KeyIndex, x: i32, y: i32, z: i32)
    ensures
        index_entries(*final(index)) == index_entries(*old(index)).remove((x, y, z)),
{
    index.map.remove(&(x, y, z));
}

/// The three components of a coordinate, as the index is keyed.
pub open spec fn components(key: ChunkKey) -> (i32, i32, i32) {
    (key.x, key.y, key.z)
}

/// A map from chunk coordinates to values that walks its keys in a fixed order.
pub struct KeyMap<V> {
    keys: Vec<ChunkKey>,
    values: Vec<V>,
    index: KeyIndex,
}

impl<V> View for KeyMap<V> {
    type V = Map<ChunkKey, V>;

    closed spec fn view(&self) -> Map<ChunkKey, V> {
        Map::new(
            |k: ChunkKey| self.keys@.contains(k),
            |k: ChunkKey| self.values@[self.keys@.index_of(k)],
        )
    }
}

impl<V> KeyMap<V> {
    /// The keys in the order in which they are walked: a new key comes last.
    pub closed spec fn order(&self) -> Seq<ChunkKey> {
        self.keys@
    }

    /// The invariant: each key has one value, and the index holds exactly the
    /// position of every key.
    pub closed spec fn wf(&self) -> bool {
        &&& self.keys@.len() == self.values@.len()
        &&& forall|i: int|
            0 <= i < self.keys@.len() ==> {
                &&& index_entries(self.index).contains_key(#[trigger] components(self.keys@[i]))
                &&& index_entries(self.index)[components(self.keys@[i])] == i
            }
        &&& forall|t: (i32, i32, i32)| #[trigger]
            index_entries(self.index).contains_key(t) ==> {
                &&& index_entries(self.index)[t] < self.keys@.len()
                &&& components(self.keys@[index_entries(self.index)[t] as int]) == t
            }
    }

    proof fn lemma_no_duplicates(&self)
        requires
            self.wf(),
        ensures
            self.keys@.no_duplicates(),
    {
        assert forall|a: int, b: int|
            0 <= a < self.keys@.len() && 0 <= b < self.keys@.len() && a != b implies self.keys@[a]
            != self.keys@[b] by {
            assert(index_entries(self.index)[components(self.keys@[a])] == a);
            assert(index_entries(self.index)[components(self.keys@[b])] == b);
        }
    }

    /// In a well-formed map the order lists exactly the keys, each once.
    pub proof fn lemma_order(&self)
        requires
            self.wf(),
        ensures
            self.order().no_duplicates(),
            self.order().to_set() == self@.dom(),
            self.order().len() == self@.dom().len(),
            self@.dom().finite(),
    {
        self.lemma_no_duplicates();
        assert(self.keys@.to_set() =~= self@.dom());
        self.keys@.unique_seq_to_set();
    }

    proof fn lemma_value_at(&self, i: int)
        requires
            self.wf(),
            0 <= i < self.keys@.len(),
        ensures
            self@.contains_key(self.keys@[i]),
            self@[self.keys@[i]] == self.values@[i],
    {
        self.lemma_no_duplicates();
        let k = self.keys@[i];
        assert(self.keys@.contains(k));
        let j = self.keys@.index_of(k);
        assert(0 <= j < self.keys@.len() && self.keys@[j] == k);
    }

    /// The empty map.
    pub fn new() -> (m: Self)
        ensures
            m.wf(),
            m@ == Map::<ChunkKey, V>::empty(),
            m.order() == Seq::<ChunkKey>::empty(),
    {
        let m = KeyMap { keys: Vec::new(), values: Vec::new(), index: index_new() };
        assert(m@ =~= Map::<ChunkKey, V>::empty());
        m
    }

    /// The position of `key` in the order, found through the index.
    fn position(&self, key: ChunkKey) -> (r: Option<usize>)
        requires
            self.wf(),
        ensures
            r matches Some(i) ==> i < self.keys@.len() && self.keys@[i as int] == key,
            r is None ==> !self.keys@.contains(key),
    {
        let r = index_get(&self.index, key.x, key.y, key.z);
        proof {
            if r is None && self.keys@.contains(key) {
                let j = choose|j: int| 0 <= j < self.keys@.len() && self.keys@[j] == key;
                assert(index_entries(self.index).contains_key(components(self.keys@[j])));
            }
        }
        r
    }

    /// Whether `key` has a value.
    pub fn contains_key(&self, key: ChunkKey) -> (b: bool)
        requires
            self.wf(),
        ensures
            b == self@.contains_key(key),
    {
        self.position(key).is_some()
    }

    /// The value of `key`, if it has one.
    pub fn get(&self, key: ChunkKey) -> (r: Option<&V>)
        requires
            self.wf(),
        ensures
            r matches Some(v) ==> self@.contains_key(key) && *v == self@[key],
            r is None ==> !self@.contains_key(key),
    {
        match self.position(key) {
            Some(i) => {
                proof {
                    self.lemma_value_at(i as int);
                }
                Some(&self.values[i])
            },
            None => None,
        }
    }

    /// The value of `key` for writing in place, if it has one: what is written
    /// through the reference is the only change to the map.
    pub fn get_mut(&mut self, key: ChunkKey) -> (r: Option<&mut V>)
        requires
            old(self).wf(),
        ensures
            r matches Some(v) ==> {
                &&& old(self)@.contains_key(key)
                &&& *v == old(self)@[key]
                &&& final(self)@ == old(self)@.insert(key, *final(v))
                &&& final(self).order() == old(self).order()
                &&& final(self).wf()
            },
            r is None ==> !old(self)@.contains_key(key) && final(self)@ == old(self)@ && final(self).order()
                == old(self).order() && final(self).wf(),
    {
        match self.position(key) {
            Some(i) => {
                proof {
                    self.lemma_value_at(i as int);
                    self.lemma_no_duplicates();
                }
                let v = &mut self.values[i];
                Some(v)
            },
            None => None,
        }
    }

    /// Installs `value` for `key`, replacing and returning what it had. A key
    /// that is new comes last in the order.
    pub fn insert(&mut self, key: ChunkKey, value: V) -> (previous: Option<V>)
        requires
            old(self).wf(),
        ensures
            final(self).wf(),
            final(self)@ == old(self)@.insert(key, value),
            previous == (if old(self)@.contains_key(key) {
                Some(old(self)@[key])
            } else {
                None
            }),
            final(self).order() == (if old(self)@.contains_key(key) {
                old(self).order()
            } else {
                old(self).order().push(key)
            }),
    {
        proof {
            self.lemma_no_duplicates();
        }
        match self.position(key) {
            Some(i) => {
                self.values.push(value);
                let previous = self.values.swap_remove(i);
                proof {
                    old(self).lemma_value_at(i as int);
                    assert(self.values@ =~= old(self).values@.update(i as int, value));
                    assert forall|k: ChunkKey| self@.contains_key(k) implies #[trigger] self@[k] == old(
                        self,
                    )@.insert(key, value)[k] by {
                        let j = self.keys@.index_of(k);
                        assert(0 <= j < self.keys@.len() && self.keys@[j] == k);
                    }
                    assert(self@ =~= old(self)@.insert(key, value));
                }
                Some(previous)
            },
            None => {
                let place = self.keys.len();
                self.keys.push(key);
                self.values.push(value);
                index_insert(&mut self.index, key.x, key.y, key.z, place);
                proof {
                    let n = old(self).keys@.len() as int;
                    assert forall|i: int| 0 <= i < self.keys@.len() implies {
                        &&& index_entries(self.index).contains_key(#[trigger] components(self.keys@[i]))
                        &&& index_entries(self.index)[components(self.keys@[i])] == i
                    } by {
                        if i < n {
                            assert(self.keys@[i] == old(self).keys@[i]);
                            assert(old(self).keys@.contains(old(self).keys@[i]));
                            assert(index_entries(old(self).index)[components(old(self).keys@[i])] == i);
                        }
                    }
                    assert forall|t: (i32, i32, i32)| #[trigger]
                        index_entries(self.index).contains_key(t) implies {
                        &&& index_entries(self.index)[t] < self.keys@.len()
                        &&& components(self.keys@[index_entries(self.index)[t] as int]) == t
                    } by {
                        if t != components(key) {
                            assert(index_entries(old(self).index).contains_key(t));
                            let p = index_entries(old(self).index)[t] as int;
                            assert(self.keys@[p] == old(self).keys@[p]);
                        }
                    }
                    assert(self.wf());
                    assert forall|k: ChunkKey| self@.contains_key(k) <==> old(self)@.insert(
                        key,
                        value,
                    ).contains_key(k) by {
                        if old(self).keys@.contains(k) {
                            let j = choose|j: int| 0 <= j < n && old(self).keys@[j] == k;
                            assert(self.keys@[j] == k);
                        }
                        if k == key {
                            assert(self.keys@[n] == k);
                        }
                    }
                    assert forall|k: ChunkKey| self@.contains_key(k) implies #[trigger] self@[k] == old(
                        self,
                    )@.insert(key, value)[k] by {
                        let j = self.keys@.index_of(k);
                        assert(0 <= j < self.keys@.len() && self.keys@[j] == k);
                        self.lemma_value_at(j);
                        if j < n {
                            old(self).lemma_value_at(j);
                        }
                    }
                    assert(self@ =~= old(self)@.insert(key, value));
                }
                None
            },
        }
    }

    /// Removes `key` and returns what it had. The key that came last takes its
    /// place in the order.
    pub fn remove(&mut self, key: ChunkKey) -> (previous: Option<V>)
        requires
            old(self).wf(),
        ensures
            final(self).wf(),
            final(self)@ == old(self)@.remove(key),
            previous == (if old(self)@.contains_key(key) {
                Some(old(self)@[key])
            } else {
                None
            }),
            !old(self)@.contains_key(key) ==> final(self).order() == old(self).order(),
    {
        proof {
            self.lemma_no_duplicates();
        }
        match self.position(key) {
            Some(i) => {
                let last = self.keys.len() - 1;
                self.keys.swap_remove(i);
                let previous = self.values.swap_remove(i);
                index_remove(&mut self.index, key.x, key.y, key.z);
                if i < last {
                    let moved = self.keys[i];
                    index_insert(&mut self.index, moved.x, moved.y, moved.z, i);
                }
                proof {
                    let before = old(self).keys@;
                    let after = self.keys@;
                    let entries = index_entries(old(self).index);
                    old(self).lemma_value_at(i as int);
                    assert(after.len() == before.len() - 1);
                    assert forall|j: int| 0 <= j < after.len() implies after[j] == (if j == i {
                        before[last as int]
                    } else {
                        before[j]
                    }) by {}
                    assert forall|j: int| 0 <= j < after.len() implies {
                        &&& index_entries(self.index).contains_key(#[trigger] components(after[j]))
                        &&& index_entries(self.index)[components(after[j])] == j
                    } by {
                        if j != i {
                            assert(entries[components(before[j])] == j);
                            assert(entries[components(before[last as int])] == last);
                            assert(entries[components(before[i as int])] == i);
                        }
                    }
                    assert forall|t: (i32, i32, i32)| #[trigger]
                        index_entries(self.index).contains_key(t) implies {
                        &&& index_entries(self.index)[t] < after.len()
                        &&& components(after[index_entries(self.index)[t] as int]) == t
                    } by {
                        if i < last && t == components(before[last as int]) {
                        } else {
                            assert(entries.contains_key(t));
                            let p = entries[t] as int;
                            assert(components(before[p]) == t);
                            assert(entries[components(before[last as int])] == last);
                        }
                    }
                    assert(self.wf());
                    assert forall|k: ChunkKey| self@.contains_key(k) <==> old(self)@.remove(
                        key,
                    ).contains_key(k) by {
                        if after.contains(k) {
                            let j = choose|j: int| 0 <= j < after.len() && after[j] == k;
                            let j2 = if j == i { last as int } else { j };
                            assert(before[j2] == k);
                        }
                        if before.contains(k) && k != key {
                            let j = choose|j: int| 0 <= j < before.len() && before[j] == k;
                            let j2 = if j == last { i as int } else { j };
                            assert(after[j2] == k);
                        }
                    }
                    assert forall|k: ChunkKey| self@.contains_key(k) implies #[trigger] self@[k] == old(
                        self,
                    )@.remove(key)[k] by {
                        let j = after.index_of(k);
                        assert(0 <= j < after.len() && after[j] == k);
                        self.lemma_value_at(j);
                        let j2 = if j == i { last as int } else { j };
                        old(self).lemma_value_at(j2);
                    }
                    assert(self@ =~= old(self)@.remove(key));
                }
                Some(previous)
            },
            None => {
                assert(self@.remove(key) =~= self@);
                None
            },
        }
    }

    /// Number of keys.
    pub fn len(&self) -> (n: usize)
        requires
            self.wf(),
        ensures
            n == self.order().len(),
            n == self@.dom().len(),
    {
        proof {
            self.lemma_order();
        }
        self.keys.len()
    }

    /// The key at position `i` of the order.
    pub fn key_at(&self, i: usize) -> (k: ChunkKey)
        requires
            i < self.order().len(),
        ensures
            k == self.order()[i as int],
    {
        self.keys[i]
    }

    /// The keys in order.
    pub fn keys(&self) -> (v: Vec<ChunkKey>)
        ensures
            v@ == self.order(),
    {
        let v = self.keys.clone();
        assert(v@ =~= self.keys@);
        v
    }
}

/// A set of chunk coordinates that walks its members in a fixed order.
pub struct KeySet {
    members: KeyMap<()>,
}

impl View for KeySet {
    type V = Set<ChunkKey>;

    closed spec fn view(&self) -> Set<ChunkKey> {
        self.members@.dom()
    }
}

impl KeySet {
    /// The members in the order in which they are walked: a new member comes last.
    pub closed spec fn order(&self) -> Seq<ChunkKey> {
        self.members.order()
    }

    /// The invariant of the map that holds the members.
    pub closed spec fn inner_wf(&self) -> bool {
        self.members.wf()
    }

    /// The invariant: no coordinate occurs twice, and the order lists exactly the members.
    pub open spec fn wf(&self) -> bool {
        &&& self.inner_wf()
        &&& self.order().no_duplicates()
        &&& self.order().to_set() == self@
    }

    /// The empty set.
    pub fn new() -> (s: Self)
        ensures
            s.wf(),
            s@ == Set::<ChunkKey>::empty(),
            s.order() == Seq::<ChunkKey>::empty(),
    {
        let s = KeySet { members: KeyMap::new() };
        proof {
            s.members.lemma_order();
            assert(s@ =~= Set::<ChunkKey>::empty());
        }
        s
    }

    /// Whether `key` is a member.
    pub fn contains(&self, key: ChunkKey) -> (b: bool)
        requires
            self.wf(),
        ensures
            b == self@.contains(key),
    {
        self.members.contains_key(key)
    }

    /// Adds `key`; returns whether it was new.
    pub fn insert(&mut self, key: ChunkKey) -> (added: bool)
        requires
            old(self).wf(),
        ensures
            final(self).wf(),
            final(self)@ == old(self)@.insert(key),
            added == !old(self)@.contains(key),
            final(self).order() == (if added {
                old(self).order().push(key)
            } else {
                old(self).order()
            }),
    {
        let previous = self.members.insert(key, ());
        proof {
            self.members.lemma_order();
            assert(self@ =~= old(self)@.insert(key));
        }
        previous.is_none()
    }

    /// Removes `key`; returns whether it was a member.
    pub fn remove(&mut self, key: ChunkKey) -> (removed: bool)
        requires
            old(self).wf(),
        ensures
            final(self).wf(),
            final(self)@ == old(self)@.remove(key),
            removed == old(self)@.contains(key),
    {
        let previous = self.members.remove(key);
        proof {
            self.members.lemma_order();
            assert(self@ =~= old(self)@.remove(key));
        }
        previous.is_some()
    }

    /// Removes every member.
    pub fn clear(&mut self)
        ensures
            final(self).wf(),
            final(self)@ == Set::<ChunkKey>::empty(),
            final(self).order() == Seq::<ChunkKey>::empty(),
    {
        self.members = KeyMap::new();
        proof {
            self.members.lemma_order();
            assert(self@ =~= Set::<ChunkKey>::empty());
        }
    }

    /// Number of members.
    pub fn len(&self) -> (n: usize)
        requires
            self.wf(),
        ensures
            n == self.order().len(),
            n == self@.len(),
    {
        self.members.len()
    }

    /// The member at position `i` of the order.
    pub fn key_at(&self, i: usize) -> (k: ChunkKey)
        requires
            i < self.order().len(),
        ensures
            k == self.order()[i as int],
    {
        self.members.key_at(i)
    }

    /// The members in order.
    pub fn to_vec(&self) -> (v: Vec<ChunkKey>)
        ensures
            v@ == self.order(),
    {
        self.members.keys()
    }
}

} // verus!
