//! Maps with string keys that are walked in the order of their keys.

use vstd::prelude::*;
use vstd::string::*;

use crate::text;

verus! {

// ---------------------------------------------------------------------------
// The order of strings
// ---------------------------------------------------------------------------

/// Whether `a` comes before `b` in lexicographic order.
pub open spec fn precedes(a: Seq<char>, b: Seq<char>) -> bool
    decreases a.len(),
{
    if b.len() == 0 {
        false
    } else if a.len() == 0 {
        true
    } else {
        a[0] < b[0] || (a[0] == b[0] && precedes(a.drop_first(), b.drop_first()))
    }
}

/// Whether every string of `keys` comes before those behind it.
pub open spec fn ascending(keys: Seq<Seq<char>>) -> bool {
    forall|i: int, j: int| 0 <= i < j < keys.len() ==> precedes(#[trigger] keys[i], #[trigger] keys[j])
}

/// The order is irreflexive.
pub proof fn lemma_precedes_irreflexive(a: Seq<char>)
    ensures
        !precedes(a, a),
    decreases a.len(),
{
    if a.len() > 0 {
        lemma_precedes_irreflexive(a.drop_first());
    }
}

/// The order is transitive.
pub proof fn lemma_precedes_transitive(a: Seq<char>, b: Seq<char>, c: Seq<char>)
    requires
        precedes(a, b),
        precedes(b, c),
    ensures
        precedes(a, c),
    decreases a.len(),
{
    if a.len() > 0 && b.len() > 0 && c.len() > 0 && a[0] == b[0] && b[0] == c[0] {
        lemma_precedes_transitive(a.drop_first(), b.drop_first(), c.drop_first());
    }
}

/// Of two different strings one comes before the other.
pub proof fn lemma_precedes_total(a: Seq<char>, b: Seq<char>)
    ensures
        a == b || precedes(a, b) || precedes(b, a),
    decreases a.len(),
{
    if a.len() > 0 && b.len() > 0 && a[0] == b[0] {
        lemma_precedes_total(a.drop_first(), b.drop_first());
        if a.drop_first() == b.drop_first() {
            assert(a == seq![a[0]] + a.drop_first());
            assert(b == seq![b[0]] + b.drop_first());
        }
    } else if a.len() == 0 && b.len() == 0 {
        assert(a == b);
    }
}

/// Where two strings agree up to position `i`, the rest decides their order.
proof fn lemma_precedes_from(a: Seq<char>, b: Seq<char>, i: int)
    requires
        0 <= i <= a.len(),
        i <= b.len(),
        a.take(i) == b.take(i),
    ensures
        precedes(a, b) == precedes(a.skip(i), b.skip(i)),
    decreases i,
{
    if i == 0 {
        assert(a.skip(0) == a);
        assert(b.skip(0) == b);
    } else {
        assert(a[0] == a.take(i)[0]);
        assert(b[0] == b.take(i)[0]);
        assert(a.drop_first().take(i - 1) == a.take(i).drop_first());
        assert(b.drop_first().take(i - 1) == b.take(i).drop_first());
        lemma_precedes_from(a.drop_first(), b.drop_first(), i - 1);
        assert(a.drop_first().skip(i - 1) == a.skip(i));
        assert(b.drop_first().skip(i - 1) == b.skip(i));
    }
}

/// Whether `a` comes before `b`.
pub fn comes_before(a: &str, b: &str) -> (r: bool)
    ensures
        r == precedes(a@, b@),
{
    let ca: Vec<char> = text::chars_of(a);
    let cb: Vec<char> = text::chars_of(b);
    let mut i: usize = 0;
    while i < ca.len() && i < cb.len() && ca[i] == cb[i]
        invariant
            i <= ca@.len(),
            i <= cb@.len(),
            ca@.take(i as int) == cb@.take(i as int),
        decreases ca@.len() - i,
    {
        assert(ca@.take(i + 1) == ca@.take(i as int).push(ca@[i as int]));
        assert(cb@.take(i + 1) == cb@.take(i as int).push(cb@[i as int]));
        i += 1;
    }
    proof {
        lemma_precedes_from(ca@, cb@, i as int);
    }
    if i == cb.len() {
        false
    } else if i == ca.len() {
        true
    } else {
        ca[i] < cb[i]
    }
}

// ---------------------------------------------------------------------------
// Maps
// ---------------------------------------------------------------------------

/// A map from strings to values, walked in ascending order of its keys.
#[derive(Debug)]
pub struct KeyMap<V> {
    entries: Vec<(String, V)>,
}

/// The keys of `entries`, in order.
spec fn keys_of<V>(entries: Seq<(String, V)>) -> Seq<Seq<char>> {
    entries.map_values(|e: (String, V)| e.0@)
}

/// The position of `key` among `keys`.
spec fn position_of(keys: Seq<Seq<char>>, key: Seq<char>) -> int {
    choose|i: int| 0 <= i < keys.len() && keys[i] == key
}

impl<V> KeyMap<V> {
    /// No key occurs twice, and the keys stand in ascending order.
    #[verifier::type_invariant]
    spec fn is_sorted(self) -> bool {
        ascending(keys_of(self.entries@))
    }
}

impl<V: View> KeyMap<V> {
    /// The keys in the order in which they are walked.
    pub closed spec fn keys(self) -> Seq<Seq<char>> {
        keys_of(self.entries@)
    }

    /// What the map holds.
    pub closed spec fn view(&self) -> Map<Seq<char>, V::V> {
        Map::new(
            |k: Seq<char>| keys_of(self.entries@).contains(k),
            |k: Seq<char>| self.entries@[position_of(keys_of(self.entries@), k)].1@,
        )
    }

    /// What every map keeps: its keys are in ascending order, and they are the keys of its view.
    pub open spec fn ordered(self) -> bool {
        &&& ascending(self.keys())
        &&& forall|k: Seq<char>| #[trigger] self@.contains_key(k) <==> self.keys().contains(k)
    }

    /// An empty map.
    pub fn new() -> (m: Self)
        ensures
            m@ == Map::<Seq<char>, V::V>::empty(),
            m.keys() == Seq::<Seq<char>>::empty(),
            m.ordered(),
    {
        let m = KeyMap { entries: Vec::new() };
        assert(m@ =~= Map::<Seq<char>, V::V>::empty());
        assert(m.keys() =~= Seq::<Seq<char>>::empty());
        m
    }

    /// The number of keys.
    pub fn len(&self) -> (n: usize)
        ensures
            n == self.keys().len(),
            self.ordered(),
    {
        proof {
            use_type_invariant(self);
        }
        self.entries.len()
    }

    /// Whether the map holds no key.
    pub fn is_empty(&self) -> (r: bool)
        ensures
            r == (self@ == Map::<Seq<char>, V::V>::empty()),
            r == (self.keys().len() == 0),
    {
        let r: bool = self.entries.len() == 0;
        proof {
            if r {
                assert(self@ =~= Map::<Seq<char>, V::V>::empty());
            } else {
                assert(keys_of(self.entries@).contains(keys_of(self.entries@)[0]));
                assert(self@.contains_key(keys_of(self.entries@)[0]));
            }
        }
        r
    }
}

/// The position at which `key` stands, or at which it belongs.
fn find<V>(entries: &Vec<(String, V)>, key: &str) -> (r: Result<usize, usize>)
    requires
        ascending(keys_of(entries@)),
    ensures
        match r {
            Ok(i) => i < entries@.len() && entries@[i as int].0@ == key@,
            Err(i) => {
                &&& i <= entries@.len()
                &&& forall|j: int| 0 <= j < i ==> precedes(keys_of(entries@)[j], key@)
                &&& forall|j: int| i <= j < entries@.len() ==> precedes(key@, keys_of(entries@)[j])
            },
        },
{
    let ghost keys = keys_of(entries@);
    let mut i: usize = 0;
    let mut end: usize = entries.len();
    while i < end
        invariant
            i <= end <= entries@.len(),
            keys == keys_of(entries@),
            ascending(keys),
            forall|j: int| 0 <= j < i ==> precedes(#[trigger] keys[j], key@),
            forall|j: int| end <= j < entries@.len() ==> !precedes(#[trigger] keys[j], key@),
        decreases end - i,
    {
        let mid: usize = i + (end - i) / 2;
        assert(keys[mid as int] == entries@[mid as int].0@);
        if comes_before(entries[mid].0.as_str(), key) {
            proof {
                assert forall|j: int| 0 <= j < mid + 1 implies precedes(#[trigger] keys[j], key@) by {
                    if j < mid {
                        lemma_precedes_transitive(keys[j], keys[mid as int], key@);
                    }
                }
            }
            i = mid + 1;
        } else {
            proof {
                assert forall|j: int| mid <= j < entries@.len() implies !precedes(
                    #[trigger] keys[j],
                    key@,
                ) by {
                    if j > mid && precedes(keys[j], key@) {
                        lemma_precedes_transitive(keys[mid as int], keys[j], key@);
                    }
                }
            }
            end = mid;
        }
    }
    if i < entries.len() && text::same(entries[i].0.as_str(), key) {
        return Ok(i);
    }
    proof {
        if i < entries@.len() {
            lemma_precedes_total(keys[i as int], key@);
            assert forall|j: int| i <= j < entries@.len() implies precedes(key@, keys[j]) by {
                if j > i {
                    lemma_precedes_transitive(key@, keys[i as int], keys[j]);
                }
            }
        }
    }
    Err(i)
}

/// In ascending keys a key stands at one position only.
proof fn lemma_position(keys: Seq<Seq<char>>, i: int)
    requires
        ascending(keys),
        0 <= i < keys.len(),
    ensures
        position_of(keys, keys[i]) == i,
        keys.contains(keys[i]),
{
    let p = position_of(keys, keys[i]);
    assert(0 <= p < keys.len() && keys[p] == keys[i]);
    if p < i {
        lemma_precedes_irreflexive(keys[i]);
        assert(precedes(keys[p], keys[i]));
    } else if i < p {
        lemma_precedes_irreflexive(keys[i]);
        assert(precedes(keys[i], keys[p]));
    }
}

/// A key that all before `i` precede, and that precedes all from `i` on, is not among the keys.
proof fn lemma_absent(keys: Seq<Seq<char>>, key: Seq<char>, i: int)
    requires
        0 <= i <= keys.len(),
        forall|j: int| 0 <= j < i ==> precedes(keys[j], key),
        forall|j: int| i <= j < keys.len() ==> precedes(key, keys[j]),
    ensures
        !keys.contains(key),
{
    lemma_precedes_irreflexive(key);
}

impl<V: View> KeyMap<V> {
    /// The value at `key`.
    pub fn get(&self, key: &str) -> (r: Option<&V>)
        ensures
            match r {
                Some(v) => self@.contains_key(key@) && self@[key@] == v@,
                None => !self@.contains_key(key@),
            },
    {
        proof {
            use_type_invariant(self);
        }
        match find(&self.entries, key) {
            Ok(i) => {
                proof {
                    lemma_position(keys_of(self.entries@), i as int);
                }
                Some(&self.entries[i].1)
            },
            Err(i) => {
                proof {
                    lemma_absent(keys_of(self.entries@), key@, i as int);
                }
                None
            },
        }
    }

    /// Whether the map holds `key`.
    pub fn contains_key(&self, key: &str) -> (r: bool)
        ensures
            r == self@.contains_key(key@),
    {
        self.get(key).is_some()
    }

    /// The entry at a position of the walk.
    pub fn entry(&self, i: usize) -> (r: (&str, &V))
        requires
            i < self.keys().len(),
        ensures
            r.0@ == self.keys()[i as int],
            self@.contains_key(r.0@),
            self@[r.0@] == r.1@,
    {
        proof {
            use_type_invariant(self);
            lemma_position(keys_of(self.entries@), i as int);
        }
        (self.entries[i].0.as_str(), &self.entries[i].1)
    }

    /// Sets the value at `key`.
    pub fn insert(&mut self, key: &str, value: V)
        ensures
            final(self)@ == old(self)@.insert(key@, value@),
            final(self).ordered(),
    {
        proof {
            use_type_invariant(&*self);
        }
        let ghost before = *self;
        let mut entries: Vec<(String, V)> = Vec::new();
        std::mem::swap(&mut entries, &mut self.entries);
        let ghost old_entries = entries@;
        let ghost old_keys = keys_of(old_entries);
        match find(&entries, key) {
            Ok(i) => {
                entries.set(i, (key.to_owned(), value));
                proof {
                    assert(keys_of(entries@) =~= old_keys);
                    assert forall|k: Seq<char>| old_keys.contains(k) implies #[trigger] entries@[position_of(
                        old_keys,
                        k,
                    )].1@ == before@.insert(key@, value@)[k] by {
                        let p = position_of(old_keys, k);
                        lemma_position(old_keys, i as int);
                    }
                    lemma_position(old_keys, i as int);
                }
            },
            Err(i) => {
                entries.insert(i, (key.to_owned(), value));
                proof {
                    let keys = keys_of(entries@);
                    assert(keys =~= old_keys.insert(i as int, key@));
                    assert forall|a: int, b: int| 0 <= a < b < keys.len() implies precedes(
                        #[trigger] keys[a],
                        #[trigger] keys[b],
                    ) by {
                        let a0 = if a < i { a } else { a - 1 };
                        let b0 = if b < i { b } else { b - 1 };
                        if a != i {
                            assert(keys[a] == old_keys[a0]);
                        }
                        if b != i {
                            assert(keys[b] == old_keys[b0]);
                        }
                    }
                    lemma_absent(old_keys, key@, i as int);
                    assert forall|k: Seq<char>| keys.contains(k) <==> (k == key@ || old_keys.contains(k)) by {
                        if old_keys.contains(k) {
                            let p = position_of(old_keys, k);
                            let q = if p < i { p } else { p + 1 };
                            assert(keys[q] == k);
                        }
                        assert(keys[i as int] == key@);
                        if keys.contains(k) && k != key@ {
                            let q = position_of(keys, k);
                            let p = if q < i { q } else { q - 1 };
                            assert(old_keys[p] == k);
                        }
                    }
                    assert forall|k: Seq<char>| keys.contains(k) implies #[trigger] entries@[position_of(
                        keys,
                        k,
                    )].1@ == before@.insert(key@, value@)[k] by {
                        if k == key@ {
                            lemma_position(keys, i as int);
                        } else {
                            let p = position_of(old_keys, k);
                            let q = if p < i { p } else { p + 1 };
                            assert(keys[q] == k);
                            lemma_position(keys, q);
                            assert(entries@[q] == old_entries[p]);
                        }
                    }
                }
            },
        }
        self.entries = entries;
        assert(self@ =~= before@.insert(key@, value@));
    }

    /// Takes `key` out of the map.
    pub fn remove(&mut self, key: &str)
        ensures
            final(self)@ == old(self)@.remove(key@),
            final(self).ordered(),
    {
        proof {
            use_type_invariant(&*self);
        }
        let ghost before = *self;
        let mut entries: Vec<(String, V)> = Vec::new();
        std::mem::swap(&mut entries, &mut self.entries);
        let ghost old_entries = entries@;
        let ghost old_keys = keys_of(old_entries);
        match find(&entries, key) {
            Ok(i) => {
                entries.remove(i);
                proof {
                    let keys = keys_of(entries@);
                    assert(keys =~= old_keys.remove(i as int));
                    assert forall|a: int, b: int| 0 <= a < b < keys.len() implies precedes(
                        #[trigger] keys[a],
                        #[trigger] keys[b],
                    ) by {
                        let a0 = if a < i { a } else { a + 1 };
                        let b0 = if b < i { b } else { b + 1 };
                        assert(keys[a] == old_keys[a0]);
                        assert(keys[b] == old_keys[b0]);
                    }
                    lemma_position(old_keys, i as int);
                    assert forall|k: Seq<char>| keys.contains(k) <==> (k != key@ && old_keys.contains(k)) by {
                        if old_keys.contains(k) && k != key@ {
                            let p = position_of(old_keys, k);
                            let q = if p < i { p } else { p - 1 };
                            assert(keys[q] == k);
                        }
                        if keys.contains(k) {
                            let q = position_of(keys, k);
                            let p = if q < i { q } else { q + 1 };
                            assert(old_keys[p] == k);
                            lemma_position(old_keys, p);
                        }
                    }
                    assert forall|k: Seq<char>| keys.contains(k) implies #[trigger] entries@[position_of(
                        keys,
                        k,
                    )].1@ == before@[k] by {
                        let q = position_of(keys, k);
                        let p = if q < i { q } else { q + 1 };
                        assert(old_keys[p] == k);
                        lemma_position(old_keys, p);
                        assert(entries@[q] == old_entries[p]);
                    }
                }
            },
            Err(i) => {
                proof {
                    lemma_absent(old_keys, key@, i as int);
                }
            },
        }
        self.entries = entries;
        assert(self@ =~= before@.remove(key@));
    }
}

/// The keys of a map in the order in which they are walked.
pub open spec fn walk<A>(map: Map<Seq<char>, A>) -> Seq<Seq<char>> {
    choose|keys: Seq<Seq<char>>|
        ascending(keys) && forall|k: Seq<char>| #[trigger] map.contains_key(k) <==> keys.contains(k)
}

impl<V: View> KeyMap<V> {
    /// The walk goes through the keys in ascending order, and follows from what the map holds.
    pub proof fn lemma_walk(self)
        requires
            self.ordered(),
        ensures
            self.keys() == walk(self@),
            ascending(walk(self@)),
            forall|k: Seq<char>| #[trigger] self@.contains_key(k) <==> walk(self@).contains(k),
    {
        let keys = walk(self@);
        assert(ascending(self.keys()) && forall|k: Seq<char>| #[trigger]
            self@.contains_key(k) <==> self.keys().contains(k));
        assert(ascending(keys) && forall|k: Seq<char>| #[trigger]
            self@.contains_key(k) <==> keys.contains(k));
        assert forall|k: Seq<char>| #[trigger] self.keys().contains(k) <==> keys.contains(k) by {
            assert(self@.contains_key(k) <==> keys.contains(k));
            assert(self@.contains_key(k) <==> self.keys().contains(k));
        }
        lemma_walk_determined(self.keys(), keys);
    }
}

// ---------------------------------------------------------------------------
// Laws
// ---------------------------------------------------------------------------

/// The order of the walk follows from which keys are held: ascending keys that are the same as
/// a set are the same in sequence.
pub proof fn lemma_walk_determined(a: Seq<Seq<char>>, b: Seq<Seq<char>>)
    requires
        ascending(a),
        ascending(b),
        forall|k: Seq<char>| #[trigger] a.contains(k) <==> b.contains(k),
    ensures
        a == b,
    decreases a.len(),
{
    if a.len() == 0 {
        if b.len() > 0 {
            assert(b.contains(b[0]));
            assert(a.contains(b[0]));
        }
        assert(a =~= b);
    } else {
        assert(a.contains(a[0]));
        assert(b.len() > 0);
        assert(b.contains(b[0]));
        assert(a.contains(b[0]));
        let i = position_of(b, a[0]);
        let j = position_of(a, b[0]);
        if i > 0 && j > 0 {
            lemma_precedes_transitive(a[0], b[0], a[0]);
            lemma_precedes_irreflexive(a[0]);
        }
        assert(a[0] == b[0]);
        let ra = a.drop_first();
        let rb = b.drop_first();
        assert forall|k: Seq<char>| #[trigger] ra.contains(k) <==> rb.contains(k) by {
            lemma_precedes_irreflexive(k);
            if ra.contains(k) {
                let p = position_of(ra, k);
                assert(a[p + 1] == k);
                assert(a.contains(k));
                assert(precedes(a[0], a[p + 1]));
                let q = position_of(b, k);
                assert(rb[q - 1] == k);
            }
            if rb.contains(k) {
                let p = position_of(rb, k);
                assert(b[p + 1] == k);
                assert(b.contains(k));
                assert(a.contains(k));
                assert(precedes(b[0], b[p + 1]));
                let q = position_of(a, k);
                assert(ra[q - 1] == k);
            }
        }
        lemma_walk_determined(ra, rb);
        assert(a =~= seq![a[0]] + ra);
        assert(b =~= seq![b[0]] + rb);
    }
}

} // verus!
