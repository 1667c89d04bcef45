//! A map from strings to payloads that keeps its entries in dictionary order
//! of their keys, so that walking it is deterministic.

use vstd::prelude::*;

use crate::text::{comes_before, precedes, precedes_asymmetric, precedes_total, precedes_transitive, same};

verus! {

/// A value that a map can hold and hand out copies of.
pub trait Payload: Sized {
    /// What the value stands for.
    type Model;

    spec fn model(&self) -> Self::Model;

    /// A copy that stands for the same thing.
    fn duplicate(&self) -> (r: Self)
        ensures
            r.model() == self.model(),
    ;
}

impl Payload for String {
    type Model = Seq<char>;

    open spec fn model(&self) -> Seq<char> {
        self@
    }

    fn duplicate(&self) -> (r: Self) {
        self.clone()
    }
}

impl Payload for Vec<u8> {
    type Model = Seq<u8>;

    open spec fn model(&self) -> Seq<u8> {
        self@
    }

    fn duplicate(&self) -> (r: Self) {
        copy_bytes(self.as_slice())
    }
}

impl<P: Payload> Payload for Option<P> {
    type Model = Option<P::Model>;

    open spec fn model(&self) -> Option<P::Model> {
        match self {
            Some(p) => Some(p.model()),
            None => None,
        }
    }

    fn duplicate(&self) -> (r: Self) {
        match self {
            Some(p) => Some(p.duplicate()),
            None => None,
        }
    }
}

impl<V: Payload> Payload for OrderedMap<V> {
    type Model = Seq<(Seq<char>, V::Model)>;

    open spec fn model(&self) -> Seq<(Seq<char>, V::Model)> {
        self@
    }

    fn duplicate(&self) -> (r: Self) {
        proof {
            use_type_invariant(self);
        }
        let mut out: OrderedMap<V> = OrderedMap::new();
        let mut i: usize = 0;
        while i < self.len()
            invariant
                ordered(self@),
                i <= self@.len(),
                out@ == self@.take(i as int),
            decreases self@.len() - i,
        {
            out.push(self.key(i).clone(), self.value(i).duplicate());
            i += 1;
            assert(out@ =~= self@.take(i as int));
        }
        assert(out@ =~= self@);
        out
    }
}

/// A copy of a byte string.
pub fn copy_bytes(bytes: &[u8]) -> (r: Vec<u8>)
    ensures
        r@ == bytes@,
{
    let mut out: Vec<u8> = Vec::new();
    out.extend_from_slice(bytes);
    assert(out@ =~= bytes@);
    out
}

// ---------------------------------------------------------------------------
// Sequences of entries
// ---------------------------------------------------------------------------

/// Entry `i` of `s` has the key `key`.
pub open spec fn key_at<M>(s: Seq<(Seq<char>, M)>, key: Seq<char>, i: int) -> bool {
    0 <= i < s.len() && s[i].0 == key
}

/// Some entry of `s` has the key `key`.
pub open spec fn has_key<M>(s: Seq<(Seq<char>, M)>, key: Seq<char>) -> bool {
    exists|i: int| key_at(s, key, i)
}

/// The value that `s` has for `key`.
pub open spec fn lookup<M>(s: Seq<(Seq<char>, M)>, key: Seq<char>) -> Option<M> {
    if has_key(s, key) {
        Some(s[choose|i: int| key_at(s, key, i)].1)
    } else {
        None
    }
}

/// The keys of `s` ascend, so that none occurs twice.
pub open spec fn ordered<M>(s: Seq<(Seq<char>, M)>) -> bool {
    forall|i: int, j: int| 0 <= i < j < s.len() ==> precedes(#[trigger] s[i].0, #[trigger] s[j].0)
}

/// `after` is ordered and has what `before` has, but for `key`, for which it
/// has `value`.
pub open spec fn updated<M>(
    before: Seq<(Seq<char>, M)>,
    after: Seq<(Seq<char>, M)>,
    key: Seq<char>,
    value: Option<M>,
) -> bool {
    &&& ordered(after)
    &&& forall|k: Seq<char>|
        #[trigger] lookup(after, k) == (if k == key {
            value
        } else {
            lookup(before, k)
        })
}

/// In an ordered sequence each key stands at one position only.
pub proof fn lookup_at<M>(s: Seq<(Seq<char>, M)>, i: int)
    requires
        ordered(s),
        0 <= i < s.len(),
    ensures
        has_key(s, s[i].0),
        lookup(s, s[i].0) == Some(s[i].1),
        forall|j: int| key_at(s, s[i].0, j) ==> j == i,
{
    assert(key_at(s, s[i].0, i));
    assert forall|j: int| key_at(s, s[i].0, j) implies j == i by {
        if j < i {
            precedes_asymmetric(s[j].0, s[i].0);
        } else if i < j {
            precedes_asymmetric(s[i].0, s[j].0);
        }
    }
}

/// An ordered sequence is determined by what it has for each key.
pub proof fn ordered_unique<M>(a: Seq<(Seq<char>, M)>, b: Seq<(Seq<char>, M)>)
    requires
        ordered(a),
        ordered(b),
        forall|key: Seq<char>| lookup(a, key) == lookup(b, key),
    ensures
        a == b,
    decreases a.len(),
{
    if a.len() == 0 {
        if b.len() > 0 {
            lookup_at(b, 0);
            assert(lookup(a, b[0].0) is None);
        }
        assert(a =~= b);
    } else {
        lookup_at(a, 0);
        assert(lookup(b, a[0].0) == Some(a[0].1));
        let j = choose|j: int| key_at(b, a[0].0, j);
        lookup_at(b, 0);
        assert(lookup(a, b[0].0) == Some(b[0].1));
        let i = choose|i: int| key_at(a, b[0].0, i);
        if i > 0 && j > 0 {
            precedes_asymmetric(a[0].0, b[0].0);
        }
        assert(a[0].0 == b[0].0);
        assert(a[0] == b[0]);
        let a1 = a.skip(1);
        let b1 = b.skip(1);
        assert forall|key: Seq<char>| lookup(a1, key) == lookup(b1, key) by {
            lookup_tail(a, key);
            lookup_tail(b, key);
        }
        ordered_unique(a1, b1);
        assert(a =~= seq![a[0]] + a1);
        assert(b =~= seq![b[0]] + b1);
    }
}

proof fn lookup_tail<M>(s: Seq<(Seq<char>, M)>, key: Seq<char>)
    requires
        ordered(s),
        s.len() > 0,
    ensures
        ordered(s.skip(1)),
        lookup(s.skip(1), key) == (if key == s[0].0 {
            None
        } else {
            lookup(s, key)
        }),
{
    let t = s.skip(1);
    assert forall|i: int, j: int| 0 <= i < j < t.len() implies precedes(
        #[trigger] t[i].0,
        #[trigger] t[j].0,
    ) by {
        assert(t[i] == s[i + 1] && t[j] == s[j + 1]);
    }
    lookup_at(s, 0);
    if has_key(t, key) {
        let i = choose|i: int| key_at(t, key, i);
        assert(t[i] == s[i + 1]);
        lookup_at(t, i);
        lookup_at(s, i + 1);
        assert(key != s[0].0);
    } else if has_key(s, key) && key != s[0].0 {
        let i = choose|i: int| key_at(s, key, i);
        assert(key_at(t, key, i - 1));
    }
}

// ---------------------------------------------------------------------------
// The map
// ---------------------------------------------------------------------------

/// A map from strings to payloads, in dictionary order of the keys.
pub struct OrderedMap<V: Payload> {
    entries: Vec<(String, V)>,
}

pub open spec fn entries_view<V: Payload>(entries: Seq<(String, V)>) -> Seq<(Seq<char>, V::Model)> {
    entries.map_values(|e: (String, V)| (e.0@, e.1.model()))
}

impl<V: Payload> View for OrderedMap<V> {
    type V = Seq<(Seq<char>, V::Model)>;

    /// The entries, in the order of their keys.
    closed spec fn view(&self) -> Seq<(Seq<char>, V::Model)> {
        entries_view(self.entries@)
    }
}

impl<V: Payload> OrderedMap<V> {
    /// The keys of a map ascend.
    #[verifier::type_invariant]
    pub open spec fn inv(&self) -> bool {
        ordered(self@)
    }

    /// The empty map.
    pub fn new() -> (r: Self)
        ensures
            r@.len() == 0,
    {
        let entries: Vec<(String, V)> = Vec::new();
        OrderedMap { entries }
    }

    /// The number of entries.
    pub fn len(&self) -> (r: usize)
        ensures
            r == self@.len(),
    {
        self.entries.len()
    }

    /// The key of entry `i`.
    pub fn key(&self, i: usize) -> (r: &String)
        requires
            i < self@.len(),
        ensures
            r@ == self@[i as int].0,
    {
        &self.entries[i].0
    }

    /// The value of entry `i`.
    pub fn value(&self, i: usize) -> (r: &V)
        requires
            i < self@.len(),
        ensures
            r.model() == self@[i as int].1,
    {
        &self.entries[i].1
    }

    /// How many keys come before `key`.
    fn position(&self, key: &str) -> (r: usize)
        ensures
            r <= self@.len(),
            forall|i: int| 0 <= i < r ==> precedes(#[trigger] self@[i].0, key@),
            forall|i: int| r <= i < self@.len() ==> !precedes(#[trigger] self@[i].0, key@),
    {
        proof {
            use_type_invariant(self);
        }
        let mut i: usize = 0;
        while i < self.entries.len() && comes_before(self.entries[i].0.as_str(), key)
            invariant
                i <= self.entries@.len(),
                forall|j: int| 0 <= j < i ==> precedes(#[trigger] self@[j].0, key@),
            decreases self.entries@.len() - i,
        {
            i += 1;
        }
        assert forall|j: int| i <= j < self@.len() implies !precedes(#[trigger] self@[j].0, key@) by {
            assert(!precedes(self@[i as int].0, key@));
            if precedes(self@[j].0, key@) && j > i {
                precedes_transitive(self@[i as int].0, self@[j].0, key@);
            }
        }
        i
    }

    /// The value of `key`.
    pub fn get(&self, key: &str) -> (r: Option<&V>)
        ensures
            match r {
                Some(v) => lookup(self@, key@) == Some(v.model()),
                None => lookup(self@, key@) is None,
            },
    {
        proof {
            use_type_invariant(self);
        }
        let i: usize = self.position(key);
        if i < self.entries.len() && same(self.entries[i].0.as_str(), key) {
            proof {
                lookup_at(self@, i as int);
            }
            Some(&self.entries[i].1)
        } else {
            assert(!has_key(self@, key@)) by {
                if has_key(self@, key@) {
                    let j = choose|j: int| key_at(self@, key@, j);
                    precedes_asymmetric(key@, key@);
                    if j > i {
                        assert(precedes(self@[i as int].0, self@[j].0));
                    }
                }
            }
            None
        }
    }

    /// Whether `key` has a value.
    pub fn contains_key(&self, key: &str) -> (r: bool)
        ensures
            r == has_key(self@, key@),
    {
        self.get(key).is_some()
    }

    /// Gives `key` the value `value`, in place of any it had.
    pub fn insert(&mut self, key: String, value: V)
        ensures
            updated(old(self)@, final(self)@, key@, Some(value.model())),
    {
        proof {
            use_type_invariant(&*self);
        }
        let ghost before = self@;
        let ghost k = key@;
        let ghost v = value.model();
        let i: usize = self.position(key.as_str());
        let mut entries: Vec<(String, V)> = Vec::new();
        std::mem::swap(&mut entries, &mut self.entries);
        assert(entries_view(entries@) == before);
        let ghost after;
        if i < entries.len() && same(entries[i].0.as_str(), key.as_str()) {
            entries.set(i, (key, value));
            proof {
                after = before.update(i as int, (k, v));
                assert(entries_view(entries@) =~= after);
                assert(ordered(after)) by {
                    assert forall|a: int, b: int| 0 <= a < b < after.len() implies precedes(
                        #[trigger] after[a].0,
                        #[trigger] after[b].0,
                    ) by {
                        assert(after[a].0 == before[a].0 && after[b].0 == before[b].0);
                    }
                }
                replaced_lookup(before, after, i as int, k, v);
            }
        } else {
            entries.insert(i, (key, value));
            proof {
                after = before.insert(i as int, (k, v));
                assert(entries_view(entries@) =~= after);
                inserted_lookup(before, after, i as int, k, v);
            }
        }
        self.entries = entries;
    }

    /// Adds an entry whose key comes after all others.
    pub fn push(&mut self, key: String, value: V)
        requires
            forall|i: int| 0 <= i < old(self)@.len() ==> precedes(#[trigger] old(self)@[i].0, key@),
        ensures
            final(self)@ == old(self)@.push((key@, value.model())),
    {
        proof {
            use_type_invariant(&*self);
        }
        let ghost before = self@;
        let ghost entry = (key@, value.model());
        let mut entries: Vec<(String, V)> = Vec::new();
        std::mem::swap(&mut entries, &mut self.entries);
        assert(entries_view(entries@) == before);
        entries.push((key, value));
        assert(entries_view(entries@) =~= before.push(entry));
        self.entries = entries;
    }

    /// Takes `key` and its value out.
    pub fn remove(&mut self, key: &str)
        ensures
            updated(old(self)@, final(self)@, key@, None),
    {
        proof {
            use_type_invariant(&*self);
        }
        let ghost before = self@;
        let i: usize = self.position(key);
        if i < self.entries.len() && same(self.entries[i].0.as_str(), key) {
            let mut entries: Vec<(String, V)> = Vec::new();
            std::mem::swap(&mut entries, &mut self.entries);
            assert(entries_view(entries@) == before);
            let gone = entries.remove(i);
            proof {
                assert(entries_view(entries@) =~= before.remove(i as int));
                removed_lookup(before, before.remove(i as int), i as int);
            }
            self.entries = entries;
        } else {
            assert(!has_key(before, key@)) by {
                if has_key(before, key@) {
                    let j = choose|j: int| key_at(before, key@, j);
                    precedes_asymmetric(key@, key@);
                    if j > i {
                        assert(precedes(before[i as int].0, before[j].0));
                    }
                }
            }
        }
    }
}

proof fn replaced_lookup<M>(
    before: Seq<(Seq<char>, M)>,
    after: Seq<(Seq<char>, M)>,
    i: int,
    key: Seq<char>,
    value: M,
)
    requires
        ordered(before),
        ordered(after),
        0 <= i < before.len(),
        before[i].0 == key,
        after == before.update(i, (key, value)),
    ensures
        forall|k: Seq<char>|
            #[trigger] lookup(after, k) == (if k == key {
                Some(value)
            } else {
                lookup(before, k)
            }),
{
    assert forall|k: Seq<char>|
        #[trigger] lookup(after, k) == (if k == key {
            Some(value)
        } else {
            lookup(before, k)
        }) by {
        lookup_at(after, i);
        if k != key {
            if has_key(after, k) {
                let j = choose|j: int| key_at(after, k, j);
                assert(after[j] == before[j]);
                lookup_at(after, j);
                lookup_at(before, j);
            } else if has_key(before, k) {
                let j = choose|j: int| key_at(before, k, j);
                assert(key_at(after, k, j));
            }
        }
    }
}

proof fn inserted_lookup<M>(
    before: Seq<(Seq<char>, M)>,
    after: Seq<(Seq<char>, M)>,
    i: int,
    key: Seq<char>,
    value: M,
)
    requires
        ordered(before),
        0 <= i <= before.len(),
        after == before.insert(i, (key, value)),
        forall|j: int| 0 <= j < i ==> precedes(#[trigger] before[j].0, key),
        forall|j: int| i <= j < before.len() ==> !precedes(#[trigger] before[j].0, key),
        i < before.len() ==> before[i].0 != key,
    ensures
        ordered(after),
        forall|k: Seq<char>|
            #[trigger] lookup(after, k) == (if k == key {
                Some(value)
            } else {
                lookup(before, k)
            }),
{
    assert forall|j: int| i <= j < before.len() implies precedes(key, #[trigger] before[j].0) by {
        precedes_total(key, before[i].0);
        if j > i {
            precedes_transitive(key, before[i].0, before[j].0);
        }
    }
    assert forall|a: int, b: int| 0 <= a < b < after.len() implies precedes(
        #[trigger] after[a].0,
        #[trigger] after[b].0,
    ) by {
        let pa = if a < i { a } else { a - 1 };
        let pb = if b < i { b } else { b - 1 };
        assert(a != i ==> after[a] == before[pa]);
        assert(b != i ==> after[b] == before[pb]);
    }
    assert forall|k: Seq<char>|
        #[trigger] lookup(after, k) == (if k == key {
            Some(value)
        } else {
            lookup(before, k)
        }) by {
        lookup_at(after, i);
        if k != key {
            if has_key(after, k) {
                let j = choose|j: int| key_at(after, k, j);
                let p = if j < i { j } else { j - 1 };
                assert(after[j] == before[p]);
                lookup_at(after, j);
                lookup_at(before, p);
            } else if has_key(before, k) {
                let j = choose|j: int| key_at(before, k, j);
                let p = if j < i { j } else { j + 1 };
                assert(after[p] == before[j]);
                assert(key_at(after, k, p));
            }
        }
    }
}

proof fn removed_lookup<M>(before: Seq<(Seq<char>, M)>, after: Seq<(Seq<char>, M)>, i: int)
    requires
        ordered(before),
        0 <= i < before.len(),
        after == before.remove(i),
    ensures
        ordered(after),
        forall|k: Seq<char>|
            #[trigger] lookup(after, k) == (if k == before[i].0 {
                None
            } else {
                lookup(before, k)
            }),
{
    assert forall|a: int, b: int| 0 <= a < b < after.len() implies precedes(
        #[trigger] after[a].0,
        #[trigger] after[b].0,
    ) by {
        let pa = if a < i { a } else { a + 1 };
        let pb = if b < i { b } else { b + 1 };
        assert(after[a] == before[pa]);
        assert(after[b] == before[pb]);
    }
    assert forall|k: Seq<char>|
        #[trigger] lookup(after, k) == (if k == before[i].0 {
            None
        } else {
            lookup(before, k)
        }) by {
        lookup_at(before, i);
        if has_key(after, k) {
            let j = choose|j: int| key_at(after, k, j);
            let p = if j < i { j } else { j + 1 };
            assert(after[j] == before[p]);
            lookup_at(after, j);
            lookup_at(before, p);
        } else if has_key(before, k) && k != before[i].0 {
            let j = choose|j: int| key_at(before, k, j);
            let p = if j < i { j } else { j - 1 };
            assert(after[p] == before[j]);
            assert(key_at(after, k, p));
        }
    }
}

} // verus!
