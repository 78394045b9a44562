//! A bounded least-recently-used store from parameter lists to responses.

use vstd::prelude::*;

verus! {

/// A cache key: the serialized parameters of a request.
pub type Key = Seq<Seq<char>>;

/// One stored response, as the contracts see it.
pub type Slot = (Key, String);

/// The key of a parameter list.
pub open spec fn key_of(params: Seq<String>) -> Key {
    Seq::new(params.len(), |i: int| params[i]@)
}

/// No key occurs twice.
pub open spec fn unique_keys(s: Seq<Slot>) -> bool {
    forall|i: int, j: int| 0 <= i < j < s.len() ==> s[i].0 != s[j].0
}

pub open spec fn has_key(s: Seq<Slot>, k: Key) -> bool {
    exists|i: int| 0 <= i < s.len() && #[trigger] s[i].0 == k
}

pub open spec fn key_pos(s: Seq<Slot>, k: Key) -> int {
    choose|i: int| 0 <= i < s.len() && #[trigger] s[i].0 == k
}

/// The response stored under `k`, if any.
pub open spec fn lookup(s: Seq<Slot>, k: Key) -> Option<String> {
    if has_key(s, k) {
        Some(s[key_pos(s, k)].1)
    } else {
        None
    }
}

/// The slots after a lookup of `k`: a hit becomes the most recently used.
pub open spec fn touched(s: Seq<Slot>, k: Key) -> Seq<Slot> {
    if has_key(s, k) {
        let i = key_pos(s, k);
        s.remove(i).push(s[i])
    } else {
        s
    }
}

/// The slots after storing `v` under `k` with room for `cap` slots: an old
/// slot of `k` goes, then the least recently used one if the store is full,
/// and the new slot becomes the most recently used.
pub open spec fn stored(s: Seq<Slot>, cap: nat, k: Key, v: String) -> Seq<Slot> {
    let rest = if has_key(s, k) {
        s.remove(key_pos(s, k))
    } else {
        s
    };
    let kept = if rest.len() >= cap {
        rest.subrange(1, rest.len() as int)
    } else {
        rest
    };
    kept.push((k, v))
}

/// One stored response.
pub struct CacheEntry {
    pub key: Vec<String>,
    pub value: String,
}

impl CacheEntry {
    pub open spec fn view(&self) -> Slot {
        (key_of(self.key@), self.value)
    }
}

/// A least-recently-used cache; `entries` runs from least to most recently
/// used.
pub struct LruCache {
    entries: Vec<CacheEntry>,
    capacity: usize,
}

pub open spec fn slots_of(entries: Seq<CacheEntry>) -> Seq<Slot> {
    Seq::new(entries.len(), |i: int| entries[i]@)
}

impl LruCache {
    pub closed spec fn view(&self) -> Seq<Slot> {
        slots_of(self.entries@)
    }

    pub closed spec fn cap(&self) -> nat {
        self.capacity as nat
    }

    pub open spec fn wf(&self) -> bool {
        &&& self.cap() > 0
        &&& self@.len() <= self.cap()
        &&& unique_keys(self@)
    }

    /// An empty cache with room for `capacity` responses.
    pub fn new(capacity: usize) -> (r: LruCache)
        requires
            capacity > 0,
        ensures
            r.wf(),
            r@ == Seq::<Slot>::empty(),
            r.cap() == capacity,
    {
        let r = LruCache { entries: Vec::new(), capacity };
        assert(r@ =~= Seq::<Slot>::empty());
        r
    }

    pub fn capacity(&self) -> (r: usize)
        ensures
            r == self.cap(),
    {
        self.capacity
    }

    pub fn len(&self) -> (r: usize)
        ensures
            r == self@.len(),
    {
        self.entries.len()
    }

    fn position(&self, key: &Vec<String>) -> (r: Option<usize>)
        requires
            self.wf(),
        ensures
            match r {
                Some(i) => has_key(self@, key_of(key@)) && i == key_pos(self@, key_of(key@)),
                None => !has_key(self@, key_of(key@)),
            },
    {
        let ghost k = key_of(key@);
        let mut i: usize = 0;
        while i < self.entries.len()
            invariant
                self.wf(),
                k == key_of(key@),
                i <= self.entries@.len(),
                forall|j: int| 0 <= j < i ==> (#[trigger] self@[j]).0 != k,
            decreases self.entries@.len() - i,
        {
            if same_params(&self.entries[i].key, key) {
                assert(self@[i as int].0 == k);
                let ghost p = key_pos(self@, k);
                assert(unique_keys(self@));
                return Some(i);
            }
            i = i + 1;
        }
        assert forall|j: int| 0 <= j < self@.len() implies #[trigger] self@[j].0 != k by {}
        None
    }

    /// The response stored under `key`, which becomes the most recently
    /// used; `None` on a miss, leaving the cache as it was.
    pub fn get(&mut self, key: &Vec<String>) -> (r: Option<String>)
        requires
            old(self).wf(),
        ensures
            final(self).wf(),
            final(self).cap() == old(self).cap(),
            r == lookup(old(self)@, key_of(key@)),
            final(self)@ == touched(old(self)@, key_of(key@)),
    {
        match self.position(key) {
            None => None,
            Some(i) => {
                let ghost s = self@;
                let entry = self.entries.remove(i);
                let value = entry.value.clone();
                self.entries.push(entry);
                assert(self@ =~= s.remove(i as int).push(s[i as int]));
                proof {
                    lemma_touch_unique(s, i as int);
                }
                Some(value)
            }
        }
    }

    /// Stores `value` under `key` as the most recently used response,
    /// evicting the least recently used one when the cache is full.
    pub fn put(&mut self, key: Vec<String>, value: String)
        requires
            old(self).wf(),
        ensures
            final(self).wf(),
            final(self).cap() == old(self).cap(),
            final(self)@ == stored(old(self)@, old(self).cap(), key_of(key@), value),
    {
        let ghost s = self@;
        let ghost k = key_of(key@);
        let ghost rest = if has_key(s, k) {
            s.remove(key_pos(s, k))
        } else {
            s
        };
        match self.position(&key) {
            Some(i) => {
                self.entries.remove(i);
                assert(self@ =~= s.remove(i as int));
            },
            None => {},
        }
        assert(self@ == rest);
        assert(unique_keys(rest));
        assert(!has_key(rest, k));
        if self.entries.len() >= self.capacity {
            self.entries.remove(0);
            assert(self@ =~= rest.subrange(1, rest.len() as int));
        }
        let ghost kept = self@;
        assert(!has_key(kept, k)) by {
            if has_key(kept, k) {
                let j = choose|j: int| 0 <= j < kept.len() && #[trigger] kept[j].0 == k;
                if rest.len() >= self.cap() {
                    assert(rest[j + 1].0 == k);
                }
            }
        }
        self.entries.push(CacheEntry { key, value });
        assert(self@ =~= kept.push((k, value)));
    }
}

proof fn lemma_touch_unique(s: Seq<Slot>, i: int)
    requires
        unique_keys(s),
        0 <= i < s.len(),
    ensures
        unique_keys(s.remove(i).push(s[i])),
{
    let t = s.remove(i).push(s[i]);
    assert forall|a: int, b: int| 0 <= a < b < t.len() implies t[a].0 != t[b].0 by {
        let ia = if a < i { a } else { a + 1 };
        if b == t.len() - 1 {
            assert(t[b] == s[i]);
        } else {
            let ib = if b < i { b } else { b + 1 };
            assert(t[b] == s[ib]);
        }
        assert(t[a] == s[ia]);
    }
}

/// Whether two parameter lists hold the same serialized values.
pub fn same_params(a: &Vec<String>, b: &Vec<String>) -> (r: bool)
    ensures
        r == (key_of(a@) == key_of(b@)),
{
    if a.len() != b.len() {
        assert(key_of(a@).len() != key_of(b@).len());
        return false;
    }
    let mut i: usize = 0;
    while i < a.len()
        invariant
            a@.len() == b@.len(),
            i <= a@.len(),
            forall|j: int| 0 <= j < i ==> a@[j]@ == b@[j]@,
        decreases a@.len() - i,
    {
        if a[i] != b[i] {
            assert(key_of(a@)[i as int] != key_of(b@)[i as int]);
            return false;
        }
        i = i + 1;
    }
    assert(key_of(a@) =~= key_of(b@));
    true
}

/// A copy of a parameter list.
pub fn copy_params(p: &Vec<String>) -> (r: Vec<String>)
    ensures
        key_of(r@) == key_of(p@),
{
    let mut r: Vec<String> = Vec::new();
    let mut i: usize = 0;
    while i < p.len()
        invariant
            i <= p@.len(),
            r@.len() == i,
            forall|j: int| 0 <= j < i ==> r@[j]@ == p@[j]@,
        decreases p@.len() - i,
    {
        r.push(p[i].clone());
        i = i + 1;
    }
    assert(key_of(r@) =~= key_of(p@));
    r
}

} // verus!
