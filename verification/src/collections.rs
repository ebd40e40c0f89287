//! Maps and sets of texts.
use vstd::prelude::*;
use crate::text::{contains_text, lemma_push_contains, same, texts};

verus! {

/// A map from text to text, kept in the order in which its keys came.
pub struct StringMap {
    entries: Vec<(String, String)>,
}

/// The keys of a list of entries.
pub open spec fn entry_keys(e: Seq<(String, String)>) -> Seq<Seq<char>> {
    Seq::new(e.len(), |i: int| e[i].0@)
}

/// Whether `e` holds key `k`.
pub open spec fn has_key(e: Seq<(String, String)>, k: Seq<char>) -> bool {
    exists|i: int| 0 <= i < e.len() && (#[trigger] e[i]).0@ == k
}

/// The value that `e` gives key `k`.
pub open spec fn value_of(e: Seq<(String, String)>, k: Seq<char>) -> Seq<char> {
    e[choose|i: int| 0 <= i < e.len() && (#[trigger] e[i]).0@ == k].1@
}

impl View for StringMap {
    type V = Map<Seq<char>, Seq<char>>;

    closed spec fn view(&self) -> Map<Seq<char>, Seq<char>> {
        Map::new(
            |k: Seq<char>| has_key(self.entries@, k),
            |k: Seq<char>| value_of(self.entries@, k),
        )
    }
}

impl StringMap {
    /// No key stands in the list twice.
    #[verifier::type_invariant]
    closed spec fn keys_differ(self) -> bool {
        forall|i: int, j: int|
            0 <= i < j < self.entries@.len() ==> (#[trigger] self.entries@[i]).0@ != (
            #[trigger] self.entries@[j]).0@
    }

    /// The keys, in the order in which they came.
    pub closed spec fn key_order(self) -> Seq<Seq<char>> {
        entry_keys(self.entries@)
    }

    /// The empty map.
    pub fn new() -> (m: StringMap)
        ensures
            m@ == Map::<Seq<char>, Seq<char>>::empty(),
            m.key_order() == Seq::<Seq<char>>::empty(),
    {
        let m = StringMap { entries: Vec::new() };
        assert(m@ =~= Map::<Seq<char>, Seq<char>>::empty());
        assert(m.key_order() =~= Seq::<Seq<char>>::empty());
        m
    }

    /// How many keys there are. The keys in order are the keys of the map, each once.
    pub fn len(&self) -> (n: usize)
        ensures
            n == self.key_order().len(),
            self.key_order().no_duplicates(),
            self.key_order().to_set() =~= self@.dom(),
    {
        proof {
            use_type_invariant(self);
            self.lemma_key_order();
        }
        self.entries.len()
    }

    /// Whether there is no key.
    pub fn is_empty(&self) -> (r: bool)
        ensures
            r == (self@ == Map::<Seq<char>, Seq<char>>::empty()),
            r == (self.key_order().len() == 0),
    {
        let r: bool = self.entries.len() == 0;
        proof {
            if r {
                assert(self@ =~= Map::<Seq<char>, Seq<char>>::empty());
            } else {
                let k = self.entries@[0].0@;
                assert(has_key(self.entries@, k));
                assert(self@.dom().contains(k));
            }
        }
        r
    }

    /// Key and value at position `i`.
    pub fn entry(&self, i: usize) -> (r: (&String, &String))
        requires
            i < self.key_order().len(),
        ensures
            r.0@ == self.key_order()[i as int],
            self@.dom().contains(r.0@),
            r.1@ == self@[r.0@],
    {
        proof {
            use_type_invariant(self);
            self.lemma_entry(i as int);
        }
        (&self.entries[i].0, &self.entries[i].1)
    }

    /// What the map holds at a position.
    proof fn lemma_entry(&self, i: int)
        requires
            0 <= i < self.entries@.len(),
            self.keys_differ(),
        ensures
            self@.dom().contains(self.entries@[i].0@),
            self@[self.entries@[i].0@] == self.entries@[i].1@,
    {
        let k = self.entries@[i].0@;
        let j = choose|j: int| 0 <= j < self.entries@.len() && (#[trigger] self.entries@[j]).0@ == k;
        assert(j == i);
    }

    /// The keys in order are the keys of the map, each once.
    proof fn lemma_key_order(&self)
        requires
            self.keys_differ(),
        ensures
            self.key_order().no_duplicates(),
            self.key_order().to_set() =~= self@.dom(),
    {
        let order = self.key_order();
        assert forall|i: int, j: int| 0 <= i < order.len() && 0 <= j < order.len() && i != j implies order[i]
            != order[j] by {
            let a = self.entries@[i].0@;
            let b = self.entries@[j].0@;
            if i < j {
                assert(a != b);
            } else {
                assert(b != a);
            }
        }
        assert forall|k: Seq<char>| order.to_set().contains(k) <==> self@.dom().contains(k) by {
            if order.to_set().contains(k) {
                let i = choose|i: int| 0 <= i < order.len() && order[i] == k;
                assert(self.entries@[i].0@ == k);
            }
            if self@.dom().contains(k) {
                let i = choose|i: int|
                    0 <= i < self.entries@.len() && (#[trigger] self.entries@[i]).0@ == k;
                assert(order[i] == k);
            }
        }
    }

    /// The position of `key`.
    fn position(&self, key: &str) -> (r: Option<usize>)
        ensures
            match r {
                Some(i) => i < self.entries@.len() && self.entries@[i as int].0@ == key@,
                None => !has_key(self.entries@, key@),
            },
    {
        let mut i: usize = 0;
        while i < self.entries.len()
            invariant
                i <= self.entries@.len(),
                forall|j: int| 0 <= j < i ==> (#[trigger] self.entries@[j]).0@ != key@,
            decreases self.entries.len() - i,
        {
            if same(self.entries[i].0.as_str(), key) {
                return Some(i);
            }
            i = i + 1;
        }
        None
    }

    /// The value of `key`.
    pub fn get(&self, key: &str) -> (r: Option<&String>)
        ensures
            match r {
                Some(v) => self@.dom().contains(key@) && v@ == self@[key@],
                None => !self@.dom().contains(key@),
            },
    {
        match self.position(key) {
            Some(i) => {
                proof {
                    use_type_invariant(self);
                    self.lemma_entry(i as int);
                }
                Some(&self.entries[i].1)
            },
            None => None,
        }
    }

    /// Whether `key` has a value.
    pub fn contains_key(&self, key: &str) -> (r: bool)
        ensures
            r == self@.dom().contains(key@),
    {
        match self.get(key) {
            Some(_) => true,
            None => false,
        }
    }

    /// Gives `key` the value `value`. A new key comes last.
    pub fn insert(&mut self, key: String, value: String)
        ensures
            final(self)@ == old(self)@.insert(key@, value@),
            final(self).key_order() == if old(self)@.dom().contains(key@) {
                old(self).key_order()
            } else {
                old(self).key_order().push(key@)
            },
    {
        let found: Option<usize> = self.position(key.as_str());
        let mut list: Vec<(String, String)> = Vec::new();
        proof {
            use_type_invariant(&*self);
        }
        let ghost before = *self;
        let ghost k = key@;
        let ghost v = value@;
        std::mem::swap(&mut list, &mut self.entries);
        let ghost e = list@;
        match found {
            Some(i) => {
                list.set(i, (key, value));
                proof {
                    assert(entry_keys(list@) =~= entry_keys(e));
                    assert forall|a: int, b: int| 0 <= a < b < list@.len() implies (
                    #[trigger] list@[a]).0@ != (#[trigger] list@[b]).0@ by {
                        assert(e[a].0@ != e[b].0@);
                    }
                }
            },
            None => {
                list.push((key, value));
                proof {
                    assert(entry_keys(list@) =~= entry_keys(e).push(k));
                    assert forall|a: int, b: int| 0 <= a < b < list@.len() implies (
                    #[trigger] list@[a]).0@ != (#[trigger] list@[b]).0@ by {
                        if b < e.len() {
                            assert(e[a].0@ != e[b].0@);
                        } else {
                            assert(e[a].0@ != k);
                        }
                    }
                }
            },
        }
        let ghost l = list@;
        self.entries = list;
        proof {
            let at = match found {
                Some(i) => i as int,
                None => e.len() as int,
            };
            assert(self.entries@ == l);
            assert(l[at].0@ == k && l[at].1@ == v);
            self.lemma_entry(at);
            assert forall|q: Seq<char>| self@.dom().contains(q) <==> before@.insert(k, v).dom().contains(
                q,
            ) by {
                if has_key(l, q) && q != k {
                    let i = choose|i: int| 0 <= i < l.len() && (#[trigger] l[i]).0@ == q;
                    assert(e[i].0@ == q);
                }
                if has_key(e, q) {
                    let i = choose|i: int| 0 <= i < e.len() && (#[trigger] e[i]).0@ == q;
                    assert(l[i].0@ == q);
                }
            }
            assert forall|q: Seq<char>| self@.dom().contains(q) implies self@[q] == before@.insert(
                k,
                v,
            )[q] by {
                if q != k {
                    let i = choose|i: int| 0 <= i < l.len() && (#[trigger] l[i]).0@ == q;
                    self.lemma_entry(i);
                    before.lemma_entry(i);
                }
            }
            assert(self@ =~= before@.insert(k, v));
        }
    }

    /// A copy of the map.
    pub fn duplicate(&self) -> (m: StringMap)
        ensures
            m@ == self@,
            m.key_order() == self.key_order(),
    {
        let mut out: StringMap = StringMap::new();
        let mut i: usize = 0;
        let n: usize = self.len();
        assert(self.key_order().take(0) =~= Seq::<Seq<char>>::empty());
        while i < n
            invariant
                i <= n,
                n == self.key_order().len(),
                self.key_order().no_duplicates(),
                out.key_order() == self.key_order().take(i as int),
                forall|k: Seq<char>|
                    out@.dom().contains(k) <==> self.key_order().take(i as int).contains(k),
                forall|k: Seq<char>| #[trigger] out@.dom().contains(k) ==> out@[k] == self@[k],
            decreases self.key_order().len() - i,
        {
            let (k, v) = self.entry(i);
            proof {
                let t = self.key_order().take(i as int);
                let u = self.key_order().take(i + 1);
                assert(u =~= t.push(k@));
                assert(!t.contains(k@)) by {
                    if t.contains(k@) {
                        let j = choose|j: int| 0 <= j < t.len() && t[j] == k@;
                        assert(self.key_order()[j] == self.key_order()[i as int]);
                    }
                }
                lemma_push_contains(t, k@);
            }
            out.insert(k.clone(), v.clone());
            i = i + 1;
        }
        proof {
            assert(self.key_order().take(i as int) =~= self.key_order());
            assert forall|k: Seq<char>| out@.dom().contains(k) <==> self@.dom().contains(k) by {
                assert(self.key_order().to_set().contains(k) <==> self@.dom().contains(k));
            }
            assert(out@ =~= self@);
        }
        out
    }

    /// Whether two maps hold the same keys with the same values.
    pub fn equals(&self, other: &StringMap) -> (r: bool)
        ensures
            r == (self@ == other@),
    {
        let n: usize = self.len();
        let m: usize = other.len();
        let mut i: usize = 0;
        while i < n
            invariant
                i <= n,
                n == self.key_order().len(),
                forall|j: int|
                    0 <= j < i ==> other@.dom().contains(#[trigger] self.key_order()[j])
                        && other@[self.key_order()[j]] == self@[self.key_order()[j]],
            decreases self.key_order().len() - i,
        {
            let (k, v) = self.entry(i);
            match other.get(k.as_str()) {
                Some(w) => {
                    if !same(v.as_str(), w.as_str()) {
                        return false;
                    }
                },
                None => {
                    return false;
                },
            }
            i = i + 1;
        }
        i = 0;
        while i < m
            invariant
                i <= m,
                m == other.key_order().len(),
                forall|j: int|
                    0 <= j < i ==> self@.dom().contains(#[trigger] other.key_order()[j]),
            decreases other.key_order().len() - i,
        {
            let (k, v) = other.entry(i);
            if !self.contains_key(k.as_str()) {
                return false;
            }
            i = i + 1;
        }
        proof {
            assert forall|k: Seq<char>| self@.dom().contains(k) <==> other@.dom().contains(k) by {
                assert(self.key_order().to_set().contains(k) <==> self@.dom().contains(k));
                assert(other.key_order().to_set().contains(k) <==> other@.dom().contains(k));
                if self@.dom().contains(k) {
                    let j = choose|j: int| 0 <= j < self.key_order().len() && self.key_order()[j] == k;
                    assert(other@.dom().contains(self.key_order()[j]));
                }
                if other@.dom().contains(k) {
                    let j = choose|j: int|
                        0 <= j < other.key_order().len() && other.key_order()[j] == k;
                    assert(self@.dom().contains(other.key_order()[j]));
                }
            }
            assert forall|k: Seq<char>| self@.dom().contains(k) implies self@[k] == other@[k] by {
                assert(self.key_order().to_set().contains(k));
                let j = choose|j: int| 0 <= j < self.key_order().len() && self.key_order()[j] == k;
                assert(other@.dom().contains(self.key_order()[j]));
            }
            assert(self@ =~= other@);
        }
        true
    }
}

/// A set of texts.
pub struct StringSet {
    items: Vec<String>,
}

impl View for StringSet {
    type V = Set<Seq<char>>;

    closed spec fn view(&self) -> Set<Seq<char>> {
        texts(self.items@).to_set()
    }
}

impl StringSet {
    /// The empty set.
    pub fn new() -> (s: StringSet)
        ensures
            s@ == Set::<Seq<char>>::empty(),
    {
        let s = StringSet { items: Vec::new() };
        assert(s@ =~= Set::<Seq<char>>::empty());
        s
    }

    /// Whether `item` is in the set.
    pub fn contains(&self, item: &str) -> (r: bool)
        ensures
            r == self@.contains(item@),
    {
        contains_text(self.items.as_slice(), item)
    }

    /// Puts `item` into the set; whether it was not there before.
    pub fn insert(&mut self, item: String) -> (r: bool)
        ensures
            final(self)@ == old(self)@.insert(item@),
            r == !old(self)@.contains(item@),
    {
        let known: bool = contains_text(self.items.as_slice(), item.as_str());
        let ghost t = item@;
        let ghost before = texts(self.items@);
        if !known {
            self.items.push(item);
            proof {
                assert(texts(self.items@) =~= before.push(t));
                lemma_push_contains(before, t);
            }
        }
        assert(self@ =~= old(self)@.insert(t));
        !known
    }

    /// Takes `item` out of the set; whether it was there.
    pub fn remove(&mut self, item: &str) -> (r: bool)
        ensures
            final(self)@ == old(self)@.remove(item@),
            r == old(self)@.contains(item@),
    {
        let known: bool = contains_text(self.items.as_slice(), item);
        let mut kept: Vec<String> = Vec::new();
        let mut i: usize = 0;
        while i < self.items.len()
            invariant
                i <= self.items@.len(),
                forall|x: Seq<char>|
                    texts(kept@).contains(x) <==> x != item@ && texts(self.items@).take(
                        i as int,
                    ).contains(x),
                *self == *old(self),
            decreases self.items.len() - i,
        {
            let ghost t = texts(self.items@).take(i as int);
            let ghost c = self.items@[i as int]@;
            let ghost old_kept = texts(kept@);
            if !same(self.items[i].as_str(), item) {
                kept.push(self.items[i].clone());
                assert(texts(kept@) =~= old_kept.push(c));
            }
            proof {
                assert(texts(self.items@).take(i + 1) =~= t.push(c));
                lemma_push_contains(t, c);
                lemma_push_contains(old_kept, c);
            }
            i = i + 1;
        }
        assert(texts(self.items@).take(i as int) =~= texts(self.items@));
        self.items = kept;
        assert(self@ =~= old(self)@.remove(item@));
        known
    }
}

} // verus!
