//! Maps from strings to strings.

use crate::text::{opt_text, str_eq};
use vstd::prelude::*;
use vstd::string::*;

verus! {

/// A map from strings to strings that remembers in which order its keys came.
#[derive(Debug)]
pub struct TextMap {
    entries: Vec<(String, String)>,
}

/// Position `i` of `entries` holds the key `k`.
pub open spec fn key_at(entries: Seq<(String, String)>, i: int, k: Seq<char>) -> bool {
    0 <= i < entries.len() && entries[i].0@ == k
}

impl View for TextMap {
    type V = Map<Seq<char>, Seq<char>>;

    closed spec fn view(&self) -> Map<Seq<char>, Seq<char>> {
        Map::new(
            |k: Seq<char>| exists|i: int| key_at(self.entries@, i, k),
            |k: Seq<char>| self.entries@[choose|i: int| key_at(self.entries@, i, k)].1@,
        )
    }
}

impl TextMap {
    /// No key stands twice.
    pub closed spec fn wf(&self) -> bool {
        forall|i: int, j: int|
            0 <= i < j < self.entries.len() ==> (#[trigger] self.entries@[i]).0@ != (
            #[trigger] self.entries@[j]).0@
    }

    /// The keys in the order in which they came.
    pub closed spec fn keys(&self) -> Seq<Seq<char>> {
        self.entries@.map_values(|e: (String, String)| e.0@)
    }

    /// What the order of the keys has to do with the map.
    pub proof fn lemma_keys(&self)
        requires
            self.wf(),
        ensures
            self.keys().no_duplicates(),
            forall|k: Seq<char>| #[trigger] self@.contains_key(k) <==> self.keys().contains(k),
            self@.dom().finite(),
    {
        assert forall|k: Seq<char>| #[trigger] self@.contains_key(k) implies self.keys().contains(
            k,
        ) by {
            let i = choose|i: int| key_at(self.entries@, i, k);
            assert(self.keys()[i] == k);
        }
        assert forall|k: Seq<char>| #[trigger] self.keys().contains(k) implies self@.contains_key(
            k,
        ) by {
            let i = choose|i: int| 0 <= i < self.keys().len() && self.keys()[i] == k;
            assert(key_at(self.entries@, i, k));
        }
        assert(self@.dom() =~= self.keys().to_set()) by {
            assert forall|k: Seq<char>| #[trigger] self@.dom().contains(k)
                == self.keys().to_set().contains(k) by {
                assert(self@.contains_key(k) <==> self.keys().contains(k));
            }
        }
        vstd::seq_lib::seq_to_set_is_finite(self.keys());
    }

    proof fn lemma_value(&self, i: int)
        requires
            self.wf(),
            0 <= i < self.entries.len(),
        ensures
            self@.contains_key(self.entries@[i].0@),
            self@[self.entries@[i].0@] == self.entries@[i].1@,
    {
        let k = self.entries@[i].0@;
        assert(key_at(self.entries@, i, k));
        let j = choose|j: int| key_at(self.entries@, j, k);
        if j < i {
            assert(self.entries@[j].0@ != self.entries@[i].0@);
        } else if i < j {
            assert(self.entries@[i].0@ != self.entries@[j].0@);
        }
    }

    pub fn new() -> (r: TextMap)
        ensures
            r.wf(),
            r@ == Map::<Seq<char>, Seq<char>>::empty(),
            r.keys() == Seq::<Seq<char>>::empty(),
    {
        let r = TextMap { entries: Vec::new() };
        assert(r@ =~= Map::<Seq<char>, Seq<char>>::empty());
        assert(r.keys() =~= Seq::<Seq<char>>::empty());
        r
    }

    pub fn len(&self) -> (r: usize)
        ensures
            r == self.keys().len(),
    {
        self.entries.len()
    }

    /// The entry that came `i`-th.
    pub fn entry(&self, i: usize) -> (r: (&String, &String))
        requires
            self.wf(),
            i < self.keys().len(),
        ensures
            r.0@ == self.keys()[i as int],
            self@.contains_key(r.0@),
            r.1@ == self@[r.0@],
    {
        proof {
            self.lemma_value(i as int);
        }
        (&self.entries[i].0, &self.entries[i].1)
    }

    fn find(&self, key: &str) -> (r: Option<usize>)
        ensures
            r matches Some(i) ==> key_at(self.entries@, i as int, key@),
            r is None ==> forall|i: int| !key_at(self.entries@, i, key@),
    {
        let mut i: usize = 0;
        while i < self.entries.len()
            invariant
                i <= self.entries.len(),
                forall|j: int| 0 <= j < i ==> !key_at(self.entries@, j, key@),
            decreases self.entries.len() - i,
        {
            if str_eq(self.entries[i].0.as_str(), key) {
                return Some(i);
            }
            i += 1;
        }
        None
    }

    pub fn contains_key(&self, key: &str) -> (r: bool)
        ensures
            r == self@.contains_key(key@),
    {
        self.find(key).is_some()
    }

    pub fn get(&self, key: &str) -> (r: Option<String>)
        requires
            self.wf(),
        ensures
            opt_text(r) == (if self@.contains_key(key@) {
                Some(self@[key@])
            } else {
                None
            }),
    {
        match self.find(key) {
            Some(i) => {
                proof {
                    self.lemma_value(i as int);
                }
                Some(self.entries[i].1.clone())
            },
            None => None,
        }
    }

    /// Sets the value for `key`, and gives back the value that it had. A new key comes last.
    pub fn insert(&mut self, key: String, value: String) -> (r: Option<String>)
        requires
            old(self).wf(),
        ensures
            final(self).wf(),
            final(self)@ == old(self)@.insert(key@, value@),
            final(self).keys() == (if old(self)@.contains_key(key@) {
                old(self).keys()
            } else {
                old(self).keys().push(key@)
            }),
            opt_text(r) == (if old(self)@.contains_key(key@) {
                Some(old(self)@[key@])
            } else {
                None
            }),
    {
        let ghost before = *self;
        let ghost k = key@;
        let ghost v = value@;
        match self.find(key.as_str()) {
            Some(i) => {
                proof {
                    self.lemma_value(i as int);
                }
                let out = self.entries[i].1.clone();
                self.entries.set(i, (key, value));
                proof {
                    assert forall|a: int, b: int| 0 <= a < b < self.entries.len() implies (
                    #[trigger] self.entries@[a]).0@ != (#[trigger] self.entries@[b]).0@ by {
                        assert(before.entries@[a].0@ != before.entries@[b].0@);
                    }
                    assert(self.keys() =~= before.keys());
                    before.lemma_keys();
                    self.lemma_keys();
                    assert forall|x: Seq<char>| #[trigger] self@.contains_key(x) implies self@[x]
                        == before@.insert(k, v)[x] by {
                        let a = choose|a: int| key_at(self.entries@, a, x);
                        self.lemma_value(a);
                        before.lemma_value(a);
                    }
                    assert forall|x: Seq<char>| #[trigger]
                        self@.contains_key(x) <==> before@.insert(k, v).contains_key(x) by {}
                    assert(self@ =~= before@.insert(k, v));
                }
                Some(out)
            },
            None => {
                self.entries.push((key, value));
                proof {
                    let n = before.entries.len() as int;
                    assert forall|a: int, b: int| 0 <= a < b < self.entries.len() implies (
                    #[trigger] self.entries@[a]).0@ != (#[trigger] self.entries@[b]).0@ by {
                        if b == n {
                            assert(!key_at(before.entries@, a, k));
                        } else {
                            assert(before.entries@[a].0@ != before.entries@[b].0@);
                        }
                    }
                    assert(self.keys() =~= before.keys().push(k));
                    assert(key_at(self.entries@, n, k));
                    assert forall|x: Seq<char>| #[trigger]
                        self@.contains_key(x) <==> before@.insert(k, v).contains_key(x) by {
                        if before@.contains_key(x) {
                            let a = choose|a: int| key_at(before.entries@, a, x);
                            assert(key_at(self.entries@, a, x));
                        }
                        if self@.contains_key(x) {
                            let a = choose|a: int| key_at(self.entries@, a, x);
                            if a < n {
                                assert(key_at(before.entries@, a, x));
                            }
                        }
                    }
                    assert forall|x: Seq<char>| #[trigger] self@.contains_key(x) implies self@[x]
                        == before@.insert(k, v)[x] by {
                        let a = choose|a: int| key_at(self.entries@, a, x);
                        self.lemma_value(a);
                        if a < n {
                            before.lemma_value(a);
                            assert(key_at(before.entries@, a, x));
                        }
                    }
                    assert(self@ =~= before@.insert(k, v));
                }
                None
            },
        }
    }
}

/// A map gives back what was put in last under a key, and nothing under a key that was never put
/// in; a key that is new comes behind the others.
pub proof fn law_map_remembers(m: &TextMap, key: &str, got: Option<String>, there: bool)
    requires
        m.wf(),
        call_ensures(TextMap::get, (m, key), got),
        call_ensures(TextMap::contains_key, (m, key), there),
    ensures
        there <==> m@.contains_key(key@),
        got is Some <==> m@.contains_key(key@),
        got matches Some(v) ==> v@ == m@[key@],
        forall|i: usize, e: (&String, &String)| #[trigger]
            call_ensures(TextMap::entry, (m, i), e) ==> e.0@ == m.keys()[i as int]
                && m@.contains_key(e.0@) && e.1@ == m@[e.0@],
        forall|n: usize| #[trigger] call_ensures(TextMap::len, (m,), n) ==> n == m.keys().len(),
        forall|n: TextMap| #[trigger]
            call_ensures(TextMap::new, (), n) ==> n.keys().len() == 0 && n@.dom() == Set::<
                Seq<char>,
            >::empty(),
        forall|n: &mut TextMap, k: String, v: String, r: Option<String>| #[trigger]
            call_ensures(TextMap::insert, (n, k, v), r) ==> {
                &&& (*final(n))@.contains_key(k@) && (*final(n))@[k@] == v@
                &&& r is Some <==> (*n)@.contains_key(k@)
                &&& r matches Some(old_value) ==> old_value@ == (*n)@[k@]
                &&& r is Some ==> (*final(n)).keys() == (*n).keys()
                &&& r is None ==> (*final(n)).keys() == (*n).keys().push(k@)
                &&& forall|other: Seq<char>|
                    other != k@ ==> (#[trigger] (*final(n))@.contains_key(other)
                        <==> (*n)@.contains_key(other)) && ((*n)@.contains_key(other)
                        ==> (*final(n))@[other] == (*n)@[other])
            },
{
    assert forall|n: TextMap| #[trigger] call_ensures(TextMap::new, (), n) implies n@.dom()
        == Set::<Seq<char>>::empty() by {
        assert(n@.dom() =~= Set::<Seq<char>>::empty());
    }
}

} // verus!
