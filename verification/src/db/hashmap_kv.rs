//! An in-memory key/value store over `String` keys and values.

use vstd::prelude::*;
use vstd::string::StrSliceExecFns;
use vstd::pervasive::VecAdditionalExecFns;
use crate::db::KV;

verus! {

/// Whether some entry of `s` holds the key `k`.
spec fn has_key(s: Seq<(String, String)>, k: Seq<char>) -> bool {
    exists|i: int| 0 <= i < s.len() && s[i].0@ == k
}

/// The position of the entry holding the key `k`.
spec fn key_index(s: Seq<(String, String)>, k: Seq<char>) -> int {
    choose|i: int| 0 <= i < s.len() && s[i].0@ == k
}

/// Each key occurs in at most one entry of `s`.
spec fn distinct_keys(s: Seq<(String, String)>) -> bool {
    forall|i: int, j: int| 0 <= i < j < s.len() ==> s[i].0@ != s[j].0@
}

/// The entries of `s` read as a map from key contents to value contents.
spec fn kv_map(s: Seq<(String, String)>) -> Map<Seq<char>, Seq<char>> {
    Map::new(|k: Seq<char>| has_key(s, k), |k: Seq<char>| s[key_index(s, k)].1@)
}

/// The entry at a position of a duplicate-free entry list is what the map
/// holds for its key.
proof fn lemma_entry(s: Seq<(String, String)>, i: int)
    requires
        distinct_keys(s),
        0 <= i < s.len(),
    ensures
        kv_map(s).contains_key(s[i].0@),
        kv_map(s)[s[i].0@] == s[i].1@,
{
    assert(has_key(s, s[i].0@));
    let j = key_index(s, s[i].0@);
    assert(0 <= j < s.len() && s[j].0@ == s[i].0@);
    if i < j {
        assert(s[i].0@ != s[j].0@);
    } else if j < i {
        assert(s[j].0@ != s[i].0@);
    }
}

/// Replacing the value stored under a key rewrites the map with an insert
/// for that key.
proof fn lemma_update_entry(s: Seq<(String, String)>, i: int, p: (String, String))
    requires
        distinct_keys(s),
        0 <= i < s.len(),
        p.0@ == s[i].0@,
    ensures
        distinct_keys(s.update(i, p)),
        kv_map(s.update(i, p)) == kv_map(s).insert(p.0@, p.1@),
{
    let v = s.update(i, p);
    assert(forall|t: int| 0 <= t < v.len() ==> v[t].0@ == s[t].0@);
    assert forall|k: Seq<char>| has_key(v, k) implies has_key(s, k) by {
        let j = choose|j: int| 0 <= j < v.len() && v[j].0@ == k;
        assert(s[j].0@ == k);
    }
    assert forall|k: Seq<char>| has_key(s, k) implies has_key(v, k) by {
        let j = choose|j: int| 0 <= j < s.len() && s[j].0@ == k;
        assert(v[j].0@ == k);
    }
    assert forall|k: Seq<char>| has_key(v, k) && k != p.0@ implies kv_map(v)[k]
        == kv_map(s)[k] by {
        let j = choose|j: int| 0 <= j < v.len() && v[j].0@ == k;
        assert(j != i);
        lemma_entry(v, j);
        lemma_entry(s, j);
    }
    lemma_entry(v, i);
    assert(kv_map(v) =~= kv_map(s).insert(p.0@, p.1@));
}

/// Appending an entry under a fresh key rewrites the map with an insert for
/// that key.
proof fn lemma_push_entry(s: Seq<(String, String)>, p: (String, String))
    requires
        distinct_keys(s),
        !has_key(s, p.0@),
    ensures
        distinct_keys(s.push(p)),
        kv_map(s.push(p)) == kv_map(s).insert(p.0@, p.1@),
{
    let v = s.push(p);
    assert(forall|t: int| 0 <= t < s.len() ==> v[t] == s[t]);
    assert(v[s.len() as int] == p);
    assert forall|k: Seq<char>| has_key(v, k) && k != p.0@ implies has_key(s, k) by {
        let j = choose|j: int| 0 <= j < v.len() && v[j].0@ == k;
        assert(j != s.len());
        assert(s[j].0@ == k);
    }
    assert forall|k: Seq<char>| has_key(s, k) implies has_key(v, k) by {
        let j = choose|j: int| 0 <= j < s.len() && s[j].0@ == k;
        assert(v[j].0@ == k);
    }
    assert forall|k: Seq<char>| has_key(v, k) && k != p.0@ implies kv_map(v)[k]
        == kv_map(s)[k] by {
        let j = choose|j: int| 0 <= j < v.len() && v[j].0@ == k;
        assert(j != s.len());
        lemma_entry(v, j);
        lemma_entry(s, j);
    }
    lemma_entry(v, s.len() as int);
    assert(kv_map(v) =~= kv_map(s).insert(p.0@, p.1@));
}

/// Removing an entry rewrites the map with a remove of its key.
proof fn lemma_remove_entry(s: Seq<(String, String)>, i: int)
    requires
        distinct_keys(s),
        0 <= i < s.len(),
    ensures
        distinct_keys(s.remove(i)),
        kv_map(s.remove(i)) == kv_map(s).remove(s[i].0@),
{
    let v = s.remove(i);
    assert(forall|t: int| 0 <= t < i ==> v[t] == s[t]);
    assert(forall|t: int| i <= t < v.len() ==> v[t] == s[t + 1]);
    assert forall|k: Seq<char>| has_key(v, k) implies has_key(s, k) && k != s[i].0@ by {
        let j = choose|j: int| 0 <= j < v.len() && v[j].0@ == k;
        if j < i {
            assert(s[j].0@ == k);
        } else {
            assert(s[j + 1].0@ == k);
        }
    }
    assert forall|k: Seq<char>| has_key(s, k) && k != s[i].0@ implies has_key(v, k) by {
        let j = choose|j: int| 0 <= j < s.len() && s[j].0@ == k;
        if j < i {
            assert(v[j].0@ == k);
        } else {
            assert(j != i);
            assert(v[j - 1].0@ == k);
        }
    }
    assert forall|k: Seq<char>| has_key(v, k) implies kv_map(v)[k] == kv_map(s)[k] by {
        let j = choose|j: int| 0 <= j < v.len() && v[j].0@ == k;
        lemma_entry(v, j);
        if j < i {
            lemma_entry(s, j);
        } else {
            lemma_entry(s, j + 1);
        }
    }
    assert(kv_map(v) =~= kv_map(s).remove(s[i].0@));
}

/// An in-memory key/value store: a list of entries with pairwise distinct
/// keys, read through its view as a map from key contents to value contents.
pub struct HashMapKV {
    inner: Vec<(String, String)>,
}

impl View for HashMapKV {
    type V = Map<Seq<char>, Seq<char>>;

    closed spec fn view(&self) -> Map<Seq<char>, Seq<char>> {
        kv_map(self.inner@)
    }
}

impl HashMapKV {
    /// Each key is stored at most once.
    #[verifier::type_invariant]
    spec fn wf(&self) -> bool {
        distinct_keys(self.inner@)
    }

    /// Creates an empty store.
    pub fn new() -> (kv: HashMapKV)
        ensures
            kv@ == Map::<Seq<char>, Seq<char>>::empty(),
    {
        let kv = HashMapKV { inner: Vec::new() };
        proof {
            assert(kv@ =~= Map::<Seq<char>, Seq<char>>::empty());
        }
        kv
    }

    /// The position of the entry holding `key`, if the store has one.
    fn find_index(&self, key: &String) -> (r: Option<usize>)
        ensures
            match r {
                Some(i) => 0 <= i < self.inner@.len() && self.inner@[i as int].0@ == key@,
                None => !has_key(self.inner@, key@),
            },
    {
        let mut j: usize = 0;
        while j < self.inner.len()
            invariant
                j <= self.inner@.len(),
                forall|t: int| 0 <= t < j ==> self.inner@[t].0@ != key@,
            decreases self.inner@.len() - j,
        {
            if self.inner[j].0 == *key {
                return Some(j);
            }
            j += 1;
        }
        None
    }

    /// Stores `value` under `key`, replacing the value stored there before,
    /// if any. Storing never fails.
    pub fn put(&mut self, key: &String, value: &String) -> (r: Result<(), String>)
        ensures
            r is Ok,
            final(self)@ == old(self)@.insert(key@, value@),
    {
        proof {
            use_type_invariant(&*self);
        }
        let found = self.find_index(key);
        let mut entries: Vec<(String, String)> = Vec::new();
        core::mem::swap(&mut entries, &mut self.inner);
        let ghost s = entries@;
        match found {
            Some(i) => {
                let pair = (key.clone(), value.clone());
                proof {
                    lemma_update_entry(s, i as int, pair);
                }
                entries.set(i, pair);
            },
            None => {
                let pair = (key.clone(), value.clone());
                proof {
                    lemma_push_entry(s, pair);
                }
                entries.push(pair);
            },
        }
        core::mem::swap(&mut entries, &mut self.inner);
        Ok(())
    }

    /// Looks `key` up: the value stored under it, or `None` when the store
    /// holds no such key. Looking up never fails.
    pub fn get(&self, key: &String) -> (r: Result<Option<String>, String>)
        ensures
            match r {
                Ok(Some(v)) => self@.contains_key(key@) && v@ == self@[key@],
                Ok(None) => !self@.contains_key(key@),
                Err(_) => false,
            },
    {
        proof {
            use_type_invariant(&*self);
        }
        match self.find_index(key) {
            Some(i) => {
                proof {
                    lemma_entry(self.inner@, i as int);
                }
                Ok(Some(self.inner[i].1.clone()))
            },
            None => Ok(None),
        }
    }

    /// All entries whose key begins with `key`, each an entry of the store;
    /// every stored key that begins with `key` appears, and no key appears
    /// twice. The order of the entries is not specified, as with the hash
    /// map this store stands for.
    pub fn get_prefix(&self, key: &String) -> (r: Vec<(String, String)>)
        ensures
            forall|t: int| 0 <= t < r@.len() ==> key@.is_prefix_of(#[trigger] r@[t].0@)
                && self@.contains_key(r@[t].0@) && self@[r@[t].0@] == r@[t].1@,
            forall|k: Seq<char>| self@.contains_key(k) && key@.is_prefix_of(k)
                ==> exists|t: int| 0 <= t < r@.len() && #[trigger] r@[t].0@ == k,
            forall|t1: int, t2: int| 0 <= t1 < t2 < r@.len() ==> r@[t1].0@ != r@[t2].0@,
    {
        proof {
            use_type_invariant(&*self);
        }
        let ghost s = self.inner@;
        let mut r: Vec<(String, String)> = Vec::new();
        let mut j: usize = 0;
        while j < self.inner.len()
            invariant
                distinct_keys(s),
                s == self.inner@,
                j <= s.len(),
                forall|t: int| 0 <= t < r@.len() ==> key@.is_prefix_of(#[trigger] r@[t].0@),
                forall|t: int| 0 <= t < r@.len() ==> exists|i: int| 0 <= i < j
                    && #[trigger] r@[t].0@ == s[i].0@ && r@[t].1@ == s[i].1@,
                forall|i: int| 0 <= i < j && key@.is_prefix_of(#[trigger] s[i].0@)
                    ==> exists|t: int| 0 <= t < r@.len() && #[trigger] r@[t].0@ == s[i].0@,
                forall|t1: int, t2: int| 0 <= t1 < t2 < r@.len() ==> r@[t1].0@ != r@[t2].0@,
            decreases s.len() - j,
        {
            let matched = starts_with(&self.inner[j].0, key);
            let ghost r0 = r@;
            if matched {
                let pair = (self.inner[j].0.clone(), self.inner[j].1.clone());
                proof {
                    assert(pair.0@ == s[j as int].0@ && pair.1@ == s[j as int].1@);
                    assert forall|t: int| 0 <= t < r0.len() implies r0[t].0@ != pair.0@ by {
                        let i = choose|i: int| 0 <= i < j && #[trigger] r0[t].0@ == s[i].0@
                            && r0[t].1@ == s[i].1@;
                        assert(s[i].0@ != s[j as int].0@);
                    }
                }
                r.push(pair);
                proof {
                    assert(r@ == r0.push(pair));
                    assert forall|t: int| 0 <= t < r@.len() implies exists|i: int|
                        0 <= i < j + 1 && #[trigger] r@[t].0@ == s[i].0@
                        && r@[t].1@ == s[i].1@ by {
                        if t < r0.len() {
                            let i = choose|i: int| 0 <= i < j && #[trigger] r0[t].0@ == s[i].0@
                                && r0[t].1@ == s[i].1@;
                            assert(r@[t].0@ == s[i].0@ && r@[t].1@ == s[i].1@);
                        } else {
                            assert(r@[t].0@ == s[j as int].0@ && r@[t].1@ == s[j as int].1@);
                        }
                    }
                    assert forall|i: int| 0 <= i < j + 1 && key@.is_prefix_of(#[trigger] s[i].0@)
                        implies exists|t: int| 0 <= t < r@.len()
                        && #[trigger] r@[t].0@ == s[i].0@ by {
                        if i < j {
                            let t = choose|t: int| 0 <= t < r0.len()
                                && #[trigger] r0[t].0@ == s[i].0@;
                            assert(r@[t].0@ == s[i].0@);
                        } else {
                            assert(r@[r0.len() as int].0@ == s[i].0@);
                        }
                    }
                }
            }
            j += 1;
        }
        proof {
            assert forall|t: int| 0 <= t < r@.len() implies self@.contains_key(r@[t].0@)
                && self@[r@[t].0@] == r@[t].1@ by {
                let i = choose|i: int| 0 <= i < s.len() && #[trigger] r@[t].0@ == s[i].0@
                    && r@[t].1@ == s[i].1@;
                lemma_entry(s, i);
            }
            assert forall|k: Seq<char>| self@.contains_key(k) && key@.is_prefix_of(k)
                implies exists|t: int| 0 <= t < r@.len() && #[trigger] r@[t].0@ == k by {
                let i = choose|i: int| 0 <= i < s.len() && s[i].0@ == k;
                assert(key@.is_prefix_of(s[i].0@));
            }
        }
        r
    }

    /// Removes the entry stored under `key`, if any. Removing never fails,
    /// also when the store holds no such key.
    pub fn remove(&mut self, key: &String) -> (r: Result<(), String>)
        ensures
            r is Ok,
            final(self)@ == old(self)@.remove(key@),
    {
        proof {
            use_type_invariant(&*self);
        }
        let found = self.find_index(key);
        let mut entries: Vec<(String, String)> = Vec::new();
        core::mem::swap(&mut entries, &mut self.inner);
        let ghost s = entries@;
        match found {
            Some(i) => {
                proof {
                    lemma_remove_entry(s, i as int);
                }
                let _ = entries.remove(i);
            },
            None => {
                proof {
                    assert(!kv_map(s).contains_key(key@));
                    assert(kv_map(s) =~= kv_map(s).remove(key@));
                }
            },
        }
        core::mem::swap(&mut entries, &mut self.inner);
        Ok(())
    }
}

/// Whether `s` begins with `prefix`, compared by characters.
fn starts_with(s: &String, prefix: &String) -> (r: bool)
    ensures
        r == prefix@.is_prefix_of(s@),
{
    let n = prefix.as_str().unicode_len();
    let m = s.as_str().unicode_len();
    if m < n {
        return false;
    }
    let head = s.as_str().substring_char(0, n);
    let h = String::from_str(head);
    h == *prefix
}

impl KV<String, String> for HashMapKV {
    fn put(&mut self, key: &String, value: &String) -> Result<(), String> {
        HashMapKV::put(self, key, value)
    }

    fn get(&self, key: &String) -> Result<Option<String>, String> {
        HashMapKV::get(self, key)
    }

    fn get_prefix(&self, key: &String) -> Vec<(String, String)> {
        HashMapKV::get_prefix(self, key)
    }

    fn remove(&mut self, key: &String) -> Result<(), String> {
        HashMapKV::remove(self, key)
    }
}

} // verus!
