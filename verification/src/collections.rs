//! Ordered string collections with verified contracts.
//!
//! `StringMap` keeps key/value pairs in insertion order with unique keys;
//! `StringSet` keeps names in insertion order without duplicates.  Both stand
//! where the configuration schema calls for a map or a set of parameter
//! names, so that contracts can speak about their contents as sequences.

use vstd::prelude::*;

use crate::text::eq_str;

verus! {

/// No two entries share a key.
pub open spec fn keys_unique(s: Seq<(String, String)>) -> bool {
    forall|i: int, j: int|
        0 <= i < s.len() && 0 <= j < s.len() && i != j ==> s[i].0@ != s[j].0@
}

/// Whether some entry carries the key.
pub open spec fn has_key(s: Seq<(String, String)>, k: Seq<char>) -> bool {
    exists|i: int| 0 <= i < s.len() && #[trigger] s[i].0@ == k
}

/// The index of the entry carrying the key.
pub open spec fn key_index(s: Seq<(String, String)>, k: Seq<char>) -> int {
    choose|i: int| 0 <= i < s.len() && #[trigger] s[i].0@ == k
}

/// The value stored under the key from position `i` on, scanning forward.
pub open spec fn lookup_from(s: Seq<(String, String)>, k: Seq<char>, i: int) -> Option<String>
    decreases s.len() - i,
{
    if i < 0 || i >= s.len() {
        Option::None
    } else if s[i].0@ == k {
        Option::Some(s[i].1)
    } else {
        lookup_from(s, k, i + 1)
    }
}

/// The value stored under the key, if any.
pub open spec fn lookup(s: Seq<(String, String)>, k: Seq<char>) -> Option<String> {
    lookup_from(s, k, 0)
}

/// A found value witnesses the key.
pub proof fn lemma_lookup_from_some(s: Seq<(String, String)>, k: Seq<char>, i: int)
    requires
        lookup_from(s, k, i) is Some,
    ensures
        exists|j: int| i <= j < s.len() && #[trigger] s[j].0@ == k,
    decreases s.len() - i,
{
    if 0 <= i < s.len() && s[i].0@ != k {
        lemma_lookup_from_some(s, k, i + 1);
    }
}

/// A key present from position `i` on is found from position `i` on.
pub proof fn lemma_lookup_from_finds(s: Seq<(String, String)>, k: Seq<char>, i: int)
    requires
        0 <= i,
        exists|j: int| i <= j < s.len() && #[trigger] s[j].0@ == k,
    ensures
        lookup_from(s, k, i) is Some,
    decreases s.len() - i,
{
    if i < s.len() && s[i].0@ != k {
        let j = choose|j: int| i <= j < s.len() && #[trigger] s[j].0@ == k;
        assert(i + 1 <= j < s.len() && s[j].0@ == k);
        lemma_lookup_from_finds(s, k, i + 1);
    }
}

/// Scanning from `i` reaches the entry at `j` when no entry between carries
/// the key.
pub proof fn lemma_lookup_reaches(s: Seq<(String, String)>, k: Seq<char>, i: int, j: int)
    requires
        0 <= i <= j < s.len(),
        s[j].0@ == k,
        forall|p: int| i <= p < j ==> s[p].0@ != k,
    ensures
        lookup_from(s, k, i) == Option::Some(s[j].1),
    decreases j - i,
{
    if i < j {
        lemma_lookup_reaches(s, k, i + 1, j);
    }
}

/// With unique keys, the value found under a key is the value its entry
/// carries.
pub proof fn lemma_lookup_unique(s: Seq<(String, String)>, j: int)
    requires
        keys_unique(s),
        0 <= j < s.len(),
    ensures
        lookup(s, s[j].0@) == Option::Some(s[j].1),
{
    lemma_lookup_reaches(s, s[j].0@, 0, j);
}

/// A key/value map over strings that keeps its entries in insertion order.
#[derive(Debug, PartialEq, Eq)]
pub struct StringMap {
    entries: Vec<(String, String)>,
}

impl View for StringMap {
    type V = Seq<(String, String)>;

    closed spec fn view(&self) -> Seq<(String, String)> {
        self.entries@
    }
}

impl StringMap {
    /// Keys are unique, at all times.
    #[verifier::type_invariant]
    pub open spec fn inv(&self) -> bool {
        keys_unique(self@)
    }

    /// An empty map.
    pub fn new() -> (r: StringMap)
        ensures
            r@ == Seq::<(String, String)>::empty(),
    {
        StringMap { entries: Vec::new() }
    }

    /// How many entries the map holds.
    pub fn len(&self) -> (r: usize)
        ensures
            r == self@.len(),
    {
        self.entries.len()
    }

    /// Whether the map holds no entry.
    pub fn is_empty(&self) -> (r: bool)
        ensures
            r == (self@.len() == 0),
    {
        self.entries.is_empty()
    }

    /// Read access to the entries, in insertion order.
    pub fn entries(&self) -> (r: &Vec<(String, String)>)
        ensures
            r@ == self@,
    {
        &self.entries
    }

    /// The value stored under the key, if any.
    pub fn get(&self, k: &str) -> (r: Option<&String>)
        ensures
            match r {
                Option::Some(v) => lookup(self@, k@) == Option::Some(*v),
                Option::None => lookup(self@, k@) is None,
            },
    {
        let n = self.entries.len();
        let mut i: usize = 0;
        while i < n
            invariant
                i <= n,
                n == self@.len(),
                self@ == self.entries@,
                lookup(self@, k@) == lookup_from(self@, k@, i as int),
            decreases n - i,
        {
            if eq_str(self.entries[i].0.as_str(), k) {
                return Option::Some(&self.entries[i].1);
            }
            i = i + 1;
        }
        Option::None
    }

    /// Whether some entry carries the key.
    pub fn contains_key(&self, k: &str) -> (r: bool)
        ensures
            r == has_key(self@, k@),
    {
        match self.get(k) {
            Option::Some(_) => {
                proof {
                    lemma_lookup_from_some(self@, k@, 0);
                }
                true
            },
            Option::None => {
                proof {
                    if has_key(self@, k@) {
                        lemma_lookup_from_finds(self@, k@, 0);
                    }
                }
                false
            },
        }
    }

    /// Store a value under a key: an existing entry keeps its place and takes
    /// the new value; a new key is appended at the end.
    pub fn insert(&mut self, k: String, v: String)
        ensures
            !has_key(old(self)@, k@) ==> final(self)@ == old(self)@.push((k, v)),
            has_key(old(self)@, k@) ==> final(self)@ == old(self)@.update(
                key_index(old(self)@, k@),
                (old(self)@[key_index(old(self)@, k@)].0, v),
            ),
    {
        proof {
            use_type_invariant(&*self);
        }
        let ghost old_view = self@;
        let mut entries: Vec<(String, String)> = Vec::new();
        core::mem::swap(&mut entries, &mut self.entries);
        let n = entries.len();
        let mut i: usize = 0;
        while i < n
            invariant
                i <= n,
                n == entries@.len(),
                entries@ == old_view,
                old_view == old(self)@,
                keys_unique(old_view),
                forall|j: int| 0 <= j < i ==> entries@[j].0@ != k@,
            decreases n - i,
        {
            if eq_str(entries[i].0.as_str(), k.as_str()) {
                let key_copy = entries[i].0.clone();
                proof {
                    assert(entries@[i as int].0@ == k@);
                    assert(has_key(old_view, k@));
                    let w = key_index(old_view, k@);
                    assert(0 <= w < old_view.len() && old_view[w].0@ == k@);
                    assert(w == i as int);
                }
                entries.set(i, (key_copy, v));
                proof {
                    assert(keys_unique(entries@)) by {
                        assert(forall|p: int|
                            0 <= p < entries@.len() ==> entries@[p].0@ == old_view[p].0@);
                    }
                }
                self.entries = entries;
                return ;
            }
            i = i + 1;
        }
        proof {
            assert(!has_key(old_view, k@));
        }
        entries.push((k, v));
        proof {
            assert(keys_unique(entries@)) by {
                assert(forall|p: int| 0 <= p < old_view.len() ==> entries@[p] == old_view[p]);
            }
        }
        self.entries = entries;
    }

    /// Drop the entry carrying the key, if any; other entries keep their order.
    pub fn remove(&mut self, k: &str)
        ensures
            !has_key(old(self)@, k@) ==> final(self)@ == old(self)@,
            has_key(old(self)@, k@) ==> final(self)@ == old(self)@.remove(
                key_index(old(self)@, k@),
            ),
    {
        proof {
            use_type_invariant(&*self);
        }
        let ghost old_view = self@;
        let mut entries: Vec<(String, String)> = Vec::new();
        core::mem::swap(&mut entries, &mut self.entries);
        let n = entries.len();
        let mut i: usize = 0;
        while i < n
            invariant
                i <= n,
                n == entries@.len(),
                entries@ == old_view,
                old_view == old(self)@,
                keys_unique(old_view),
                forall|j: int| 0 <= j < i ==> entries@[j].0@ != k@,
            decreases n - i,
        {
            if eq_str(entries[i].0.as_str(), k) {
                proof {
                    assert(entries@[i as int].0@ == k@);
                    assert(has_key(old_view, k@));
                    let w = key_index(old_view, k@);
                    assert(0 <= w < old_view.len() && old_view[w].0@ == k@);
                    assert(w == i as int);
                }
                entries.remove(i);
                proof {
                    assert(keys_unique(entries@)) by {
                        assert(forall|p: int|
                            0 <= p < entries@.len() ==> entries@[p] == (if p < i {
                                old_view[p]
                            } else {
                                old_view[p + 1]
                            }));
                    }
                }
                self.entries = entries;
                return ;
            }
            i = i + 1;
        }
        proof {
            assert(!has_key(old_view, k@));
        }
        self.entries = entries;
    }

    /// The entries, in insertion order, giving the map up.
    pub fn into_entries(self) -> (r: Vec<(String, String)>)
        ensures
            r@ == self@,
    {
        self.entries
    }

    /// A copy holding the same entries in the same order.
    pub fn duplicate(&self) -> (r: StringMap)
        ensures
            r@ == self@,
    {
        let n = self.entries.len();
        let mut out: Vec<(String, String)> = Vec::new();
        let mut i: usize = 0;
        while i < n
            invariant
                i <= n,
                n == self@.len(),
                self@ == self.entries@,
                out@ == self@.subrange(0, i as int),
            decreases n - i,
        {
            let key_copy = self.entries[i].0.clone();
            let value_copy = self.entries[i].1.clone();
            out.push((key_copy, value_copy));
            i = i + 1;
            proof {
                assert(out@ =~= self@.subrange(0, i as int));
            }
        }
        proof {
            use_type_invariant(&*self);
            assert(out@ =~= self@);
        }
        StringMap { entries: out }
    }
}

/// No name occurs twice.
pub open spec fn names_unique(s: Seq<String>) -> bool {
    forall|i: int, j: int| 0 <= i < s.len() && 0 <= j < s.len() && i != j ==> s[i]@ != s[j]@
}

/// Whether some element holds the name.
pub open spec fn has_name(s: Seq<String>, k: Seq<char>) -> bool {
    exists|i: int| 0 <= i < s.len() && #[trigger] s[i]@ == k
}

/// The index of the element holding the name.
pub open spec fn name_index(s: Seq<String>, k: Seq<char>) -> int {
    choose|i: int| 0 <= i < s.len() && #[trigger] s[i]@ == k
}

/// A set of strings that keeps its elements in insertion order.
#[derive(Debug, PartialEq, Eq)]
pub struct StringSet {
    names: Vec<String>,
}

impl View for StringSet {
    type V = Seq<String>;

    closed spec fn view(&self) -> Seq<String> {
        self.names@
    }
}

impl StringSet {
    /// Names are unique, at all times.
    #[verifier::type_invariant]
    pub open spec fn inv(&self) -> bool {
        names_unique(self@)
    }

    /// An empty set.
    pub fn new() -> (r: StringSet)
        ensures
            r@ == Seq::<String>::empty(),
    {
        StringSet { names: Vec::new() }
    }

    /// How many names the set holds.
    pub fn len(&self) -> (r: usize)
        ensures
            r == self@.len(),
    {
        self.names.len()
    }

    /// Whether the set holds no name.
    pub fn is_empty(&self) -> (r: bool)
        ensures
            r == (self@.len() == 0),
    {
        self.names.is_empty()
    }

    /// Read access to the names, in insertion order.
    pub fn names(&self) -> (r: &Vec<String>)
        ensures
            r@ == self@,
    {
        &self.names
    }

    /// Whether the set holds the name.
    pub fn contains(&self, k: &str) -> (r: bool)
        ensures
            r == has_name(self@, k@),
    {
        let n = self.names.len();
        let mut i: usize = 0;
        while i < n
            invariant
                i <= n,
                n == self@.len(),
                self@ == self.names@,
                forall|j: int| 0 <= j < i ==> self@[j]@ != k@,
            decreases n - i,
        {
            if eq_str(self.names[i].as_str(), k) {
                return true;
            }
            i = i + 1;
        }
        false
    }

    /// Add a name; one already present stays where it is.
    pub fn insert(&mut self, k: String)
        ensures
            !has_name(old(self)@, k@) ==> final(self)@ == old(self)@.push(k),
            has_name(old(self)@, k@) ==> final(self)@ == old(self)@,
    {
        proof {
            use_type_invariant(&*self);
        }
        if !self.contains(k.as_str()) {
            let ghost old_view = self@;
            let mut names: Vec<String> = Vec::new();
            core::mem::swap(&mut names, &mut self.names);
            names.push(k);
            proof {
                assert(names_unique(names@)) by {
                    assert(forall|p: int| 0 <= p < old_view.len() ==> names@[p] == old_view[p]);
                }
            }
            self.names = names;
        }
    }

    /// Drop a name, if present; other names keep their order.
    pub fn remove(&mut self, k: &str)
        ensures
            !has_name(old(self)@, k@) ==> final(self)@ == old(self)@,
            has_name(old(self)@, k@) ==> final(self)@ == old(self)@.remove(
                name_index(old(self)@, k@),
            ),
    {
        proof {
            use_type_invariant(&*self);
        }
        let ghost old_view = self@;
        let mut names: Vec<String> = Vec::new();
        core::mem::swap(&mut names, &mut self.names);
        let n = names.len();
        let mut i: usize = 0;
        while i < n
            invariant
                i <= n,
                n == names@.len(),
                names@ == old_view,
                old_view == old(self)@,
                names_unique(old_view),
                forall|j: int| 0 <= j < i ==> names@[j]@ != k@,
            decreases n - i,
        {
            if eq_str(names[i].as_str(), k) {
                proof {
                    assert(names@[i as int]@ == k@);
                    assert(has_name(old_view, k@));
                    let w = name_index(old_view, k@);
                    assert(0 <= w < old_view.len() && old_view[w]@ == k@);
                    assert(w == i as int);
                }
                names.remove(i);
                proof {
                    assert(names_unique(names@)) by {
                        assert(forall|p: int|
                            0 <= p < names@.len() ==> names@[p] == (if p < i {
                                old_view[p]
                            } else {
                                old_view[p + 1]
                            }));
                    }
                }
                self.names = names;
                return ;
            }
            i = i + 1;
        }
        proof {
            assert(!has_name(old_view, k@));
        }
        self.names = names;
    }

    /// The names, in insertion order, giving the set up.
    pub fn into_names(self) -> (r: Vec<String>)
        ensures
            r@ == self@,
    {
        self.names
    }

    /// A copy holding the same names in the same order.
    pub fn duplicate(&self) -> (r: StringSet)
        ensures
            r@ == self@,
    {
        let n = self.names.len();
        let mut out: Vec<String> = Vec::new();
        let mut i: usize = 0;
        while i < n
            invariant
                i <= n,
                n == self@.len(),
                self@ == self.names@,
                out@ == self@.subrange(0, i as int),
            decreases n - i,
        {
            out.push(self.names[i].clone());
            i = i + 1;
            proof {
                assert(out@ =~= self@.subrange(0, i as int));
            }
        }
        proof {
            use_type_invariant(&*self);
            assert(out@ =~= self@);
        }
        StringSet { names: out }
    }
}

} // verus!
