//! The variables of a prompt run: an association of names to values in which
//! no name occurs twice, kept in the order in which the names first appeared.

use vstd::prelude::*;

verus! {

/// Whether some entry of `s` is named `k`.
pub open spec fn has_key<V>(s: Seq<(Seq<char>, V)>, k: Seq<char>) -> bool {
    exists|i: int| 0 <= i < s.len() && #[trigger] s[i].0 == k
}

/// The position of an entry named `k` (meaningful when `has_key(s, k)`).
pub open spec fn key_index<V>(s: Seq<(Seq<char>, V)>, k: Seq<char>) -> int {
    choose|i: int| 0 <= i < s.len() && #[trigger] s[i].0 == k
}

/// No two entries of `s` share a name.
pub open spec fn unique_keys<V>(s: Seq<(Seq<char>, V)>) -> bool {
    forall|i: int, j: int| 0 <= i < s.len() && 0 <= j < s.len() && i != j ==> #[trigger] s[i].0
        != #[trigger] s[j].0
}

/// The value stored under `k`, if any.
pub open spec fn lookup<V>(s: Seq<(Seq<char>, V)>, k: Seq<char>) -> Option<V> {
    if has_key(s, k) {
        Some(s[key_index(s, k)].1)
    } else {
        None
    }
}

/// `s` with `k` bound to `v`: an existing entry keeps its place and takes the
/// new value, a new name is added at the end.
pub open spec fn assoc_insert<V>(s: Seq<(Seq<char>, V)>, k: Seq<char>, v: V) -> Seq<(Seq<char>, V)> {
    if has_key(s, k) {
        s.update(key_index(s, k), (k, v))
    } else {
        s.push((k, v))
    }
}

/// `s` after binding, in order, each name of `t` to its value.
pub open spec fn assoc_extend<V>(s: Seq<(Seq<char>, V)>, t: Seq<(Seq<char>, V)>) -> Seq<(Seq<char>, V)>
    decreases t.len(),
{
    if t.len() == 0 {
        s
    } else {
        assoc_extend(assoc_insert(s, t[0].0, t[0].1), t.skip(1))
    }
}

/// In a table without repeated names, the entry at `i` is the one found
/// under its name.
pub proof fn lemma_lookup_at<V>(s: Seq<(Seq<char>, V)>, i: int)
    requires
        unique_keys(s),
        0 <= i < s.len(),
    ensures
        has_key(s, s[i].0),
        key_index(s, s[i].0) == i,
        lookup(s, s[i].0) == Some(s[i].1),
{
    assert(s[i].0 == s[i].0);
}

/// Binding a name keeps the table free of repeated names, makes the name
/// give the new value, and leaves every other name as it was.
pub proof fn lemma_insert<V>(s: Seq<(Seq<char>, V)>, k: Seq<char>, v: V)
    requires
        unique_keys(s),
    ensures
        unique_keys(assoc_insert(s, k, v)),
        lookup(assoc_insert(s, k, v), k) == Some(v),
        forall|k2: Seq<char>| k2 != k ==> lookup(assoc_insert(s, k, v), k2) == lookup(s, k2),
        has_key(s, k) ==> assoc_insert(s, k, v).len() == s.len(),
        !has_key(s, k) ==> assoc_insert(s, k, v).len() == s.len() + 1,
{
    let r = assoc_insert(s, k, v);
    if has_key(s, k) {
        let idx = key_index(s, k);
        assert(r[idx].0 == k);
        assert(unique_keys(r));
        lemma_lookup_at(r, idx);
        assert forall|k2: Seq<char>| k2 != k implies lookup(r, k2) == lookup(s, k2) by {
            if has_key(s, k2) {
                let j = key_index(s, k2);
                assert(j != idx);
                assert(r[j] == s[j]);
                lemma_lookup_at(r, j);
            } else {
                if has_key(r, k2) {
                    let j = key_index(r, k2);
                    assert(s[j].0 == k2);
                }
            }
        }
    } else {
        let n = s.len() as int;
        assert(r[n].0 == k);
        assert forall|i: int, j: int|
            0 <= i < r.len() && 0 <= j < r.len() && i != j implies #[trigger] r[i].0
            != #[trigger] r[j].0 by {
            if i < n && j < n {
                assert(r[i] == s[i] && r[j] == s[j]);
            } else if i < n {
                assert(r[i] == s[i]);
            } else if j < n {
                assert(r[j] == s[j]);
            }
        }
        lemma_lookup_at(r, n);
        assert forall|k2: Seq<char>| k2 != k implies lookup(r, k2) == lookup(s, k2) by {
            if has_key(s, k2) {
                let j = key_index(s, k2);
                assert(r[j] == s[j]);
                lemma_lookup_at(r, j);
            } else {
                if has_key(r, k2) {
                    let j = key_index(r, k2);
                    assert(j != n);
                    assert(s[j].0 == k2);
                }
            }
        }
    }
}

/// Extending keeps the table free of repeated names.
pub proof fn lemma_extend_unique<V>(s: Seq<(Seq<char>, V)>, t: Seq<(Seq<char>, V)>)
    requires
        unique_keys(s),
    ensures
        unique_keys(assoc_extend(s, t)),
    decreases t.len(),
{
    if t.len() > 0 {
        lemma_insert(s, t[0].0, t[0].1);
        lemma_extend_unique(assoc_insert(s, t[0].0, t[0].1), t.skip(1));
    }
}

/// A table of named text values.
#[derive(Debug)]
pub struct Context {
    entries: Vec<(String, String)>,
}

impl View for Context {
    type V = Seq<(Seq<char>, Seq<char>)>;

    closed spec fn view(&self) -> Seq<(Seq<char>, Seq<char>)> {
        self.entries@.map_values(|e: (String, String)| (e.0@, e.1@))
    }
}

impl Context {
    /// No name occurs twice.
    #[verifier::type_invariant]
    pub open spec fn keys_unique(self) -> bool {
        unique_keys(self@)
    }

    /// An empty table.
    pub fn new() -> (c: Context)
        ensures
            c@ == Seq::<(Seq<char>, Seq<char>)>::empty(),
            unique_keys(c@),
    {
        let c = Context { entries: Vec::new() };
        assert(c@ =~= Seq::<(Seq<char>, Seq<char>)>::empty());
        c
    }

    /// The number of names.
    pub fn len(&self) -> (n: usize)
        ensures
            n == self@.len(),
    {
        self.entries.len()
    }

    /// Whether no name is bound.
    pub fn is_empty(&self) -> (b: bool)
        ensures
            b == (self@.len() == 0),
    {
        self.entries.len() == 0
    }

    /// The name and value of the entry at position `i`.
    pub fn entry(&self, i: usize) -> (r: (&String, &String))
        requires
            i < self@.len(),
        ensures
            r.0@ == self@[i as int].0,
            r.1@ == self@[i as int].1,
    {
        let e = &self.entries[i];
        (&e.0, &e.1)
    }

    /// The position of the entry named `key`, if there is one.
    pub fn position(&self, key: &String) -> (r: Option<usize>)
        ensures
            r is None <==> !has_key(self@, key@),
            r matches Some(i) ==> i < self@.len() && i == key_index(self@, key@) && self@[i as int].0 == key@,
    {
        proof {
            use_type_invariant(self);
        }
        let mut i: usize = 0;
        while i < self.entries.len()
            invariant
                i <= self.entries@.len(),
                unique_keys(self@),
                self@.len() == self.entries@.len(),
                forall|j: int| 0 <= j < i ==> #[trigger] self@[j].0 != key@,
            decreases self.entries@.len() - i,
        {
            if self.entries[i].0 == *key {
                proof {
                    lemma_lookup_at(self@, i as int);
                }
                return Some(i);
            }
            i = i + 1;
        }
        proof {
            if has_key(self@, key@) {
                let j = key_index(self@, key@);
                assert(self@[j].0 == key@);
            }
        }
        None
    }

    /// The value bound to `key`, if any.
    pub fn get(&self, key: &String) -> (r: Option<&String>)
        ensures
            r is None <==> lookup(self@, key@) is None,
            r matches Some(v) ==> lookup(self@, key@) == Some(v@),
    {
        proof {
            use_type_invariant(self);
        }
        match self.position(key) {
            Some(i) => Some(&self.entries[i].1),
            None => None,
        }
    }

    /// Binds `key` to `value`, replacing an earlier value of the same name.
    pub fn insert(&mut self, key: String, value: String)
        ensures
            final(self)@ == assoc_insert(old(self)@, key@, value@),
            unique_keys(final(self)@),
    {
        proof {
            use_type_invariant(&*self);
        }
        proof {
            lemma_insert(self@, key@, value@);
        }
        let ghost k = key@;
        let ghost v = value@;
        let found = self.position(&key);
        let mut entries: Vec<(String, String)> = Vec::new();
        std::mem::swap(&mut entries, &mut self.entries);
        match found {
            Some(i) => {
                entries.set(i, (key, value));
            },
            None => {
                entries.push((key, value));
            },
        }
        proof {
            let nv = entries@.map_values(|e: (String, String)| (e.0@, e.1@));
            match found {
                Some(i) => assert(nv =~= old(self)@.update(i as int, (k, v))),
                None => assert(nv =~= old(self)@.push((k, v))),
            }
        }
        self.entries = entries;
    }

    /// Binds, in order, every name of `other` to its value.
    pub fn extend(&mut self, other: Context)
        ensures
            final(self)@ == assoc_extend(old(self)@, other@),
            unique_keys(final(self)@),
    {
        proof {
            use_type_invariant(&*self);
        }
        let ghost t = other@;
        let mut rest = other.entries;
        let mut i: usize = 0;
        let ghost start = self@;
        assert(t.skip(0) =~= t);
        while i < rest.len()
            invariant
                i <= rest@.len(),
                t == rest@.map_values(|e: (String, String)| (e.0@, e.1@)),
                unique_keys(self@),
                assoc_extend(start, t) == assoc_extend(self@, t.skip(i as int)),
            decreases rest@.len() - i,
        {
            let k = rest[i].0.clone();
            let v = rest[i].1.clone();
            assert(t.skip(i as int)[0] == t[i as int]);
            assert(t.skip(i as int).skip(1) =~= t.skip(i + 1));
            self.insert(k, v);
            i = i + 1;
        }
        assert(t.skip(i as int) =~= Seq::<(Seq<char>, Seq<char>)>::empty());
    }

    /// The entries, in order, as pairs of name and value.
    pub fn pairs(&self) -> (r: Vec<(String, String)>)
        ensures
            r@.map_values(|e: (String, String)| (e.0@, e.1@)) == self@,
    {
        let c = self.duplicate();
        c.entries
    }

    /// A copy of the table.
    pub fn duplicate(&self) -> (c: Context)
        ensures
            c@ == self@,
    {
        proof {
            use_type_invariant(self);
        }
        let mut entries: Vec<(String, String)> = Vec::new();
        let mut i: usize = 0;
        while i < self.entries.len()
            invariant
                i <= self.entries@.len(),
                entries@.len() == i,
                forall|j: int| 0 <= j < i ==> (#[trigger] entries@[j]).0@ == self.entries@[j].0@
                    && entries@[j].1@ == self.entries@[j].1@,
            decreases self.entries@.len() - i,
        {
            let k = self.entries[i].0.clone();
            let v = self.entries[i].1.clone();
            entries.push((k, v));
            i = i + 1;
        }
        assert(entries@.map_values(|e: (String, String)| (e.0@, e.1@)) =~= self@);
        let c = Context { entries };
        c
    }
}

/// A table of named step outcomes.
#[derive(Debug)]
pub struct StepResults {
    entries: Vec<(String, bool)>,
}

impl View for StepResults {
    type V = Seq<(Seq<char>, bool)>;

    closed spec fn view(&self) -> Seq<(Seq<char>, bool)> {
        self.entries@.map_values(|e: (String, bool)| (e.0@, e.1))
    }
}

impl StepResults {
    /// No name occurs twice.
    #[verifier::type_invariant]
    pub open spec fn keys_unique(self) -> bool {
        unique_keys(self@)
    }

    /// No recorded outcome.
    pub fn new() -> (r: StepResults)
        ensures
            r@ == Seq::<(Seq<char>, bool)>::empty(),
            unique_keys(r@),
    {
        let r = StepResults { entries: Vec::new() };
        assert(r@ =~= Seq::<(Seq<char>, bool)>::empty());
        r
    }

    /// The outcome recorded under `name`, if any.
    pub fn get(&self, name: &String) -> (r: Option<bool>)
        ensures
            r == lookup(self@, name@),
    {
        proof {
            use_type_invariant(self);
        }
        let mut i: usize = 0;
        while i < self.entries.len()
            invariant
                i <= self.entries@.len(),
                unique_keys(self@),
                self@.len() == self.entries@.len(),
                forall|j: int| 0 <= j < i ==> #[trigger] self@[j].0 != name@,
            decreases self.entries@.len() - i,
        {
            if self.entries[i].0 == *name {
                proof {
                    lemma_lookup_at(self@, i as int);
                }
                return Some(self.entries[i].1);
            }
            i = i + 1;
        }
        proof {
            if has_key(self@, name@) {
                let j = key_index(self@, name@);
                assert(self@[j].0 == name@);
            }
        }
        None
    }

    /// The position of the outcome recorded under `name`, if any.
    pub fn position(&self, name: &String) -> (r: Option<usize>)
        ensures
            r is None <==> !has_key(self@, name@),
            r matches Some(i) ==> i < self@.len() && i == key_index(self@, name@) && self@[i as int].0 == name@,
    {
        proof {
            use_type_invariant(self);
        }
        let mut i: usize = 0;
        while i < self.entries.len()
            invariant
                i <= self.entries@.len(),
                unique_keys(self@),
                self@.len() == self.entries@.len(),
                forall|j: int| 0 <= j < i ==> #[trigger] self@[j].0 != name@,
            decreases self.entries@.len() - i,
        {
            if self.entries[i].0 == *name {
                proof {
                    lemma_lookup_at(self@, i as int);
                }
                return Some(i);
            }
            i = i + 1;
        }
        proof {
            if has_key(self@, name@) {
                let j = key_index(self@, name@);
                assert(self@[j].0 == name@);
            }
        }
        None
    }

    /// Records `value` under `name`, replacing an earlier outcome of that name.
    pub fn insert(&mut self, name: String, value: bool)
        ensures
            final(self)@ == assoc_insert(old(self)@, name@, value),
            unique_keys(final(self)@),
    {
        proof {
            use_type_invariant(&*self);
            lemma_insert(self@, name@, value);
        }
        let found = self.position(&name);
        let ghost k = name@;
        let mut entries: Vec<(String, bool)> = Vec::new();
        std::mem::swap(&mut entries, &mut self.entries);
        match found {
            Some(i) => {
                entries.set(i, (name, value));
            },
            None => {
                entries.push((name, value));
            },
        }
        proof {
            let nv = entries@.map_values(|e: (String, bool)| (e.0@, e.1));
            match found {
                Some(i) => assert(nv =~= old(self)@.update(i as int, (k, value))),
                None => assert(nv =~= old(self)@.push((k, value))),
            }
        }
        self.entries = entries;
    }
}

} // verus!
