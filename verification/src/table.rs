//! Tables of named entries, in the order in which the names were first
//! registered. A name occurs at most once.

use vstd::prelude::*;

verus! {

/// The mathematical content of a [`Table`]: the names, and beside each name
/// its value.
pub struct Entries<V> {
    pub names: Seq<Seq<char>>,
    pub values: Seq<V>,
}

impl<V> Entries<V> {
    /// Every name has a value, and no name occurs twice.
    pub open spec fn wf(self) -> bool {
        &&& self.names.len() == self.values.len()
        &&& self.names.no_duplicates()
    }

    /// No entries.
    pub open spec fn empty() -> Entries<V> {
        Entries { names: Seq::empty(), values: Seq::empty() }
    }

    /// The number of entries.
    pub open spec fn len(self) -> nat {
        self.names.len()
    }

    /// Whether a value is registered under `name`.
    pub open spec fn has(self, name: Seq<char>) -> bool {
        self.names.contains(name)
    }

    /// The place of `name` among the names, where it is one of them.
    pub open spec fn index_of(self, name: Seq<char>) -> int {
        self.names.index_of(name)
    }

    /// The value registered under `name`, where there is one.
    pub open spec fn at(self, name: Seq<char>) -> V {
        self.values[self.index_of(name)]
    }

    /// The value registered under `name`, if there is one.
    pub open spec fn lookup(self, name: Seq<char>) -> Option<V> {
        if self.has(name) {
            Some(self.at(name))
        } else {
            None
        }
    }

    /// The entries after `value` has been registered under `name`: a name
    /// that is already there keeps its place and gets the new value, a new
    /// name goes to the end.
    pub open spec fn inserted(self, name: Seq<char>, value: V) -> Entries<V> {
        if self.has(name) {
            Entries { names: self.names, values: self.values.update(self.index_of(name), value) }
        } else {
            Entries { names: self.names.push(name), values: self.values.push(value) }
        }
    }

    /// The entries without `name`; the others keep their order.
    pub open spec fn removed(self, name: Seq<char>) -> Entries<V> {
        if self.has(name) {
            Entries {
                names: self.names.remove(self.index_of(name)),
                values: self.values.remove(self.index_of(name)),
            }
        } else {
            self
        }
    }

    /// The entries as a mapping from names to values, without their order.
    pub open spec fn as_map(self) -> Map<Seq<char>, V> {
        Map::new(|name: Seq<char>| self.has(name), |name: Seq<char>| self.at(name))
    }

    /// The same names, with `f` applied to each value.
    pub open spec fn mapped<W>(self, f: spec_fn(V) -> W) -> Entries<W> {
        Entries { names: self.names, values: self.values.map_values(f) }
    }

    /// The entries with the value at place `i` replaced.
    pub open spec fn updated(self, i: int, value: V) -> Entries<V> {
        Entries { names: self.names, values: self.values.update(i, value) }
    }

    /// A name that is present has exactly one place.
    pub proof fn lemma_index_of(self, name: Seq<char>)
        requires
            self.wf(),
            self.has(name),
        ensures
            0 <= self.index_of(name) < self.len(),
            self.names[self.index_of(name)] == name,
            forall|i: int|
                0 <= i < self.len() && self.names[i] == name ==> i == self.index_of(name),
    {
    }

    /// The name at place `i` is present, and `i` is its place.
    pub proof fn lemma_place(self, i: int)
        requires
            self.wf(),
            0 <= i < self.len(),
        ensures
            self.has(self.names[i]),
            self.index_of(self.names[i]) == i,
            self.at(self.names[i]) == self.values[i],
    {
        assert(self.names.contains(self.names[i]));
    }

    /// Registering a value makes it the one found under its name and leaves
    /// every other name as it was.
    pub proof fn lemma_inserted(self, name: Seq<char>, value: V)
        requires
            self.wf(),
        ensures
            self.inserted(name, value).wf(),
            self.inserted(name, value).lookup(name) == Some(value),
            forall|other: Seq<char>|
                other != name ==> self.inserted(name, value).lookup(other) == self.lookup(other),
    {
        let after = self.inserted(name, value);
        if self.has(name) {
            self.lemma_index_of(name);
            assert(after.names.contains(name));
            assert forall|other: Seq<char>| other != name implies after.lookup(other)
                == self.lookup(other) by {
                if self.has(other) {
                    self.lemma_index_of(other);
                }
            }
        } else {
            let n = self.names.len() as int;
            assert(after.names[n] == name);
            assert(after.names.contains(name));
            assert forall|i: int, j: int|
                0 <= i < after.names.len() && 0 <= j < after.names.len() && i != j implies
                after.names[i] != after.names[j] by {
                if i < n {
                    assert(self.names.contains(self.names[i]));
                }
                if j < n {
                    assert(self.names.contains(self.names[j]));
                }
            }
            after.lemma_index_of(name);
            assert forall|other: Seq<char>| other != name implies after.lookup(other)
                == self.lookup(other) by {
                if self.has(other) {
                    self.lemma_index_of(other);
                    let i = self.index_of(other);
                    assert(after.names[i] == other);
                    assert(after.names.contains(other));
                    after.lemma_index_of(other);
                } else if after.has(other) {
                    after.lemma_index_of(other);
                    let i = after.index_of(other);
                    assert(i < n);
                    assert(self.names[i] == other);
                    assert(self.names.contains(other));
                }
            }
        }
    }

    /// Removing a name makes it absent and leaves every other name as it
    /// was.
    pub proof fn lemma_removed(self, name: Seq<char>)
        requires
            self.wf(),
        ensures
            self.removed(name).wf(),
            self.removed(name).lookup(name) == None::<V>,
            forall|other: Seq<char>|
                other != name ==> self.removed(name).lookup(other) == self.lookup(other),
    {
        let after = self.removed(name);
        if self.has(name) {
            self.lemma_index_of(name);
            let k = self.index_of(name);
            let from = |i: int| if i < k { i } else { i + 1 };
            assert forall|i: int| 0 <= i < after.names.len() implies after.names[i]
                == self.names[from(i)] && after.values[i] == self.values[from(i)] by {}
            assert(!after.names.contains(name));
            assert forall|other: Seq<char>| other != name implies after.lookup(other)
                == self.lookup(other) by {
                if self.has(other) {
                    self.lemma_index_of(other);
                    let i = self.index_of(other);
                    let j = if i < k {
                        i
                    } else {
                        i - 1
                    };
                    assert(after.names[j] == other);
                    assert(after.names.contains(other));
                    after.lemma_index_of(other);
                } else if after.has(other) {
                    after.lemma_index_of(other);
                    let j = after.index_of(other);
                    let i = if j < k {
                        j
                    } else {
                        j + 1
                    };
                    assert(self.names[i] == other);
                    assert(self.names.contains(other));
                }
            }
        }
    }

    /// As mappings, registering is insertion and removing is removal.
    pub proof fn lemma_as_map(self, name: Seq<char>, value: V)
        requires
            self.wf(),
        ensures
            Self::empty().as_map() == Map::<Seq<char>, V>::empty(),
            self.inserted(name, value).as_map() == self.as_map().insert(name, value),
            self.removed(name).as_map() == self.as_map().remove(name),
    {
        self.lemma_inserted(name, value);
        self.lemma_removed(name);
        let put = self.inserted(name, value);
        let cut = self.removed(name);
        assert forall|k: Seq<char>| k != name implies #[trigger] put.has(k) == self.has(k) && (
            self.has(k) ==> put.at(k) == self.at(k)
        ) by {
            assert(put.lookup(k) == self.lookup(k));
        }
        assert forall|k: Seq<char>| k != name implies #[trigger] cut.has(k) == self.has(k) && (
            self.has(k) ==> cut.at(k) == self.at(k)
        ) by {
            assert(cut.lookup(k) == self.lookup(k));
        }
        assert(Self::empty().as_map() =~= Map::<Seq<char>, V>::empty());
        assert(put.as_map() =~= self.as_map().insert(name, value));
        assert(cut.as_map() =~= self.as_map().remove(name));
    }

    /// Mapping the values commutes with registering one.
    pub proof fn lemma_mapped_inserted<W>(self, f: spec_fn(V) -> W, name: Seq<char>, value: V)
        requires
            self.wf(),
        ensures
            self.inserted(name, value).mapped(f) == self.mapped(f).inserted(name, f(value)),
    {
        if self.has(name) {
            self.lemma_index_of(name);
        }
        assert(self.inserted(name, value).mapped(f).values =~= self.mapped(f).inserted(
            name,
            f(value),
        ).values);
    }

    /// Mapping the values commutes with removing a name.
    pub proof fn lemma_mapped_removed<W>(self, f: spec_fn(V) -> W, name: Seq<char>)
        requires
            self.wf(),
        ensures
            self.removed(name).mapped(f) == self.mapped(f).removed(name),
    {
        if self.has(name) {
            self.lemma_index_of(name);
        }
        assert(self.removed(name).mapped(f).values =~= self.mapped(f).removed(name).values);
    }
}

/// The names that a list of keys holds.
pub open spec fn names_of(keys: Seq<String>) -> Seq<Seq<char>> {
    keys.map_values(|k: String| k@)
}

/// The first place at which `keys` holds `key`, if it holds it at all.
pub fn position_of(keys: &Vec<String>, key: &str) -> (r: Option<usize>)
    ensures
        r is Some <==> names_of(keys@).contains(key@),
        r is Some ==> r->0 < keys.len() && names_of(keys@)[r->0 as int] == key@,
        r is Some ==> forall|j: int| 0 <= j < r->0 ==> names_of(keys@)[j] != key@,
{
    let wanted: String = key.to_owned();
    let n: usize = keys.len();
    let mut i: usize = 0;
    while i < n
        invariant
            n == keys.len(),
            i <= n,
            wanted@ == key@,
            forall|j: int| 0 <= j < i ==> names_of(keys@)[j] != key@,
        decreases n - i,
    {
        if keys[i] == wanted {
            assert(names_of(keys@)[i as int] == key@);
            return Some(i);
        }
        i = i + 1;
    }
    None
}

/// A table from names to values.
#[derive(Clone, Debug)]
pub struct Table<V> {
    keys: Vec<String>,
    vals: Vec<V>,
}

impl<V> View for Table<V> {
    type V = Entries<V>;

    closed spec fn view(&self) -> Entries<V> {
        Entries { names: names_of(self.keys@), values: self.vals@ }
    }
}

impl<V> Table<V> {
    /// Every name has a value, and no name occurs twice.
    pub open spec fn wf(&self) -> bool {
        self@.wf()
    }

    /// The empty table.
    pub fn new() -> (t: Table<V>)
        ensures
            t.wf(),
            t@ == Entries::<V>::empty(),
    {
        let t = Table { keys: Vec::new(), vals: Vec::new() };
        assert(t@.names =~= Seq::<Seq<char>>::empty());
        t
    }

    /// The number of entries.
    pub fn len(&self) -> (n: usize)
        requires
            self.wf(),
        ensures
            n == self@.len(),
    {
        self.keys.len()
    }

    /// The place of `key` among the names, if it is one of them.
    pub fn position(&self, key: &str) -> (r: Option<usize>)
        requires
            self.wf(),
        ensures
            r is Some <==> self@.has(key@),
            r is Some ==> r->0 == self@.index_of(key@),
    {
        let r = position_of(&self.keys, key);
        proof {
            if r is Some {
                self@.lemma_index_of(key@);
            }
        }
        r
    }

    /// Whether `key` is one of the names.
    pub fn contains_key(&self, key: &str) -> (b: bool)
        requires
            self.wf(),
        ensures
            b == self@.has(key@),
    {
        self.position(key).is_some()
    }

    /// Registers `value` under `key`. A value that was there is replaced.
    pub fn insert(&mut self, key: String, value: V)
        requires
            old(self).wf(),
        ensures
            final(self).wf(),
            final(self)@ == old(self)@.inserted(key@, value),
    {
        proof {
            self@.lemma_inserted(key@, value);
        }
        match self.position(key.as_str()) {
            Some(i) => {
                self.vals.set(i, value);
            },
            None => {
                self.keys.push(key);
                self.vals.push(value);
                assert(self@.names =~= old(self)@.names.push(key@));
            },
        }
    }

    /// Removes `key` and hands back the value that was registered under it.
    pub fn remove(&mut self, key: &str) -> (r: Option<V>)
        requires
            old(self).wf(),
        ensures
            final(self).wf(),
            final(self)@ == old(self)@.removed(key@),
            r == old(self)@.lookup(key@),
    {
        proof {
            self@.lemma_removed(key@);
        }
        match self.position(key) {
            Some(i) => {
                self.keys.remove(i);
                let v = self.vals.remove(i);
                assert(self@.names =~= old(self)@.names.remove(i as int));
                Some(v)
            },
            None => None,
        }
    }

    /// The value registered under `key`.
    pub fn get(&self, key: &str) -> (r: Option<&V>)
        requires
            self.wf(),
        ensures
            r is Some <==> self@.has(key@),
            r is Some ==> *r->0 == self@.at(key@),
    {
        match self.position(key) {
            Some(i) => Some(&self.vals[i]),
            None => None,
        }
    }

    /// The value registered under `key`, for the caller to change in place.
    pub fn get_mut(&mut self, key: &str) -> (r: Option<&mut V>)
        requires
            old(self).wf(),
        ensures
            r is Some <==> old(self)@.has(key@),
            match r {
                Some(v) => *v == old(self)@.at(key@) && final(self)@ == old(self)@.updated(
                    old(self)@.index_of(key@),
                    *final(v),
                ),
                None => final(self)@ == old(self)@,
            },
    {
        match self.position(key) {
            Some(i) => Some(&mut self.vals[i]),
            None => None,
        }
    }

    /// The name at place `i`.
    pub fn name_at(&self, i: usize) -> (r: &String)
        requires
            self.wf(),
            i < self@.len(),
        ensures
            r@ == self@.names[i as int],
    {
        &self.keys[i]
    }

    /// The value at place `i`.
    pub fn value_at(&self, i: usize) -> (r: &V)
        requires
            self.wf(),
            i < self@.len(),
        ensures
            *r == self@.values[i as int],
    {
        &self.vals[i]
    }
}

} // verus!
