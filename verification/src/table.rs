//! A table of values by name.
use vstd::prelude::*;

use crate::text::same;

verus! {

/// Values by name, no two of them with the same name, in the order in which the names came.
pub struct Table<V> {
    entries: Vec<(String, V)>,
}

spec fn names_differ<V>(entries: Seq<(String, V)>) -> bool {
    forall|i: int, j: int|
        0 <= i < j < entries.len() ==> (#[trigger] entries[i]).0@ != (#[trigger] entries[j]).0@
}

spec fn named<V>(entries: Seq<(String, V)>, i: int, name: Seq<char>) -> bool {
    0 <= i < entries.len() && entries[i].0@ == name
}

spec fn has_name<V>(entries: Seq<(String, V)>, name: Seq<char>) -> bool {
    exists|i: int| #[trigger] named(entries, i, name)
}

spec fn values_of<V: View>(entries: Seq<(String, V)>) -> Map<Seq<char>, V::V> {
    Map::new(
        |name: Seq<char>| has_name(entries, name),
        |name: Seq<char>| entries[choose|i: int| #[trigger] named(entries, i, name)].1@,
    )
}

impl<V> Table<V> {
    #[verifier::type_invariant]
    spec fn names_once(self) -> bool {
        names_differ(self.entries@)
    }
}

impl<V: View> View for Table<V> {
    type V = Map<Seq<char>, V::V>;

    closed spec fn view(&self) -> Map<Seq<char>, V::V> {
        values_of(self.entries@)
    }
}

/// The value that a reference leads to.
pub open spec fn opt_view<V: View>(value: Option<&V>) -> Option<V::V> {
    match value {
        Some(value) => Some(value@),
        None => None,
    }
}

/// The value under a name.
pub open spec fn lookup<T>(values: Map<Seq<char>, T>, name: Seq<char>) -> Option<T> {
    if values.contains_key(name) {
        Some(values[name])
    } else {
        None
    }
}

/// The values of a table, in its order.
pub open spec fn is_listing<T>(values: Map<Seq<char>, T>, names: Seq<Seq<char>>, rows: Seq<T>) -> bool {
    &&& names.no_duplicates()
    &&& names.len() == rows.len()
    &&& forall|name: Seq<char>| #[trigger] values.contains_key(name) <==> names.contains(name)
    &&& forall|i: int| 0 <= i < names.len() ==> values[#[trigger] names[i]] == rows[i]
}

proof fn lemma_row<V: View>(entries: Seq<(String, V)>, i: int)
    requires
        names_differ(entries),
        0 <= i < entries.len(),
    ensures
        values_of(entries).contains_key(entries[i].0@),
        values_of(entries)[entries[i].0@] == entries[i].1@,
{
    let name = entries[i].0@;
    assert(named(entries, i, name));
    let n = choose|n: int| #[trigger] named(entries, n, name);
    assert(named(entries, n, name));
    assert(n == i);
}

proof fn lemma_absent<V: View>(entries: Seq<(String, V)>, name: Seq<char>)
    requires
        forall|i: int| 0 <= i < entries.len() ==> (#[trigger] entries[i]).0@ != name,
    ensures
        !values_of(entries).contains_key(name),
{
    if has_name(entries, name) {
        let n = choose|n: int| #[trigger] named(entries, n, name);
        assert(entries[n].0@ != name);
    }
}

/// A value put at `i`, in the place of one with that name or at the end.
proof fn lemma_insert<V: View>(a: Seq<(String, V)>, b: Seq<(String, V)>, i: int, name: Seq<char>, value: V::V)
    requires
        names_differ(a),
        0 <= i < b.len(),
        b[i].0@ == name,
        b[i].1@ == value,
        forall|j: int| 0 <= j < a.len() && j != i ==> #[trigger] b[j] == a[j],
        (a.len() == b.len() && a[i].0@ == name) || (b.len() == a.len() + 1 && i == a.len() && (forall|
            j: int,
        |
            0 <= j < a.len() ==> (#[trigger] a[j]).0@ != name)),
    ensures
        names_differ(b),
        values_of(b) == values_of(a).insert(name, value),
{
    assert forall|j: int, k: int| 0 <= j < k < b.len() implies (#[trigger] b[j]).0@ != (#[trigger] b[k]).0@ by {
        if j != i {
            assert(b[j] == a[j]);
        }
        if k != i {
            assert(b[k] == a[k]);
        }
        if a.len() == b.len() {
            assert(a[j].0@ != a[k].0@);
        }
    }
    let x = values_of(b);
    let y = values_of(a).insert(name, value);
    lemma_row(b, i);
    assert forall|n: Seq<char>| #[trigger] x.contains_key(n) implies y.contains_key(n) && x[n] == y[n] by {
        let j = choose|j: int| #[trigger] named(b, j, n);
        assert(named(b, j, n));
        lemma_row(b, j);
        if j != i {
            assert(b[j] == a[j]);
            lemma_row(a, j);
        }
    }
    assert forall|n: Seq<char>| #[trigger] y.contains_key(n) implies x.contains_key(n) by {
        if n != name {
            let j = choose|j: int| #[trigger] named(a, j, n);
            assert(named(a, j, n));
            assert(b[j] == a[j]);
            lemma_row(b, j);
        }
    }
    assert(x =~= y);
}

proof fn lemma_remove<V: View>(a: Seq<(String, V)>, i: int)
    requires
        names_differ(a),
        0 <= i < a.len(),
    ensures
        names_differ(a.remove(i)),
        values_of(a.remove(i)) == values_of(a).remove(a[i].0@),
{
    let b = a.remove(i);
    let name = a[i].0@;
    assert forall|j: int, k: int| 0 <= j < k < b.len() implies (#[trigger] b[j]).0@ != (#[trigger] b[k]).0@ by {
        let j0 = if j < i {
            j
        } else {
            j + 1
        };
        let k0 = if k < i {
            k
        } else {
            k + 1
        };
        assert(b[j] == a[j0] && b[k] == a[k0]);
    }
    let x = values_of(b);
    let y = values_of(a).remove(name);
    assert forall|n: Seq<char>| #[trigger] x.contains_key(n) implies y.contains_key(n) && x[n] == y[n] by {
        let j = choose|j: int| #[trigger] named(b, j, n);
        assert(named(b, j, n));
        lemma_row(b, j);
        let j0 = if j < i {
            j
        } else {
            j + 1
        };
        assert(b[j] == a[j0]);
        lemma_row(a, j0);
        assert(a[j0].0@ != a[i].0@);
    }
    assert forall|n: Seq<char>| #[trigger] y.contains_key(n) implies x.contains_key(n) by {
        let j = choose|j: int| #[trigger] named(a, j, n);
        assert(named(a, j, n));
        assert(j != i);
        let j1 = if j < i {
            j
        } else {
            j - 1
        };
        assert(b[j1] == a[j]);
        lemma_row(b, j1);
    }
    assert(x =~= y);
}

impl<V: View> Table<V> {
    /// The names, in the order in which they came.
    pub closed spec fn names(self) -> Seq<Seq<char>> {
        self.entries@.map_values(|entry: (String, V)| entry.0@)
    }

    /// The values, in the order in which their names came.
    pub closed spec fn rows(self) -> Seq<V::V> {
        self.entries@.map_values(|entry: (String, V)| entry.1@)
    }

    pub fn new() -> (r: Table<V>)
        ensures
            r@ == Map::<Seq<char>, V::V>::empty(),
            r.rows() == Seq::<V::V>::empty(),
    {
        let entries: Vec<(String, V)> = Vec::new();
        let r = Table { entries };
        proof {
            assert forall|name: Seq<char>| !values_of(entries@).contains_key(name) by {
                lemma_absent(entries@, name);
            }
            assert(r@ =~= Map::<Seq<char>, V::V>::empty());
            assert(r.rows() =~= Seq::<V::V>::empty());
        }
        r
    }

    /// The place of a name, or the number of names where it has none.
    fn find(&self, name: &str) -> (r: usize)
        ensures
            r <= self.entries@.len(),
            r < self.entries@.len() ==> self.entries@[r as int].0@ == name@,
            r == self.entries@.len() ==> forall|i: int|
                0 <= i < self.entries@.len() ==> (#[trigger] self.entries@[i]).0@ != name@,
    {
        let mut i: usize = 0;
        while i < self.entries.len()
            invariant
                i <= self.entries@.len(),
                forall|j: int| 0 <= j < i ==> (#[trigger] self.entries@[j]).0@ != name@,
            decreases self.entries@.len() - i,
        {
            if same(self.entries[i].0.as_str(), name) {
                return i;
            }
            i = i + 1;
        }
        i
    }

    pub fn get(&self, name: &str) -> (r: Option<&V>)
        ensures
            opt_view(r) == lookup(self@, name@),
    {
        proof {
            use_type_invariant(self);
        }
        let i = self.find(name);
        if i < self.entries.len() {
            proof {
                lemma_row(self.entries@, i as int);
            }
            Some(&self.entries[i].1)
        } else {
            proof {
                lemma_absent(self.entries@, name@);
            }
            None
        }
    }

    pub fn insert(&mut self, name: &str, value: V)
        ensures
            final(self)@ == old(self)@.insert(name@, value@),
    {
        proof {
            use_type_invariant(&*self);
        }
        let i = self.find(name);
        let mut entries: Vec<(String, V)> = Vec::new();
        std::mem::swap(&mut entries, &mut self.entries);
        let ghost a = entries@;
        if i < entries.len() {
            entries.set(i, (name.to_owned(), value));
        } else {
            entries.push((name.to_owned(), value));
        }
        proof {
            lemma_insert(a, entries@, i as int, name@, value@);
        }
        self.entries = entries;
    }

    /// Takes a value out, with its name.
    pub fn remove(&mut self, name: &str) -> (r: Option<V>)
        ensures
            final(self)@ == old(self)@.remove(name@),
            match r {
                Some(value) => lookup(old(self)@, name@) == Some(value@),
                None => lookup(old(self)@, name@) is None,
            },
    {
        proof {
            use_type_invariant(&*self);
        }
        let i = self.find(name);
        if i < self.entries.len() {
            let mut entries: Vec<(String, V)> = Vec::new();
            std::mem::swap(&mut entries, &mut self.entries);
            proof {
                lemma_row(entries@, i as int);
                lemma_remove(entries@, i as int);
            }
            let entry = entries.remove(i);
            self.entries = entries;
            Some(entry.1)
        } else {
            proof {
                lemma_absent(self.entries@, name@);
                assert(self@.remove(name@) =~= self@);
            }
            None
        }
    }

    pub fn clear(&mut self)
        ensures
            final(self)@ == Map::<Seq<char>, V::V>::empty(),
    {
        *self = Table::new();
    }

    pub fn len(&self) -> (r: usize)
        ensures
            r == self.rows().len(),
            is_listing(self@, self.names(), self.rows()),
    {
        proof {
            use_type_invariant(self);
            let entries = self.entries@;
            let names = self.names();
            assert(names.no_duplicates()) by {
                assert forall|i: int, j: int| 0 <= i < names.len() && 0 <= j < names.len() && i != j implies names[i]
                    != names[j] by {
                    if i < j {
                        assert(entries[i].0@ != entries[j].0@);
                    } else {
                        assert(entries[j].0@ != entries[i].0@);
                    }
                }
            }
            assert forall|name: Seq<char>| #[trigger] self@.contains_key(name) <==> names.contains(name) by {
                if self@.contains_key(name) {
                    let n = choose|n: int| #[trigger] named(entries, n, name);
                    assert(named(entries, n, name));
                    assert(names[n] == name);
                }
                if names.contains(name) {
                    let n = choose|n: int| 0 <= n < names.len() && names[n] == name;
                    assert(entries[n].0@ == name);
                    lemma_row(entries, n);
                }
            }
            assert forall|i: int| 0 <= i < names.len() implies self@[#[trigger] names[i]] == self.rows()[i] by {
                lemma_row(entries, i);
            }
        }
        self.entries.len()
    }

    /// The value at a place in the table's order.
    pub fn at(&self, i: usize) -> (r: &V)
        requires
            i < self.rows().len(),
        ensures
            r@ == self.rows()[i as int],
    {
        &self.entries[i].1
    }
}

} // verus!
