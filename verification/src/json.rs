//! JSON documents: the executable tree, its mathematical view, and the operations on it.
use vstd::prelude::*;

use crate::text::{all_chars, before, before_is_strict, before_is_transitive, is_before, opt_chars, same};

verus! {

/// `serde_json`'s number, which holds integers and floating point values alike.
#[verifier::external_type_specification]
#[verifier::external_body]
pub struct ExNumber(serde_json::Number);

/// The integer that a number holds, where it is one between `i64::MIN` and `i64::MAX`.
pub uninterp spec fn number_i64(number: serde_json::Number) -> Option<i64>;

/// `serde_json::Number::as_i64`: the integer that the number holds, if it is one that fits.
#[verifier::external_body]
pub(crate) fn number_as_i64(number: &serde_json::Number) -> (r: Option<i64>)
    ensures
        r == number_i64(*number),
{
    number.as_i64()
}

/// `serde_json::Number::clone`: an equal number.
#[verifier::external_body]
pub(crate) fn number_clone(number: &serde_json::Number) -> (r: serde_json::Number)
    ensures
        r == *number,
{
    number.clone()
}

/// A JSON document. Where an object's entries repeat a key, the last of them counts. Documents that
/// say the same can be put together in more than one way; `==` compares how they are.
#[derive(Debug, PartialEq)]
pub enum Json {
    Null,
    Bool(bool),
    Int(i64),
    Number(serde_json::Number),
    Str(String),
    Array(Vec<Json>),
    Object(Vec<(String, Json)>),
}

/// What a JSON document says.
pub enum Tree {
    Null,
    Bool(bool),
    /// An integer between `i64::MIN` and `i64::MAX`.
    Int(i64),
    /// Any other number.
    Number(serde_json::Number),
    Str(Seq<char>),
    Array(Seq<Tree>),
    Object(Map<Seq<char>, Tree>),
}

/// Entry `i` is the one that counts for `key`.
pub open spec fn decides<V>(entries: Seq<(String, V)>, i: int, key: Seq<char>) -> bool {
    &&& 0 <= i < entries.len()
    &&& entries[i].0@ == key
    &&& forall|j: int| i < j < entries.len() ==> (#[trigger] entries[j]).0@ != key
}

/// Some entry has the key.
pub open spec fn has_entry<V>(entries: Seq<(String, V)>, key: Seq<char>) -> bool {
    exists|i: int| #[trigger] decides(entries, i, key)
}

/// The entry that counts for `key`.
pub open spec fn deciding<V>(entries: Seq<(String, V)>, key: Seq<char>) -> int {
    choose|i: int| #[trigger] decides(entries, i, key)
}

/// What a number says.
pub open spec fn number_tree(number: serde_json::Number) -> Tree {
    match number_i64(number) {
        Some(i) => Tree::Int(i),
        None => Tree::Number(number),
    }
}

impl Json {
    pub open spec fn tree(self) -> Tree
        decreases self,
    {
        match self {
            Json::Null => Tree::Null,
            Json::Bool(b) => Tree::Bool(b),
            Json::Int(i) => Tree::Int(i),
            Json::Number(n) => number_tree(n),
            Json::Str(s) => Tree::Str(s@),
            Json::Array(items) => Tree::Array(
                Seq::new(
                    items@.len(),
                    |i: int|
                        if 0 <= i < items@.len() {
                            items@[i].tree()
                        } else {
                            Tree::Null
                        },
                ),
            ),
            Json::Object(entries) => Tree::Object(
                Map::new(
                    |key: Seq<char>| has_entry(entries@, key),
                    |key: Seq<char>|
                        {
                            let i = deciding(entries@, key);
                            if 0 <= i < entries@.len() {
                                entries@[i].1.tree()
                            } else {
                                Tree::Null
                            }
                        },
                ),
            ),
        }
    }
}

impl View for Json {
    type V = Tree;

    open spec fn view(&self) -> Tree {
        self.tree()
    }
}

/// A key of an object that comes before every other one.
pub open spec fn is_first_key(members: Map<Seq<char>, Tree>, key: Seq<char>) -> bool {
    &&& members.contains_key(key)
    &&& forall|other: Seq<char>|
        #![trigger members.contains_key(other)]
        members.contains_key(other) && other != key ==> before(key, other)
}

impl Tree {
    /// The member named `key`, where this is an object that has it.
    pub open spec fn get(self, key: Seq<char>) -> Option<Tree> {
        match self {
            Tree::Object(members) => if members.contains_key(key) {
                Some(members[key])
            } else {
                None
            },
            _ => None,
        }
    }

    /// The member named `first`, or the one named `second` where there is none.
    pub open spec fn get_either(self, first: Seq<char>, second: Seq<char>) -> Option<Tree> {
        match self.get(first) {
            Some(member) => Some(member),
            None => self.get(second),
        }
    }

    /// The member named `inner` of the member named `outer`.
    pub open spec fn get_in(self, outer: Seq<char>, inner: Seq<char>) -> Option<Tree> {
        match self.get(outer) {
            Some(member) => member.get(inner),
            None => None,
        }
    }

    pub open spec fn as_str(self) -> Option<Seq<char>> {
        match self {
            Tree::Str(s) => Some(s),
            _ => None,
        }
    }

    pub open spec fn as_i64(self) -> Option<i64> {
        match self {
            Tree::Int(i) => Some(i),
            _ => None,
        }
    }

    pub open spec fn as_bool(self) -> Option<bool> {
        match self {
            Tree::Bool(b) => Some(b),
            _ => None,
        }
    }

    pub open spec fn as_array(self) -> Option<Seq<Tree>> {
        match self {
            Tree::Array(items) => Some(items),
            _ => None,
        }
    }

    /// The string in the member named `key`.
    pub open spec fn str_at(self, key: Seq<char>) -> Option<Seq<char>> {
        str_in(self.get(key))
    }

    /// The first key, in the order of strings, of an object that has any.
    pub open spec fn first_key(self) -> Option<Seq<char>> {
        match self {
            Tree::Object(members) => if exists|key: Seq<char>| #[trigger] is_first_key(members, key) {
                Some(choose|key: Seq<char>| #[trigger] is_first_key(members, key))
            } else {
                None
            },
            _ => None,
        }
    }

    /// Null or an object: what takes a member.
    pub open spec fn takes_members(self) -> bool {
        self is Null || self is Object
    }

    /// With `value` as the member named `key`; null counts as an object without members.
    pub open spec fn put(self, key: Seq<char>, value: Tree) -> Tree {
        match self {
            Tree::Object(members) => Tree::Object(members.insert(key, value)),
            _ => Tree::Object(Map::empty().insert(key, value)),
        }
    }

    /// Without the member named `key`.
    pub open spec fn without(self, key: Seq<char>) -> Tree {
        match self {
            Tree::Object(members) => Tree::Object(members.remove(key)),
            _ => self,
        }
    }
}

/// The object without members.
pub open spec fn object() -> Tree {
    Tree::Object(Map::empty())
}

/// The string that is there.
pub open spec fn str_in(tree: Option<Tree>) -> Option<Seq<char>> {
    match tree {
        Some(tree) => tree.as_str(),
        None => None,
    }
}

/// The integer that is there.
pub open spec fn i64_in(tree: Option<Tree>) -> Option<i64> {
    match tree {
        Some(tree) => tree.as_i64(),
        None => None,
    }
}

/// The truth value that is there.
pub open spec fn bool_in(tree: Option<Tree>) -> Option<bool> {
    match tree {
        Some(tree) => tree.as_bool(),
        None => None,
    }
}

/// The string, or null where there is none.
pub open spec fn opt_str_tree(s: Option<Seq<char>>) -> Tree {
    match s {
        Some(s) => Tree::Str(s),
        None => Tree::Null,
    }
}

pub open spec fn opt_tree(json: Option<&Json>) -> Option<Tree> {
    match json {
        Some(json) => Some(json@),
        None => None,
    }
}

/// What the documents of a list say.
pub open spec fn trees(items: Seq<Json>) -> Seq<Tree> {
    items.map_values(|item: Json| item@)
}

/// One entry at most counts for a key.
pub proof fn lemma_deciding<V>(entries: Seq<(String, V)>, i: int, key: Seq<char>)
    requires
        decides(entries, i, key),
    ensures
        has_entry(entries, key),
        deciding(entries, key) == i,
{
    let d = deciding(entries, key);
    assert(decides(entries, d, key));
    if d < i {
        assert(entries[i].0@ != key);
    } else if i < d {
        assert(entries[d].0@ != key);
    }
}

/// The members after an entry for `key` was put at `i`, where no later entry has that key.
proof fn lemma_put(old_entries: Vec<(String, Json)>, entries: Vec<(String, Json)>, i: int, key: Seq<char>, value: Tree)
    requires
        0 <= i < entries@.len(),
        entries@[i].0@ == key,
        entries@[i].1@ == value,
        forall|j: int| i < j < entries@.len() ==> (#[trigger] entries@[j]).0@ != key,
        entries@.len() == old_entries@.len() || (entries@.len() == old_entries@.len() + 1 && i
            == old_entries@.len()),
        i < old_entries@.len() ==> old_entries@[i].0@ == key,
        forall|j: int| 0 <= j < old_entries@.len() && j != i ==> #[trigger] entries@[j] == old_entries@[j],
    ensures
        Json::Object(entries)@ == Json::Object(old_entries)@.put(key, value),
{
    let a = entries@;
    let b = old_entries@;
    let after = Json::Object(entries)@->Object_0;
    let prior = Json::Object(old_entries)@->Object_0;
    assert(decides(a, i, key));
    lemma_deciding(a, i, key);
    assert forall|k: Seq<char>| k != key implies #[trigger] has_entry(a, k) == has_entry(b, k) && (
    has_entry(a, k) ==> deciding(a, k) == deciding(b, k) && deciding(a, k) != i) by {
        if has_entry(a, k) {
            let n = deciding(a, k);
            assert(decides(a, n, k));
            assert(n != i);
            assert(a[n] == b[n]);
            assert forall|j: int| n < j < b.len() implies (#[trigger] b[j]).0@ != k by {
                if j != i {
                    assert(a[j] == b[j]);
                }
            }
            assert(decides(b, n, k));
            lemma_deciding(b, n, k);
        }
        if has_entry(b, k) {
            let n = deciding(b, k);
            assert(decides(b, n, k));
            assert(n != i);
            assert(a[n] == b[n]);
            assert forall|j: int| n < j < a.len() implies (#[trigger] a[j]).0@ != k by {
                if j != i {
                    assert(a[j] == b[j]);
                }
            }
            assert(decides(a, n, k));
            lemma_deciding(a, n, k);
        }
    }
    assert forall|k: Seq<char>| #[trigger] after.contains_key(k) == prior.insert(key, value).contains_key(k) by {
        if k != key {
            assert(has_entry(a, k) == has_entry(b, k));
        }
    }
    assert forall|k: Seq<char>| #[trigger] after.contains_key(k) implies after[k] == prior.insert(key, value)[k] by {
        if k != key {
            assert(has_entry(a, k) == has_entry(b, k));
            let n = deciding(a, k);
            assert(decides(a, n, k));
            assert(a[n] == b[n]);
        }
    }
    assert(after =~= prior.insert(key, value));
}

impl Json {
    /// The member named `key`, where this is an object that has it.
    pub fn get(&self, key: &str) -> (r: Option<&Json>)
        ensures
            opt_tree(r) == self@.get(key@),
    {
        match self {
            Json::Object(entries) => {
                let mut i: usize = entries.len();
                while i > 0
                    invariant
                        i <= entries@.len(),
                        forall|j: int| i <= j < entries@.len() ==> (#[trigger] entries@[j]).0@ != key@,
                        *self == Json::Object(*entries),
                    decreases i,
                {
                    i = i - 1;
                    if same(entries[i].0.as_str(), key) {
                        proof {
                            lemma_deciding(entries@, i as int, key@);
                        }
                        return Some(&entries[i].1);
                    }
                }
                None
            },
            _ => None,
        }
    }

    pub fn get_either(&self, first: &str, second: &str) -> (r: Option<&Json>)
        ensures
            opt_tree(r) == self@.get_either(first@, second@),
    {
        match self.get(first) {
            Some(member) => Some(member),
            None => self.get(second),
        }
    }

    pub fn get_in(&self, outer: &str, inner: &str) -> (r: Option<&Json>)
        ensures
            opt_tree(r) == self@.get_in(outer@, inner@),
    {
        match self.get(outer) {
            Some(member) => member.get(inner),
            None => None,
        }
    }

    pub fn as_str(&self) -> (r: Option<&str>)
        ensures
            opt_chars(r) == self@.as_str(),
    {
        match self {
            Json::Str(s) => Some(s.as_str()),
            _ => None,
        }
    }

    /// The integer, where this is one between `i64::MIN` and `i64::MAX`.
    pub fn as_i64(&self) -> (r: Option<i64>)
        ensures
            r == self@.as_i64(),
    {
        match self {
            Json::Int(i) => Some(*i),
            Json::Number(n) => number_as_i64(n),
            _ => None,
        }
    }

    pub fn as_bool(&self) -> (r: Option<bool>)
        ensures
            r == self@.as_bool(),
    {
        match self {
            Json::Bool(b) => Some(*b),
            _ => None,
        }
    }

    pub fn as_array(&self) -> (r: Option<&Vec<Json>>)
        ensures
            r is Some <==> self@ is Array,
            r matches Some(items) ==> self@ == Tree::Array(trees(items@)),
    {
        match self {
            Json::Array(items) => {
                proof {
                    assert(self@->Array_0 =~= trees(items@));
                }
                Some(items)
            },
            _ => None,
        }
    }

    pub fn str_at(&self, key: &str) -> (r: Option<&str>)
        ensures
            opt_chars(r) == self@.str_at(key@),
    {
        match self.get(key) {
            Some(member) => member.as_str(),
            None => None,
        }
    }

    /// The member whose key comes first in the order of strings, with that key.
    pub fn first_member(&self) -> (r: Option<(&String, &Json)>)
        ensures
            match r {
                Some(member) => self@.first_key() == Some(member.0@) && self@.get(member.0@) == Some(
                    member.1@,
                ),
                None => self@.first_key() is None,
            },
    {
        match self {
            Json::Object(entries) => {
                let ghost members = self@->Object_0;
                if entries.len() == 0 {
                    proof {
                        assert forall|key: Seq<char>| !members.contains_key(key) by {
                            if has_entry(entries@, key) {
                                assert(decides(entries@, deciding(entries@, key), key));
                            }
                        }
                    }
                    return None;
                }
                let mut best: usize = 0;
                let mut i: usize = 1;
                while i < entries.len()
                    invariant
                        best < i <= entries@.len(),
                        forall|j: int|
                            0 <= j < i ==> {
                                ||| (#[trigger] entries@[j]).0@ == entries@[best as int].0@
                                ||| before(entries@[best as int].0@, entries@[j].0@)
                            },
                        forall|j: int| best < j < i ==> (#[trigger] entries@[j]).0@ != entries@[best as int].0@,
                    decreases entries@.len() - i,
                {
                    let ghost old_best = best;
                    if !is_before(entries[best].0.as_str(), entries[i].0.as_str()) {
                        best = i;
                        proof {
                            let new_key = entries@[i as int].0@;
                            let old_key = entries@[old_best as int].0@;
                            assert forall|j: int| 0 <= j < i + 1 implies {
                                ||| (#[trigger] entries@[j]).0@ == new_key
                                ||| before(new_key, entries@[j].0@)
                            } by {
                                if j < i && entries@[j].0@ != old_key && old_key != new_key {
                                    before_is_transitive(new_key, old_key, entries@[j].0@);
                                }
                            }
                        }
                    } else {
                        proof {
                            before_is_strict(entries@[best as int].0@, entries@[i as int].0@);
                        }
                    }
                    i = i + 1;
                }
                proof {
                    let key = entries@[best as int].0@;
                    assert(decides(entries@, best as int, key));
                    lemma_deciding(entries@, best as int, key);
                    assert forall|other: Seq<char>|
                        #![trigger members.contains_key(other)]
                        members.contains_key(other) && other != key implies before(key, other) by {
                        let n = deciding(entries@, other);
                        assert(decides(entries@, n, other));
                        assert(entries@[n].0@ == other);
                    }
                    assert(is_first_key(members, key));
                    lemma_first_key_unique(members, key);
                }
                Some((&entries[best].0, &entries[best].1))
            },
            _ => None,
        }
    }

    /// The object without members.
    pub fn object() -> (r: Json)
        ensures
            r@ == object(),
    {
        let entries: Vec<(String, Json)> = Vec::new();
        proof {
            lemma_no_entries(entries);
        }
        Json::Object(entries)
    }

    pub fn str(s: &str) -> (r: Json)
        ensures
            r@ == Tree::Str(s@),
    {
        Json::Str(s.to_owned())
    }

    /// The string, or null where there is none.
    pub fn opt_str(s: Option<&str>) -> (r: Json)
        ensures
            r@ == opt_str_tree(opt_chars(s)),
    {
        match s {
            Some(s) => Json::Str(s.to_owned()),
            None => Json::Null,
        }
    }

    /// With `value` as the member named `key`; null counts as an object without members.
    pub fn put(self, key: &str, value: Json) -> (r: Json)
        requires
            self@.takes_members(),
        ensures
            r@ == self@.put(key@, value@),
    {
        match self {
            Json::Object(mut entries) => {
                let ghost old_entries = entries;
                let mut i: usize = entries.len();
                while i > 0
                    invariant
                        i <= entries@.len(),
                        entries == old_entries,
                        self == Json::Object(old_entries),
                        forall|j: int| i <= j < entries@.len() ==> (#[trigger] entries@[j]).0@ != key@,
                    decreases i,
                {
                    if same(entries[i - 1].0.as_str(), key) {
                        entries.set(i - 1, (key.to_owned(), value));
                        proof {
                            lemma_put(old_entries, entries, i - 1, key@, value@);
                        }
                        return Json::Object(entries);
                    }
                    i = i - 1;
                }
                entries.push((key.to_owned(), value));
                proof {
                    lemma_put(old_entries, entries, old_entries@.len() as int, key@, value@);
                }
                Json::Object(entries)
            },
            _ => {
                let mut entries: Vec<(String, Json)> = Vec::new();
                let ghost old_entries = entries;
                entries.push((key.to_owned(), value));
                proof {
                    lemma_put(old_entries, entries, 0, key@, value@);
                    lemma_no_entries(old_entries);
                }
                Json::Object(entries)
            },
        }
    }

    /// Without the member named `key`.
    pub fn without(self, key: &str) -> (r: Json)
        ensures
            r@ == self@.without(key@),
    {
        let ghost whole = self;
        match self {
            Json::Object(mut entries) => {
                let mut i: usize = entries.len();
                while i > 0
                    invariant
                        i <= entries@.len(),
                        Json::Object(entries)@.without(key@) == whole@.without(key@),
                        forall|j: int| i <= j < entries@.len() ==> (#[trigger] entries@[j]).0@ != key@,
                    decreases i,
                {
                    i = i - 1;
                    if same(entries[i].0.as_str(), key) {
                        let ghost old_entries = entries;
                        entries.remove(i);
                        proof {
                            lemma_remove(old_entries, entries, i as int, key@);
                            assert forall|j: int| i <= j < entries@.len() implies (#[trigger] entries@[j]).0@
                                != key@ by {
                                assert(entries@[j] == old_entries@[j + 1]);
                            }
                        }
                    }
                }
                proof {
                    let members = Json::Object(entries)@->Object_0;
                    assert(!members.contains_key(key@)) by {
                        if has_entry(entries@, key@) {
                            assert(decides(entries@, deciding(entries@, key@), key@));
                        }
                    }
                    assert(members.remove(key@) =~= members);
                }
                Json::Object(entries)
            },
            other => other,
        }
    }
}

impl Clone for Json {
    fn clone(&self) -> (r: Json)
        ensures
            r@ == self@,
        decreases self,
    {
        match self {
            Json::Null => Json::Null,
            Json::Bool(b) => Json::Bool(*b),
            Json::Int(i) => Json::Int(*i),
            Json::Number(n) => Json::Number(number_clone(n)),
            Json::Str(s) => Json::Str(s.clone()),
            Json::Array(items) => {
                let mut copy: Vec<Json> = Vec::new();
                let mut i: usize = 0;
                while i < items.len()
                    invariant
                        i <= items@.len(),
                        copy@.len() == i,
                        *self == Json::Array(*items),
                        forall|j: int| 0 <= j < i ==> (#[trigger] copy@[j])@ == items@[j]@,
                    decreases items@.len() - i,
                {
                    assert(decreases_to!(*self => self->Array_0));
                    assert(decreases_to!(*items => items@));
                    assert(decreases_to!(items@ => items@[i as int]));
                    let item = items[i].clone();
                    copy.push(item);
                    i = i + 1;
                }
                proof {
                    assert(Json::Array(copy)@->Array_0 =~= self@->Array_0);
                }
                Json::Array(copy)
            },
            Json::Object(entries) => {
                let mut copy: Vec<(String, Json)> = Vec::new();
                let mut i: usize = 0;
                while i < entries.len()
                    invariant
                        i <= entries@.len(),
                        copy@.len() == i,
                        *self == Json::Object(*entries),
                        forall|j: int|
                            0 <= j < i ==> (#[trigger] copy@[j]).0@ == entries@[j].0@ && copy@[j].1@
                                == entries@[j].1@,
                    decreases entries@.len() - i,
                {
                    assert(decreases_to!(*self => self->Object_0));
                    assert(decreases_to!(*entries => entries@));
                    assert(decreases_to!(entries@ => entries@[i as int]));
                    assert(decreases_to!(entries@[i as int] => entries@[i as int].1));
                    let value = entries[i].1.clone();
                    copy.push((entries[i].0.clone(), value));
                    i = i + 1;
                }
                proof {
                    lemma_same_entries(copy, *entries);
                }
                Json::Object(copy)
            },
        }
    }
}

/// Entries with the same keys and values give the same members.
pub proof fn lemma_same_entries(a: Vec<(String, Json)>, b: Vec<(String, Json)>)
    requires
        a@.len() == b@.len(),
        forall|i: int|
            0 <= i < a@.len() ==> (#[trigger] a@[i]).0@ == b@[i].0@ && a@[i].1@ == b@[i].1@,
    ensures
        Json::Object(a)@ == Json::Object(b)@,
{
    let x = Json::Object(a)@->Object_0;
    let y = Json::Object(b)@->Object_0;
    assert forall|i: int, key: Seq<char>| #[trigger] decides(a@, i, key) implies decides(b@, i, key) by {
        assert(a@[i].0@ == b@[i].0@);
        assert forall|j: int| i < j < b@.len() implies (#[trigger] b@[j]).0@ != key by {
            assert(a@[j].0@ == b@[j].0@);
        }
    }
    assert forall|i: int, key: Seq<char>| #[trigger] decides(b@, i, key) implies decides(a@, i, key) by {
        assert(a@[i].0@ == b@[i].0@);
        assert forall|j: int| i < j < a@.len() implies (#[trigger] a@[j]).0@ != key by {
            assert(a@[j].0@ == b@[j].0@);
        }
    }
    assert forall|key: Seq<char>| #[trigger] x.contains_key(key) implies y.contains_key(key) && x[key] == y[key] by {
        let i = deciding(a@, key);
        assert(decides(a@, i, key));
        lemma_deciding(b@, i, key);
    }
    assert forall|key: Seq<char>| #[trigger] y.contains_key(key) implies x.contains_key(key) by {
        let i = deciding(b@, key);
        assert(decides(b@, i, key));
        lemma_deciding(a@, i, key);
    }
    assert(x =~= y);
}

/// An entry for `key` that is taken out leaves the other members as they were.
proof fn lemma_remove(old_entries: Vec<(String, Json)>, entries: Vec<(String, Json)>, i: int, key: Seq<char>)
    requires
        0 <= i < old_entries@.len(),
        old_entries@[i].0@ == key,
        entries@ == old_entries@.remove(i),
    ensures
        Json::Object(entries)@.without(key) == Json::Object(old_entries)@.without(key),
{
    let a = entries@;
    let b = old_entries@;
    let after = Json::Object(entries)@->Object_0.remove(key);
    let prior = Json::Object(old_entries)@->Object_0.remove(key);
    assert forall|k: Seq<char>| #[trigger] after.contains_key(k) implies prior.contains_key(k) && after[k] == prior[k] by {
        let n = deciding(a, k);
        assert(decides(a, n, k));
        let m = if n < i {
            n
        } else {
            n + 1
        };
        assert(a[n] == b[m]);
        assert forall|j: int| m < j < b.len() implies (#[trigger] b[j]).0@ != k by {
            if j < i {
                assert(a[j] == b[j]);
            } else if j > i {
                assert(a[j - 1] == b[j]);
            }
        }
        assert(decides(b, m, k));
        lemma_deciding(b, m, k);
    }
    assert forall|k: Seq<char>| #[trigger] prior.contains_key(k) implies after.contains_key(k) by {
        let m = deciding(b, k);
        assert(decides(b, m, k));
        let n = if m < i {
            m
        } else {
            m - 1
        };
        assert(a[n] == b[m]);
        assert forall|j: int| n < j < a.len() implies (#[trigger] a[j]).0@ != k by {
            if j < i {
                assert(a[j] == b[j]);
            } else {
                assert(a[j] == b[j + 1]);
            }
        }
        assert(decides(a, n, k));
        lemma_deciding(a, n, k);
    }
    assert(after =~= prior);
}

proof fn lemma_no_entries(entries: Vec<(String, Json)>)
    requires
        entries@.len() == 0,
    ensures
        Json::Object(entries)@ == object(),
{
    assert forall|key: Seq<char>| !has_entry(entries@, key) by {
        if has_entry(entries@, key) {
            assert(decides(entries@, deciding(entries@, key), key));
        }
    }
    assert(Json::Object(entries)@->Object_0 =~= Map::empty());
}

proof fn lemma_first_key_unique(members: Map<Seq<char>, Tree>, key: Seq<char>)
    requires
        is_first_key(members, key),
    ensures
        Tree::Object(members).first_key() == Some(key),
{
    let other = choose|key: Seq<char>| #[trigger] is_first_key(members, key);
    assert(is_first_key(members, other));
    if other != key {
        assert(members.contains_key(other));
        assert(members.contains_key(key));
        before_is_strict(key, other);
    }
}

/// The strings among the items of an array.
pub open spec fn strings_in(items: Seq<Tree>) -> Seq<Seq<char>>
    decreases items.len(),
{
    if items.len() == 0 {
        Seq::empty()
    } else {
        match items.last().as_str() {
            Some(s) => strings_in(items.drop_last()).push(s),
            None => strings_in(items.drop_last()),
        }
    }
}

pub fn strings_of(items: &Vec<Json>) -> (r: Vec<String>)
    ensures
        all_chars(r@) == strings_in(trees(items@)),
{
    let ghost all = trees(items@);
    let mut r: Vec<String> = Vec::new();
    let mut i: usize = 0;
    proof {
        assert(all_chars(r@) =~= strings_in(all.take(0)));
    }
    while i < items.len()
        invariant
            i <= items@.len(),
            all == trees(items@),
            all_chars(r@) == strings_in(all.take(i as int)),
        decreases items@.len() - i,
    {
        let ghost prior = r@;
        proof {
            assert(all.take(i + 1).drop_last() =~= all.take(i as int));
        }
        if let Some(s) = items[i].as_str() {
            let s = s.to_owned();
            r.push(s);
            proof {
                assert(all_chars(r@) =~= all_chars(prior).push(s@));
            }
        }
        i = i + 1;
    }
    proof {
        assert(all.take(i as int) =~= all);
    }
    r
}

/// The strings of a list are its members that are strings, in their order.
pub proof fn the_strings_of_a_list_keep_their_order(items: Seq<Tree>, more: Tree)
    ensures
        strings_in(Seq::<Tree>::empty()).len() == 0,
        more matches Tree::Str(s) ==> strings_in(items.push(more)) == strings_in(items).push(s),
        !(more is Str) ==> strings_in(items.push(more)) == strings_in(items),
{
    assert(items.push(more).drop_last() =~= items);
    assert(items.push(more).last() == more);
}

/// A member that was put is found under its name, whatever was there; the others stay, and nothing is
/// found under a name that was taken out.
pub proof fn a_member_is_found_under_its_name(tree: Tree, key: Seq<char>, value: Tree, other: Seq<char>)
    requires
        tree.takes_members(),
        other != key,
    ensures
        tree.put(key, value).get(key) == Some(value),
        tree.put(key, value).get(other) == tree.get(other),
        tree.without(key).get(key) is None,
        tree.without(key).get(other) == tree.get(other),
        tree.put(key, value) is Object,
        object().takes_members(),
        object().get(key) is None,
{
}

} // verus!
