//! JSON text, which `serde_json` reads and writes.
use vstd::prelude::*;

use crate::json::{decides, deciding, has_entry, lemma_deciding, number_clone, number_i64, number_tree, object, Json, Tree};
use crate::text::same;

verus! {

/// `serde_json`'s document.
#[verifier::external_type_specification]
#[verifier::external_body]
pub struct ExValue(serde_json::Value);

/// What a `serde_json` document holds.
pub uninterp spec fn value_tree(value: serde_json::Value) -> Tree;

/// One level of a `serde_json` document.
pub enum Layer {
    Null,
    Bool(bool),
    Number(serde_json::Number),
    Str(String),
    Array(Vec<serde_json::Value>),
    Object(Vec<(String, serde_json::Value)>),
}

/// The members that a list of entries gives; of entries with one key the last counts.
pub open spec fn value_members(entries: Seq<(String, serde_json::Value)>) -> Map<Seq<char>, Tree> {
    Map::new(
        |key: Seq<char>| has_entry(entries, key),
        |key: Seq<char>| value_tree(entries[deciding(entries, key)].1),
    )
}

/// What a level of a document holds, with the levels below it.
pub open spec fn layer_tree(layer: Layer) -> Tree {
    match layer {
        Layer::Null => Tree::Null,
        Layer::Bool(b) => Tree::Bool(b),
        Layer::Number(n) => number_tree(n),
        Layer::Str(s) => Tree::Str(s@),
        Layer::Array(items) => Tree::Array(
            items@.map_values(|item: serde_json::Value| value_tree(item)),
        ),
        Layer::Object(entries) => Tree::Object(value_members(entries@)),
    }
}

/// No two entries have the same key.
pub open spec fn keys_differ(layer: Layer) -> bool {
    match layer {
        Layer::Object(entries) => forall|i: int, j: int|
            0 <= i < j < entries@.len() ==> (#[trigger] entries@[i]).0@ != (#[trigger] entries@[j]).0@,
        _ => true,
    }
}

/// Takes a `serde_json::Value` apart, variant by variant; the entries are those of its map, in
/// which a key occurs once.
#[verifier::external_body]
pub(crate) fn split(value: serde_json::Value) -> (r: Layer)
    ensures
        layer_tree(r) == value_tree(value),
        keys_differ(r),
{
    match value {
        serde_json::Value::Null => Layer::Null,
        serde_json::Value::Bool(b) => Layer::Bool(b),
        serde_json::Value::Number(n) => Layer::Number(n),
        serde_json::Value::String(s) => Layer::Str(s),
        serde_json::Value::Array(items) => Layer::Array(items),
        serde_json::Value::Object(map) => Layer::Object(map.into_iter().collect()),
    }
}

/// Makes a `serde_json::Value` of one level, variant by variant; `serde_json::Map` is collected
/// from the entries, of which no two have the same key.
#[verifier::external_body]
pub(crate) fn join(layer: Layer) -> (r: serde_json::Value)
    requires
        keys_differ(layer),
    ensures
        value_tree(r) == layer_tree(layer),
{
    match layer {
        Layer::Null => serde_json::Value::Null,
        Layer::Bool(b) => serde_json::Value::Bool(b),
        Layer::Number(n) => serde_json::Value::Number(n),
        Layer::Str(s) => serde_json::Value::String(s),
        Layer::Array(items) => serde_json::Value::Array(items),
        Layer::Object(entries) => serde_json::Value::Object(entries.into_iter().collect()),
    }
}

/// `serde_json::Number::from(i64)`: the number that holds this integer.
#[verifier::external_body]
pub(crate) fn number_from(i: i64) -> (r: serde_json::Number)
    ensures
        number_i64(r) == Some(i),
{
    serde_json::Number::from(i)
}

/// What `serde_json::from_str` makes of a text: a document, or what its error reads as.
pub uninterp spec fn parsed(text: Seq<char>) -> Result<Tree, Seq<char>>;

/// The arrays and objects of a document lie no more than `levels` deep in each other.
pub open spec fn nests(tree: Tree, levels: nat) -> bool
    decreases tree,
{
    match tree {
        Tree::Array(items) => levels > 0 && forall|i: int|
            0 <= i < items.len() ==> nests(#[trigger] items[i], (levels - 1) as nat),
        Tree::Object(members) => levels > 0 && forall|key: Seq<char>| #[trigger]
            members.contains_key(key) ==> nests(members[key], (levels - 1) as nat),
        _ => true,
    }
}

/// The arrays and objects of a document lie no deeper in each other than `serde_json` reads.
pub open spec fn is_shallow(tree: Tree) -> bool {
    nests(tree, 127)
}

/// `serde_json::from_str`: the document in the text, or what its error reads as. It reads no document
/// whose arrays and objects lie too deep in each other.
#[verifier::external_body]
pub(crate) fn from_str(text: &str) -> (r: Result<serde_json::Value, String>)
    ensures
        match r {
            Ok(value) => parsed(text@) == Ok::<Tree, Seq<char>>(value_tree(value)) && is_shallow(value_tree(value)),
            Err(error) => parsed(text@) == Err::<Tree, Seq<char>>(error@),
        },
{
    match serde_json::from_str::<serde_json::Value>(text) {
        Ok(value) => Ok(value),
        Err(error) => Err(error.to_string()),
    }
}

/// No number in the document is anything but an integer between `i64::MIN` and `i64::MAX`, and its
/// arrays and objects lie no more than `levels` deep in each other.
pub open spec fn reads_back(tree: Tree, levels: nat) -> bool
    decreases tree,
{
    match tree {
        Tree::Number(_) => false,
        Tree::Array(items) => levels > 0 && forall|i: int|
            0 <= i < items.len() ==> reads_back(#[trigger] items[i], (levels - 1) as nat),
        Tree::Object(members) => levels > 0 && forall|key: Seq<char>| #[trigger]
            members.contains_key(key) ==> reads_back(members[key], (levels - 1) as nat),
        _ => true,
    }
}

/// The document is read back from its text as it was.
pub open spec fn is_readable(tree: Tree) -> bool {
    reads_back(tree, 127)
}

/// What is read from a text that holds this document.
pub open spec fn read_as(tree: Tree) -> Result<Tree, Seq<char>> {
    Ok(tree)
}

/// A document reads like another: it is the same, where that one is read back from its text as it
/// was; and where that one is an object, both have members of the same names, and a member that in
/// either of them is read back as it was is the same in both.
pub open spec fn reads_like(read: Tree, tree: Tree) -> bool {
    &&& is_readable(tree) ==> read == tree
    &&& tree matches Tree::Object(members) ==> {
        &&& read matches Tree::Object(others)
        &&& forall|key: Seq<char>| #[trigger] others.contains_key(key) == members.contains_key(key)
        &&& forall|key: Seq<char>| #[trigger]
            members.contains_key(key) && (reads_back(members[key], 126) || reads_back(others[key], 126))
                ==> others[key] == members[key]
    }
}

/// What is read from a text reads like this document.
pub open spec fn keeps(text: Seq<char>, tree: Tree) -> bool {
    match parsed(text) {
        Ok(read) => reads_like(read, tree),
        Err(_) => false,
    }
}

/// What is read from a text that there may be.
pub open spec fn read_text(text: Option<String>) -> Result<Tree, Seq<char>> {
    match text {
        Some(text) => parsed(text@),
        None => Err(Seq::empty()),
    }
}

/// The text that `serde_json::to_string` makes of a document, where it makes one.
pub uninterp spec fn written(tree: Tree) -> Option<Seq<char>>;

/// `serde_json::to_string`: the text of a document. It makes one of every document that
/// `serde_json::from_str` reads back from it.
#[verifier::external_body]
pub(crate) fn to_string(value: &serde_json::Value) -> (r: Option<String>)
    ensures
        match r {
            Some(text) => written(value_tree(*value)) == Some(text@),
            None => written(value_tree(*value)) is None,
        },
        is_readable(value_tree(*value)) ==> read_text(r) == read_as(value_tree(*value)),
{
    serde_json::to_string(value).ok()
}

/// The text that a document is displayed as.
pub uninterp spec fn displayed(tree: Tree) -> Seq<char>;

/// `serde_json::Value`'s `Display`: the text of a document, without spaces. `serde_json::from_str` reads
/// it, where the document is shallow enough: every finite number that is written is read as a finite
/// one. It reads the document back, but for numbers that are not integers, which can come back as
/// other such numbers.
#[verifier::external_body]
pub(crate) fn display(value: &serde_json::Value) -> (r: String)
    ensures
        r@ == displayed(value_tree(*value)),
        is_shallow(value_tree(*value)) ==> keeps(r@, value_tree(*value)),
{
    value.to_string()
}

/// Entries with the same keys and values give the same members.
proof fn lemma_same_members(a: Vec<(String, Json)>, b: Seq<(String, serde_json::Value)>)
    requires
        a@.len() == b.len(),
        forall|i: int|
            0 <= i < a@.len() ==> (#[trigger] a@[i]).0@ == b[i].0@ && a@[i].1@ == value_tree(b[i].1),
    ensures
        Json::Object(a)@ == Tree::Object(value_members(b)),
{
    let x = Json::Object(a)@->Object_0;
    let y = value_members(b);
    assert forall|i: int, key: Seq<char>| #[trigger] decides(a@, i, key) implies decides(b, i, key) by {
        assert(a@[i].0@ == b[i].0@);
        assert forall|j: int| i < j < b.len() implies (#[trigger] b[j]).0@ != key by {
            assert(a@[j].0@ == b[j].0@);
        }
    }
    assert forall|i: int, key: Seq<char>| #[trigger] decides(b, i, key) implies decides(a@, i, key) by {
        assert(a@[i].0@ == b[i].0@);
        assert forall|j: int| i < j < a@.len() implies (#[trigger] a@[j]).0@ != key by {
            assert(a@[j].0@ == b[j].0@);
        }
    }
    assert forall|key: Seq<char>| #[trigger] x.contains_key(key) implies y.contains_key(key) && x[key] == y[key] by {
        let i = deciding(a@, key);
        assert(decides(a@, i, key));
        lemma_deciding(b, i, key);
        assert(a@[i].1@ == value_tree(b[i].1));
    }
    assert forall|key: Seq<char>| #[trigger] y.contains_key(key) implies x.contains_key(key) by {
        let i = deciding(b, key);
        assert(decides(b, i, key));
        lemma_deciding(a@, i, key);
    }
    assert(x =~= y);
}

/// The entries that count, each at its place in `from`, have different keys and give the same
/// members as all of them.
proof fn lemma_members_that_count(a: Vec<(String, Json)>, b: Vec<(String, serde_json::Value)>, from: Seq<int>)
    requires
        b@.len() == from.len(),
        forall|j: int|
            0 <= j < from.len() ==> decides(a@, #[trigger] from[j], b@[j].0@) && a@[from[j]].1@ == value_tree(b@[j].1),
        forall|i: int, j: int| 0 <= i < j < from.len() ==> #[trigger] from[i] < #[trigger] from[j],
        forall|i: int| 0 <= i < a@.len() && #[trigger] decides(a@, i, a@[i].0@) ==> from.contains(i),
    ensures
        keys_differ(Layer::Object(b)),
        Json::Object(a)@ == Tree::Object(value_members(b@)),
{
    let x = Json::Object(a)@->Object_0;
    let y = value_members(b@);
    assert forall|i: int, j: int| 0 <= i < j < b@.len() implies (#[trigger] b@[i]).0@ != (#[trigger] b@[j]).0@ by {
        assert(from[i] < from[j]);
        assert(decides(a@, from[i], b@[i].0@) && decides(a@, from[j], b@[j].0@));
        assert(a@[from[j]].0@ == b@[j].0@);
    }
    assert forall|key: Seq<char>| #[trigger] x.contains_key(key) implies y.contains_key(key) && x[key] == y[key] by {
        let i = deciding(a@, key);
        assert(decides(a@, i, key));
        assert(decides(a@, i, a@[i].0@));
        let j = from.index_of(i);
        assert(from[j] == i);
        assert(b@[j].0@ == key);
        assert(decides(b@, j, key));
        lemma_deciding(b@, j, key);
    }
    assert forall|key: Seq<char>| #[trigger] y.contains_key(key) implies x.contains_key(key) by {
        let j = deciding(b@, key);
        assert(decides(b@, j, key));
        assert(decides(a@, from[j], b@[j].0@));
        lemma_deciding(a@, from[j], key);
    }
    assert(x =~= y);
}

/// Whether an entry is the one that counts for its key.
fn counts(entries: &Vec<(String, Json)>, i: usize) -> (r: bool)
    requires
        i < entries@.len(),
    ensures
        r == decides(entries@, i as int, entries@[i as int].0@),
{
    let total: usize = entries.len();
    let mut j: usize = i + 1;
    while j < total
        invariant
            i < j <= total,
            total == entries@.len(),
            forall|k: int| i < k < j ==> (#[trigger] entries@[k]).0@ != entries@[i as int].0@,
        decreases total - j,
    {
        if same(entries[j].0.as_str(), entries[i].0.as_str()) {
            return false;
        }
        j = j + 1;
    }
    true
}

/// The document that a `serde_json` document holds.
pub fn decode(value: serde_json::Value) -> (r: Json)
    ensures
        r@ == value_tree(value),
    decreases value_tree(value),
{
    let ghost tree = value_tree(value);
    match split(value) {
        Layer::Null => Json::Null,
        Layer::Bool(b) => Json::Bool(b),
        Layer::Number(n) => Json::Number(n),
        Layer::Str(s) => Json::Str(s),
        Layer::Array(items) => {
            let ghost all = items@;
            let mut r: Vec<Json> = Vec::new();
            for item in it: items
                invariant
                    it.seq() == all,
                    tree == value_tree(value),
                    tree == Tree::Array(all.map_values(|item: serde_json::Value| value_tree(item))),
                    r@.len() == it.index(),
                    forall|j: int| 0 <= j < r@.len() ==> (#[trigger] r@[j])@ == value_tree(all[j]),
            {
                proof {
                    assert(tree->Array_0[it.index()] == value_tree(item));
                    assert(decreases_to!(tree => tree->Array_0));
                    assert(decreases_to!(tree->Array_0 => tree->Array_0[it.index()]));
                }
                r.push(decode(item));
            }
            proof {
                assert(Json::Array(r)@->Array_0 =~= tree->Array_0);
            }
            Json::Array(r)
        },
        Layer::Object(entries) => {
            let ghost all = entries@;
            let mut r: Vec<(String, Json)> = Vec::new();
            for entry in it: entries
                invariant
                    it.seq() == all,
                    tree == value_tree(value),
                    tree == Tree::Object(value_members(all)),
                    forall|i: int, j: int|
                        0 <= i < j < all.len() ==> (#[trigger] all[i]).0@ != (#[trigger] all[j]).0@,
                    r@.len() == it.index(),
                    forall|j: int|
                        0 <= j < r@.len() ==> (#[trigger] r@[j]).0@ == all[j].0@ && r@[j].1@
                            == value_tree(all[j].1),
            {
                proof {
                    let key = entry.0@;
                    lemma_deciding(all, it.index(), key);
                    assert(tree->Object_0.contains_key(key));
                    assert(tree->Object_0[key] == value_tree(entry.1));
                    assert(decreases_to!(tree => tree->Object_0[key]));
                }
                r.push((entry.0, decode(entry.1)));
            }
            proof {
                lemma_same_members(r, all);
            }
            Json::Object(r)
        },
    }
}

/// The `serde_json` document that holds this document.
pub fn encode(json: &Json) -> (r: serde_json::Value)
    ensures
        value_tree(r) == json@,
    decreases json,
{
    match json {
        Json::Null => join(Layer::Null),
        Json::Bool(b) => join(Layer::Bool(*b)),
        Json::Int(i) => join(Layer::Number(number_from(*i))),
        Json::Number(n) => join(Layer::Number(number_clone(n))),
        Json::Str(s) => join(Layer::Str(s.clone())),
        Json::Array(items) => {
            let mut values: Vec<serde_json::Value> = Vec::new();
            let mut i: usize = 0;
            while i < items.len()
                invariant
                    i <= items@.len(),
                    *json == Json::Array(*items),
                    values@.len() == i,
                    forall|j: int| 0 <= j < i ==> value_tree(#[trigger] values@[j]) == items@[j]@,
                decreases items@.len() - i,
            {
                assert(decreases_to!(*json => json->Array_0));
                assert(decreases_to!(json->Array_0 => items@));
                assert(decreases_to!(items@ => items@[i as int]));
                values.push(encode(&items[i]));
                i = i + 1;
            }
            proof {
                assert(layer_tree(Layer::Array(values))->Array_0 =~= json@->Array_0);
            }
            join(Layer::Array(values))
        },
        Json::Object(entries) => {
            let mut values: Vec<(String, serde_json::Value)> = Vec::new();
            let ghost mut from = Seq::<int>::empty();
            let mut i: usize = 0;
            while i < entries.len()
                invariant
                    i <= entries@.len(),
                    *json == Json::Object(*entries),
                    values@.len() == from.len(),
                    forall|j: int|
                        0 <= j < from.len() ==> 0 <= #[trigger] from[j] < i && decides(
                            entries@,
                            from[j],
                            values@[j].0@,
                        ) && entries@[from[j]].1@ == value_tree(values@[j].1),
                    forall|j: int, k: int| 0 <= j < k < from.len() ==> #[trigger] from[j] < #[trigger] from[k],
                    forall|k: int| 0 <= k < i && #[trigger] decides(entries@, k, entries@[k].0@) ==> from.contains(k),
                decreases entries@.len() - i,
            {
                assert(decreases_to!(*json => json->Object_0));
                assert(decreases_to!(json->Object_0 => entries@));
                assert(decreases_to!(entries@ => entries@[i as int]));
                assert(decreases_to!(entries@[i as int] => entries@[i as int].1));
                if counts(entries, i) {
                    let value = encode(&entries[i].1);
                    values.push((entries[i].0.clone(), value));
                    proof {
                        let prior = from;
                        from = from.push(i as int);
                        assert forall|k: int|
                            0 <= k <= i && #[trigger] decides(entries@, k, entries@[k].0@) implies from.contains(k) by {
                            if k < i {
                                assert(from[prior.index_of(k)] == k);
                            } else {
                                assert(from[from.len() - 1] == k);
                            }
                        }
                    }
                }
                i = i + 1;
            }
            proof {
                lemma_members_that_count(*entries, values, from);
            }
            join(Layer::Object(values))
        },
    }
}

/// The document in a text, or why there is none.
pub fn parse(text: &str) -> (r: Result<Json, String>)
    ensures
        match r {
            Ok(json) => parsed(text@) == Ok::<Tree, Seq<char>>(json@) && is_shallow(json@),
            Err(error) => parsed(text@) == Err::<Tree, Seq<char>>(error@),
        },
{
    match from_str(text) {
        Ok(value) => Ok(decode(value)),
        Err(error) => Err(error),
    }
}

/// The text of a document, from which it is read back.
pub fn print(json: &Json) -> (r: String)
    ensures
        r@ == displayed(json@),
        is_shallow(json@) ==> keeps(r@, json@),
        is_readable(json@) ==> parsed(r@) == read_as(json@),
{
    proof {
        if is_readable(json@) {
            a_readable_document_is_shallow(json@, 127);
        }
    }
    display(&encode(json))
}

/// The document in a text, or the object without members where it holds none.
pub fn parse_or_empty(text: &str) -> (r: Json)
    ensures
        r@ == document(text@),
        is_shallow(r@),
{
    match parse(text) {
        Ok(json) => json,
        Err(_) => Json::object(),
    }
}

/// The document in a text, or the object without members where it holds none.
pub open spec fn document(text: Seq<char>) -> Tree {
    match parsed(text) {
        Ok(tree) => tree,
        Err(_) => object(),
    }
}

/// The key that a request is kept under: the text of its id.
pub fn request_key(id: &Json) -> (r: String)
    ensures
        r@ == key_of(id@),
        is_readable(id@) ==> parsed(r@) == read_as(id@),
{
    match to_string(&encode(id)) {
        Some(text) => text,
        None => "null".to_owned(),
    }
}

/// The key that a request is kept under: the text of its id.
pub open spec fn key_of(id: Tree) -> Seq<char> {
    match written(id) {
        Some(text) => text,
        None => "null"@,
    }
}

/// A document that reads back still does with one more member.
pub broadcast proof fn a_document_stays_readable_with_a_member(tree: Tree, key: Seq<char>, value: Tree, levels: nat)
    requires
        tree.takes_members(),
        levels > 0,
        reads_back(tree, levels),
        reads_back(value, (levels - 1) as nat),
    ensures
        #[trigger] reads_back(tree.put(key, value), levels),
{
    let more = tree.put(key, value)->Object_0;
    assert forall|k: Seq<char>| #[trigger] more.contains_key(k) implies reads_back(more[k], (levels - 1) as nat) by {
        if k != key {
            assert(tree->Object_0.contains_key(k));
        }
    }
}

/// The arrays and objects of a document that reads back lie no deeper in each other than is read.
pub proof fn a_readable_document_is_shallow(tree: Tree, levels: nat)
    requires
        reads_back(tree, levels),
    ensures
        nests(tree, levels),
    decreases tree,
{
    match tree {
        Tree::Array(items) => {
            assert forall|i: int| 0 <= i < items.len() implies nests(#[trigger] items[i], (levels - 1) as nat) by {
                assert(decreases_to!(tree => tree->Array_0));
                assert(decreases_to!(tree->Array_0 => tree->Array_0[i]));
                a_readable_document_is_shallow(items[i], (levels - 1) as nat);
            }
        },
        Tree::Object(members) => {
            assert forall|key: Seq<char>| #[trigger] members.contains_key(key) implies nests(
                members[key],
                (levels - 1) as nat,
            ) by {
                assert(decreases_to!(tree => tree->Object_0[key]));
                a_readable_document_is_shallow(members[key], (levels - 1) as nat);
            }
        },
        _ => {},
    }
}

/// A document gets no deeper by one member less.
pub broadcast proof fn a_document_stays_shallow_without_a_member(tree: Tree, key: Seq<char>, levels: nat)
    requires
        nests(tree, levels),
    ensures
        #[trigger] nests(tree.without(key), levels),
{
    if tree is Object {
        let less = tree.without(key)->Object_0;
        assert forall|k: Seq<char>| #[trigger] less.contains_key(k) implies nests(less[k], (levels - 1) as nat) by {
            assert(tree->Object_0.contains_key(k));
        }
    }
}

/// A document gets no deeper by a member that does not lie deep in itself.
pub broadcast proof fn a_document_stays_shallow_with_a_member(tree: Tree, key: Seq<char>, value: Tree, levels: nat)
    requires
        tree.takes_members(),
        levels > 0,
        nests(tree, levels),
        nests(value, (levels - 1) as nat),
    ensures
        #[trigger] nests(tree.put(key, value), levels),
{
    let more = tree.put(key, value)->Object_0;
    assert forall|k: Seq<char>| #[trigger] more.contains_key(k) implies nests(more[k], (levels - 1) as nat) by {
        if k != key {
            assert(tree->Object_0.contains_key(k));
        }
    }
}

/// The document in a text is what the text holds; a text that holds none counts as an object without
/// members.
pub proof fn the_document_in_a_text_is_what_it_holds(text: Seq<char>, tree: Tree, key: Seq<char>)
    ensures
        parsed(text) == Ok::<Tree, Seq<char>>(tree) ==> document(text) == tree,
        parsed(text) is Err ==> document(text) is Object && document(text).get(key) is None,
{
}

/// A request is kept under the text of its id.
pub proof fn a_request_is_kept_under_the_text_of_its_id(id: Tree, text: Seq<char>)
    ensures
        written(id) == Some(text) ==> key_of(id) == text,
        written(id) is None ==> key_of(id) == "null"@,
{
}

} // verus!
