//! Lists of names without repetition.
use vstd::prelude::*;

use crate::text::{all_chars, before, before_is_strict, before_is_transitive, is_before, same};

verus! {

/// The list with a name, at its end where it was not there.
pub open spec fn with_name(names: Seq<Seq<char>>, name: Seq<char>) -> Seq<Seq<char>> {
    if names.contains(name) {
        names
    } else {
        names.push(name)
    }
}

pub fn has_name(names: &Vec<String>, name: &str) -> (r: bool)
    ensures
        r == all_chars(names@).contains(name@),
{
    let ghost all = all_chars(names@);
    let mut i: usize = 0;
    while i < names.len()
        invariant
            i <= names@.len(),
            all == all_chars(names@),
            forall|j: int| 0 <= j < i ==> #[trigger] all[j] != name@,
        decreases names@.len() - i,
    {
        if same(names[i].as_str(), name) {
            proof {
                assert(all[i as int] == name@);
            }
            return true;
        }
        i = i + 1;
    }
    false
}

/// Adds a name where it is not there, and says whether it was added.
pub fn add_name(names: &mut Vec<String>, name: &str) -> (r: bool)
    ensures
        r == !all_chars(old(names)@).contains(name@),
        all_chars(final(names)@) == with_name(all_chars(old(names)@), name@),
{
    if has_name(names, name) {
        return false;
    }
    let ghost prior = names@;
    names.push(name.to_owned());
    proof {
        assert(all_chars(names@) =~= all_chars(prior).push(name@));
    }
    true
}

/// Adds a name at the end.
pub fn push_name(names: &mut Vec<String>, name: &str)
    ensures
        all_chars(final(names)@) == all_chars(old(names)@).push(name@),
{
    let ghost prior = names@;
    names.push(name.to_owned());
    proof {
        assert(all_chars(names@) =~= all_chars(prior).push(name@));
    }
}

pub fn copy_names(names: &Vec<String>) -> (r: Vec<String>)
    ensures
        all_chars(r@) == all_chars(names@),
{
    let ghost all = all_chars(names@);
    let mut r: Vec<String> = Vec::new();
    let mut i: usize = 0;
    proof {
        assert(all_chars(r@) =~= all.take(0));
    }
    while i < names.len()
        invariant
            i <= names@.len(),
            all == all_chars(names@),
            all_chars(r@) == all.take(i as int),
        decreases names@.len() - i,
    {
        push_name(&mut r, names[i].as_str());
        proof {
            assert(all.take(i + 1) =~= all.take(i as int).push(all[i as int]));
        }
        i = i + 1;
    }
    proof {
        assert(all.take(i as int) =~= all);
    }
    r
}

/// The names of a list that are not on another.
pub open spec fn missing(names: Seq<Seq<char>>, seen: Seq<Seq<char>>) -> Seq<Seq<char>> {
    names.filter(|name: Seq<char>| !seen.contains(name))
}

pub fn missing_names(names: &Vec<String>, seen: &Vec<String>) -> (r: Vec<String>)
    ensures
        all_chars(r@) == missing(all_chars(names@), all_chars(seen@)),
{
    let ghost all = all_chars(names@);
    let ghost wanted = |name: Seq<char>| !all_chars(seen@).contains(name);
    let mut r: Vec<String> = Vec::new();
    let mut i: usize = 0;
    proof {
        reveal(Seq::filter);
        assert(all_chars(r@) =~= all.take(0).filter(wanted));
    }
    while i < names.len()
        invariant
            i <= names@.len(),
            all == all_chars(names@),
            wanted == (|name: Seq<char>| !all_chars(seen@).contains(name)),
            all_chars(r@) == all.take(i as int).filter(wanted),
        decreases names@.len() - i,
    {
        proof {
            reveal(Seq::filter);
            assert(all.take(i + 1).drop_last() =~= all.take(i as int));
            assert(all.take(i + 1).last() == names@[i as int]@);
        }
        if !has_name(seen, names[i].as_str()) {
            push_name(&mut r, names[i].as_str());
        }
        i = i + 1;
    }
    proof {
        assert(all.take(i as int) =~= all);
    }
    r
}

/// An ascending list with one more name.
pub open spec fn filed(names: Seq<Seq<char>>, name: Seq<char>) -> Seq<Seq<char>>
    decreases names.len(),
{
    if names.len() == 0 || before(names.last(), name) {
        names.push(name)
    } else if names.last() == name {
        names
    } else {
        filed(names.drop_last(), name).push(names.last())
    }
}

/// The names of a list in ascending order, each once.
pub open spec fn sorted(names: Seq<Seq<char>>) -> Seq<Seq<char>>
    decreases names.len(),
{
    if names.len() == 0 {
        Seq::empty()
    } else {
        filed(sorted(names.drop_last()), names.last())
    }
}

/// Each name comes before the next one.
pub open spec fn ascending(names: Seq<Seq<char>>) -> bool {
    forall|i: int, j: int| 0 <= i < j < names.len() ==> before(#[trigger] names[i], #[trigger] names[j])
}

proof fn lemma_filed(names: Seq<Seq<char>>, name: Seq<char>)
    requires
        ascending(names),
    ensures
        ascending(filed(names, name)),
        forall|x: Seq<char>| #[trigger] filed(names, name).contains(x) <==> names.contains(x) || x == name,
    decreases names.len(),
{
    let r = filed(names, name);
    if names.len() == 0 || before(names.last(), name) {
        assert forall|i: int, j: int| 0 <= i < j < r.len() implies before(#[trigger] r[i], #[trigger] r[j]) by {
            if j == names.len() && i < names.len() - 1 {
                before_is_transitive(names[i], names.last(), name);
            }
        }
        assert forall|x: Seq<char>| #[trigger] r.contains(x) <==> names.contains(x) || x == name by {
            if names.contains(x) {
                let i = choose|i: int| 0 <= i < names.len() && names[i] == x;
                assert(r[i] == x);
            }
            assert(r[names.len() as int] == name);
        }
    } else if names.last() == name {
        assert(names[names.len() - 1] == name);
    } else {
        let front = names.drop_last();
        let last = names.last();
        lemma_filed(front, name);
        let inner = filed(front, name);
        before_is_total(name, last);
        assert forall|i: int, j: int| 0 <= i < j < r.len() implies before(#[trigger] r[i], #[trigger] r[j]) by {
            if j == inner.len() {
                assert(inner.contains(inner[i]));
                if inner[i] != name {
                    let k = choose|k: int| 0 <= k < front.len() && front[k] == inner[i];
                    assert(before(names[k], names[names.len() - 1]));
                }
            }
        }
        assert forall|x: Seq<char>| #[trigger] r.contains(x) <==> names.contains(x) || x == name by {
            if r.contains(x) {
                let i = choose|i: int| 0 <= i < r.len() && r[i] == x;
                if i < inner.len() {
                    assert(inner.contains(x));
                    if x != name {
                        let k = choose|k: int| 0 <= k < front.len() && front[k] == x;
                        assert(names[k] == x);
                    }
                } else {
                    assert(names[names.len() - 1] == x);
                }
            }
            if names.contains(x) {
                let i = choose|i: int| 0 <= i < names.len() && names[i] == x;
                if i < front.len() {
                    assert(front[i] == x);
                    assert(inner.contains(x));
                    let k = choose|k: int| 0 <= k < inner.len() && inner[k] == x;
                    assert(r[k] == x);
                } else {
                    assert(r[inner.len() as int] == x);
                }
            }
            if x == name {
                assert(inner.contains(x));
                let k = choose|k: int| 0 <= k < inner.len() && inner[k] == x;
                assert(r[k] == x);
            }
        }
    }
}

/// Of two strings one comes before the other, or they are the same.
pub proof fn before_is_total(a: Seq<char>, b: Seq<char>)
    ensures
        a == b || before(a, b) || before(b, a),
    decreases a.len(),
{
    if a.len() == 0 {
        if b.len() == 0 {
            assert(a =~= b);
        } else {
            assert(crate::text::branches(a, b, 0));
        }
    } else if b.len() == 0 {
        assert(crate::text::branches(b, a, 0));
    } else if a[0] != b[0] {
        let p = a[0];
        let q = b[0];
        vstd::utf8::char_u32_cast(p, p as u32);
        vstd::utf8::char_u32_cast(q, q as u32);
        if (p as u32) < (q as u32) {
            assert(crate::text::branches(a, b, 0));
        } else {
            assert(crate::text::branches(b, a, 0));
        }
    } else {
        let x = a.drop_first();
        let y = b.drop_first();
        before_is_total(x, y);
        if x == y {
            assert(a =~= seq![a[0]] + x);
            assert(b =~= seq![b[0]] + y);
        } else if before(x, y) {
            let n = choose|at: int| #[trigger] crate::text::branches(x, y, at);
            assert forall|i: int| 0 <= i < n + 1 implies a[i] == b[i] by {
                if i > 0 {
                    assert(x[i - 1] == y[i - 1]);
                }
            }
            assert(crate::text::branches(a, b, n + 1));
        } else {
            let n = choose|at: int| #[trigger] crate::text::branches(y, x, at);
            assert forall|i: int| 0 <= i < n + 1 implies b[i] == a[i] by {
                if i > 0 {
                    assert(y[i - 1] == x[i - 1]);
                }
            }
            assert(crate::text::branches(b, a, n + 1));
        }
    }
}

/// A sorted list ascends, and has the names of the list that it was made from.
pub proof fn a_sorted_list_ascends(names: Seq<Seq<char>>)
    ensures
        ascending(sorted(names)),
        forall|x: Seq<char>| #[trigger] sorted(names).contains(x) <==> names.contains(x),
    decreases names.len(),
{
    if names.len() > 0 {
        let front = names.drop_last();
        a_sorted_list_ascends(front);
        lemma_filed(sorted(front), names.last());
        assert forall|x: Seq<char>| #[trigger] sorted(names).contains(x) <==> names.contains(x) by {
            if names.contains(x) {
                let i = choose|i: int| 0 <= i < names.len() && names[i] == x;
                if i < front.len() {
                    assert(front[i] == x);
                    assert(sorted(front).contains(x));
                }
            }
            if sorted(names).contains(x) {
                if x != names.last() {
                    assert(sorted(front).contains(x));
                    let i = choose|i: int| 0 <= i < front.len() && front[i] == x;
                    assert(names[i] == x);
                } else {
                    assert(names[names.len() - 1] == x);
                }
            }
        }
    }
}

fn file_name(names: &Vec<String>, name: &str) -> (r: Vec<String>)
    ensures
        all_chars(r@) == filed(all_chars(names@), name@),
{
    let ghost all = all_chars(names@);
    let mut at: usize = names.len();
    proof {
        assert(all.take(at as int) =~= all);
        assert(all.skip(at as int) =~= Seq::<Seq<char>>::empty());
        assert(filed(all.take(at as int), name@) + all.skip(at as int) =~= filed(all, name@));
    }
    while at > 0 && is_before(name, names[at - 1].as_str())
        invariant
            at <= names@.len(),
            all == all_chars(names@),
            filed(all, name@) == filed(all.take(at as int), name@) + all.skip(at as int),
        decreases at,
    {
        proof {
            let front = all.take(at as int);
            assert(front.last() == names@[at - 1]@);
            before_is_strict(name@, front.last());
            assert(front.last() != name@);
            assert(front.drop_last() =~= all.take(at - 1));
            assert(filed(front, name@) == filed(all.take(at - 1), name@).push(front.last()));
            assert(filed(front, name@) + all.skip(at as int) =~= filed(all.take(at - 1), name@) + all.skip(at - 1));
        }
        at = at - 1;
    }
    let ghost front = all.take(at as int);
    let mut r: Vec<String> = Vec::new();
    let mut i: usize = 0;
    proof {
        assert(all_chars(r@) =~= all.take(0));
    }
    while i < at
        invariant
            i <= at <= names@.len(),
            all == all_chars(names@),
            all_chars(r@) == all.take(i as int),
        decreases at - i,
    {
        push_name(&mut r, names[i].as_str());
        proof {
            assert(all.take(i + 1) =~= all.take(i as int).push(all[i as int]));
        }
        i = i + 1;
    }
    if at == 0 || !same(names[at - 1].as_str(), name) {
        proof {
            if at > 0 {
                assert(front.last() == names@[at - 1]@);
            }
            assert(filed(front, name@) == front.push(name@));
        }
        push_name(&mut r, name);
    } else {
        proof {
            assert(front.last() == names@[at - 1]@);
            before_is_strict(name@, name@);
            assert(filed(front, name@) == front);
        }
    }
    let ghost whole = filed(front, name@);
    proof {
        assert(all.skip(at as int).take(0) =~= Seq::<Seq<char>>::empty());
        assert(whole + Seq::<Seq<char>>::empty() =~= whole);
    }
    while i < names.len()
        invariant
            at <= i <= names@.len(),
            all == all_chars(names@),
            all_chars(r@) == whole + all.skip(at as int).take(i - at),
        decreases names@.len() - i,
    {
        push_name(&mut r, names[i].as_str());
        proof {
            let rest = all.skip(at as int);
            assert(rest[i - at] == all[i as int]);
            assert(rest.take(i - at + 1) =~= rest.take(i - at).push(all[i as int]));
            assert((whole + rest.take(i - at)).push(all[i as int]) =~= whole + rest.take(i - at + 1));
        }
        i = i + 1;
    }
    proof {
        assert(all.skip(at as int).take(i - at) =~= all.skip(at as int));
    }
    r
}

/// The names of a list in ascending order, each once.
pub fn sort_names(names: &Vec<String>) -> (r: Vec<String>)
    ensures
        all_chars(r@) == sorted(all_chars(names@)),
{
    let ghost all = all_chars(names@);
    let mut r: Vec<String> = Vec::new();
    let mut i: usize = 0;
    proof {
        assert(all_chars(r@) =~= sorted(all.take(0)));
    }
    while i < names.len()
        invariant
            i <= names@.len(),
            all == all_chars(names@),
            all_chars(r@) == sorted(all.take(i as int)),
        decreases names@.len() - i,
    {
        proof {
            assert(all.take(i + 1).drop_last() =~= all.take(i as int));
            assert(all.take(i + 1).last() == names@[i as int]@);
        }
        r = file_name(&r, names[i].as_str());
        i = i + 1;
    }
    proof {
        assert(all.take(i as int) =~= all);
    }
    r
}

/// A name that is added is on the list once, after the others, which stay where they are.
pub proof fn a_name_is_added_once(names: Seq<Seq<char>>, name: Seq<char>)
    ensures
        with_name(names, name).contains(name),
        names.contains(name) ==> with_name(names, name) == names,
        !names.contains(name) ==> with_name(names, name) == names.push(name),
{
    if !names.contains(name) {
        assert(names.push(name)[names.len() as int] == name);
    }
}

/// The names that are missing from a list are in their order those that are not on it.
pub proof fn what_is_missing_is_on_the_first_list_only(names: Seq<Seq<char>>, more: Seq<char>, seen: Seq<Seq<char>>)
    ensures
        missing(Seq::<Seq<char>>::empty(), seen).len() == 0,
        seen.contains(more) ==> missing(names.push(more), seen) == missing(names, seen),
        !seen.contains(more) ==> missing(names.push(more), seen) == missing(names, seen).push(more),
{
    reveal(Seq::filter);
    assert(names.push(more).drop_last() =~= names);
    assert(names.push(more).last() == more);
}

} // verus!
