//! Paths, by their components.
use vstd::prelude::*;

use crate::text::{after_slash, chars_of, copied};

verus! {

/// A name that counts as a component: neither empty nor a single dot.
pub open spec fn counts(name: Seq<char>) -> bool {
    name.len() > 0 && name != seq!['.']
}

/// The components with one more, where it counts.
pub open spec fn with_name(names: Seq<Seq<char>>, name: Seq<char>) -> Seq<Seq<char>> {
    if counts(name) {
        names.push(name)
    } else {
        names
    }
}

/// The names that end with a slash.
pub open spec fn closed_names(path: Seq<char>) -> Seq<Seq<char>>
    decreases path.len(),
{
    if path.len() == 0 {
        Seq::empty()
    } else if path.last() == '/' {
        with_name(closed_names(path.drop_last()), after_slash(path.drop_last()))
    } else {
        closed_names(path.drop_last())
    }
}

/// The names between the slashes.
pub open spec fn names(path: Seq<char>) -> Seq<Seq<char>> {
    with_name(closed_names(path), after_slash(path))
}

/// Where a path starts: at the root, or expressly at the current directory, or neither.
pub open spec fn origin(path: Seq<char>) -> Seq<Seq<char>> {
    if path.len() > 0 && path[0] == '/' {
        seq![seq!['/']]
    } else if path.len() > 0 && path[0] == '.' && (path.len() == 1 || path[1] == '/') {
        seq![seq!['.']]
    } else {
        Seq::empty()
    }
}

/// The components of a path: repeated and trailing slashes do not count, nor do single dots
/// other than the one that a path starts with.
pub open spec fn components(path: Seq<char>) -> Seq<Seq<char>> {
    origin(path) + names(path)
}

pub open spec fn is_prefix<T>(a: Seq<T>, b: Seq<T>) -> bool {
    a.len() <= b.len() && b.take(a.len() as int) == a
}

/// The paths name the same place, or the first lies below the second and that is asked for.
pub open spec fn within(root: Seq<char>, cwd: Seq<char>, recursive: bool) -> bool {
    components(cwd) == components(root) || (recursive && is_prefix(components(root), components(cwd)))
}

pub open spec fn deep(parts: Seq<Vec<char>>) -> Seq<Seq<char>> {
    parts.map_values(|part: Vec<char>| part@)
}

fn is_counted(name: &Vec<char>) -> (r: bool)
    ensures
        r == counts(name@),
{
    if name.len() == 0 {
        false
    } else if name.len() == 1 && name[0] == '.' {
        proof {
            assert(name@ =~= seq!['.']);
        }
        false
    } else {
        proof {
            if name@ == seq!['.'] {
                assert(name@.len() == 1 && name@[0] == '.');
            }
        }
        true
    }
}

fn path_components(path: &str) -> (r: Vec<Vec<char>>)
    ensures
        deep(r@) == components(path@),
{
    let chars = chars_of(path);
    let mut parts: Vec<Vec<char>> = Vec::new();
    if chars.len() > 0 && chars[0] == '/' {
        parts.push(vec!['/']);
        proof {
            assert(parts@[0]@ =~= seq!['/']);
        }
    } else if chars.len() > 0 && chars[0] == '.' && (chars.len() == 1 || chars[1] == '/') {
        parts.push(vec!['.']);
        proof {
            assert(parts@[0]@ =~= seq!['.']);
        }
    }
    proof {
        assert(deep(parts@) =~= origin(path@));
        assert(deep(parts@) =~= origin(path@) + closed_names(chars@.take(0)));
    }
    let mut current: Vec<char> = Vec::new();
    let mut i: usize = 0;
    while i < chars.len()
        invariant
            i <= chars@.len(),
            current@ == after_slash(chars@.take(i as int)),
            deep(parts@) == origin(path@) + closed_names(chars@.take(i as int)),
        decreases chars@.len() - i,
    {
        proof {
            assert(chars@.take(i + 1).drop_last() =~= chars@.take(i as int));
        }
        let ghost prior = parts@;
        if chars[i] == '/' {
            if is_counted(&current) {
                let name = copied(&current);
                parts.push(name);
                proof {
                    assert(deep(parts@) =~= deep(prior).push(name@));
                    assert(deep(parts@) =~= origin(path@) + closed_names(chars@.take(i as int)).push(name@));
                }
            }
            current = Vec::new();
        } else {
            current.push(chars[i]);
        }
        i = i + 1;
    }
    proof {
        assert(chars@.take(i as int) =~= path@);
    }
    let ghost prior = parts@;
    if is_counted(&current) {
        let ghost name = current@;
        parts.push(current);
        proof {
            assert(deep(parts@) =~= deep(prior).push(name));
            assert(deep(parts@) =~= origin(path@) + closed_names(path@).push(name));
        }
    }
    parts
}

fn same_chars(a: &Vec<char>, b: &Vec<char>) -> (r: bool)
    ensures
        r == (a@ == b@),
{
    if a.len() != b.len() {
        return false;
    }
    let mut i: usize = 0;
    while i < a.len()
        invariant
            i <= a@.len(),
            a@.len() == b@.len(),
            forall|j: int| 0 <= j < i ==> a@[j] == b@[j],
        decreases a@.len() - i,
    {
        if a[i] != b[i] {
            return false;
        }
        i = i + 1;
    }
    proof {
        assert(a@ =~= b@);
    }
    true
}

/// Whether `cwd` is the directory `root`, or lies below it where `recursive` is set. The paths are
/// compared component by component, so a longer name next to `root` does not match.
pub fn workspace_matches(root: &str, cwd: &str, recursive: bool) -> (r: bool)
    ensures
        r == within(root@, cwd@, recursive),
{
    let base = path_components(root);
    let path = path_components(cwd);
    if base.len() > path.len() || (base.len() < path.len() && !recursive) {
        proof {
            assert(deep(base@).len() != deep(path@).len());
        }
        return false;
    }
    let mut i: usize = 0;
    while i < base.len()
        invariant
            i <= base@.len() <= path@.len(),
            deep(base@) == components(root@),
            deep(path@) == components(cwd@),
            forall|j: int| 0 <= j < i ==> #[trigger] deep(path@)[j] == deep(base@)[j],
        decreases base@.len() - i,
    {
        if !same_chars(&base[i], &path[i]) {
            proof {
                assert(deep(path@)[i as int] != deep(base@)[i as int]);
                if is_prefix(components(root@), components(cwd@)) {
                    assert(deep(path@).take(deep(base@).len() as int)[i as int] == deep(base@)[i as int]);
                }
            }
            return false;
        }
        i = i + 1;
    }
    proof {
        assert(deep(path@).take(deep(base@).len() as int) =~= deep(base@));
        if base@.len() == path@.len() {
            assert(deep(path@) =~= deep(base@));
        }
    }
    true
}

/// A path below a directory, by the name that it has there.
pub open spec fn joined(directory: Seq<char>, name: Seq<char>) -> Seq<char> {
    if directory.len() == 0 || directory.last() == '/' {
        directory + name
    } else {
        directory.push('/') + name
    }
}

/// The path of the entry `name`, which is relative, of a directory.
fn join(directory: &str, name: &str) -> (r: String)
    ensures
        r@ == joined(directory@, name@),
{
    let chars = chars_of(directory);
    let mut r = directory.to_owned();
    if chars.len() > 0 && chars[chars.len() - 1] != '/' {
        r.push('/');
    }
    r.append(name);
    r
}

/// The socket that the app-server under `codex_home` is controlled by.
pub fn control_socket_path(codex_home: &str) -> (r: String)
    ensures
        r@ == joined(joined(codex_home@, "app-server-control"@), "app-server-control.sock"@),
{
    join(join(codex_home, "app-server-control").as_str(), "app-server-control.sock")
}

/// The directory that Codex keeps its data in, by what `CODEX_HOME` and `HOME` say.
pub open spec fn codex_home(codex_home: Option<Seq<char>>, home: Option<Seq<char>>) -> Seq<char> {
    match (codex_home, home) {
        (Some(path), _) => path,
        (None, Some(home)) => joined(home, ".codex"@),
        (None, None) => ".codex"@,
    }
}

/// The directory that Codex keeps its data in: `CODEX_HOME` where it is set, else `.codex` below
/// `HOME`, else `.codex`.
pub fn default_codex_home(codex_home: Option<String>, home: Option<String>) -> (r: String)
    ensures
        r@ == self::codex_home(crate::text::opt_string(codex_home), crate::text::opt_string(home)),
{
    match codex_home {
        Some(path) => path,
        None => match home {
            Some(home) => join(home.as_str(), ".codex"),
            None => ".codex".to_owned(),
        },
    }
}

/// A name of a directory entry: it has no slash, and is neither empty nor `.`.
pub open spec fn is_entry(name: Seq<char>) -> bool {
    counts(name) && !name.contains('/')
}

proof fn lemma_appended(path: Seq<char>, more: Seq<char>)
    requires
        !more.contains('/'),
    ensures
        closed_names(path + more) == closed_names(path),
        after_slash(path + more) == after_slash(path) + more,
    decreases more.len(),
{
    if more.len() == 0 {
        assert(path + more =~= path);
        assert(after_slash(path) + more =~= after_slash(path));
    } else {
        let front = more.drop_last();
        assert(more[more.len() - 1] != '/') by {
            if more[more.len() - 1] == '/' {
                assert(more.contains('/'));
            }
        }
        assert(!front.contains('/')) by {
            if front.contains('/') {
                let i = choose|i: int| 0 <= i < front.len() && front[i] == '/';
                assert(more[i] == '/');
            }
        }
        lemma_appended(path, front);
        assert((path + more).drop_last() =~= path + front);
        assert((path + more).last() == more.last());
        assert(after_slash(path) + more =~= (after_slash(path) + front).push(more.last()));
    }
}

/// A workspace covers its root, and with everything below it the entries of every directory that it
/// covers; without, it covers none of the entries of its root.
pub proof fn a_workspace_covers_what_lies_below_it(root: Seq<char>, directory: Seq<char>, name: Seq<char>, recursive: bool)
    requires
        directory.len() > 0,
        is_entry(name),
    ensures
        within(root, root, recursive),
        within(root, directory, true) ==> within(root, directory.push('/') + name, true),
        !within(directory, directory.push('/') + name, false),
{
    let below = directory.push('/') + name;
    lemma_appended(directory.push('/'), name);
    assert(directory.push('/').drop_last() =~= directory);
    assert(after_slash(directory.push('/')) + name =~= name);
    assert(names(below) == names(directory).push(name));
    assert(below[0] == directory[0]);
    if directory.len() > 1 {
        assert(below[1] == directory[1]);
    } else {
        assert(below[1] == '/');
    }
    assert(components(below) =~= components(directory).push(name));
    if within(root, directory, true) {
        let base = components(root);
        let whole = components(directory);
        if whole == base {
            assert(components(below).take(base.len() as int) =~= base);
        } else {
            assert(components(below).take(base.len() as int) =~= whole.take(base.len() as int));
        }
    }
    assert(components(below).len() != components(directory).len());
}

/// A workspace does not cover a directory whose name only starts like that of its root.
pub proof fn a_longer_name_is_another_directory(root: Seq<char>, more: Seq<char>, recursive: bool)
    requires
        counts(after_slash(root)),
        more.len() > 0,
        !more.contains('/'),
    ensures
        !within(root, root + more, recursive),
{
    lemma_appended(root, more);
    let name = after_slash(root);
    let longer = root + more;
    assert(name + more != name) by {
        assert((name + more).len() != name.len());
    }
    assert(counts(name + more)) by {
        assert((name + more).len() != seq!['.'].len());
    }
    assert(root.len() > 0);
    assert(longer[0] == root[0]);
    if root.len() == 1 {
        lemma_one_name(root);
        assert(more[0] != '/') by {
            if more[0] == '/' {
                assert(more.contains('/'));
            }
        }
    } else {
        assert(longer[1] == root[1]);
    }
    let a = components(root);
    let b = components(longer);
    assert(a =~= (origin(root) + closed_names(root)).push(name));
    assert(b =~= (origin(longer) + closed_names(root)).push(name + more));
    assert(origin(longer) == origin(root));
    assert(a.len() == b.len());
    assert(a.last() != b.last());
    if is_prefix(a, b) {
        assert(b.take(a.len() as int) =~= b);
    }
}

proof fn lemma_one_name(root: Seq<char>)
    requires
        root.len() == 1,
        counts(after_slash(root)),
    ensures
        root[0] != '/',
        root[0] != '.',
{
    let empty = root.drop_last();
    assert(empty.len() == 0);
    if root[0] == '/' {
        assert(after_slash(root).len() == 0);
    } else {
        assert(after_slash(empty).len() == 0);
        assert(after_slash(root) =~= seq![root[0]]);
    }
}

/// The directory that Codex keeps its data in is the one that `CODEX_HOME` names, else `.codex` in the
/// home of the user, else `.codex`. Between a directory and the name of an entry stands one slash.
pub proof fn codex_keeps_its_data_at_home(home: Seq<char>, path: Seq<char>, other: Option<Seq<char>>, name: Seq<char>)
    ensures
        codex_home(Some(path), other) == path,
        codex_home(None, Some(home)) == joined(home, ".codex"@),
        codex_home(None, None) == ".codex"@,
        path.len() > 0 && path.last() != '/' ==> joined(path, name) == path + seq!['/'] + name,
        joined(path.push('/'), name) == path + seq!['/'] + name,
        joined(Seq::<char>::empty(), name) == name,
{
    if path.len() > 0 && path.last() != '/' {
        assert(joined(path, name) =~= path + seq!['/'] + name);
    }
    assert(joined(path.push('/'), name) =~= path + seq!['/'] + name);
    assert(joined(Seq::<char>::empty(), name) =~= name);
}

/// One more slash at the end of a path makes no difference.
pub proof fn a_slash_at_the_end_makes_no_difference(path: Seq<char>)
    requires
        path.len() > 0,
    ensures
        components(path.push('/')) == components(path),
{
    let longer = path.push('/');
    assert(longer.drop_last() =~= path);
    assert(longer[0] == path[0]);
    if path.len() > 1 {
        assert(longer[1] == path[1]);
    } else {
        assert(longer[1] == '/');
    }
    assert(after_slash(longer).len() == 0);
    assert(names(longer) == names(path));
}

/// A workspace that does not cover everything below its root covers its root alone, by whatever path. One
/// that does covers more, and what is below a directory below its root as well; of two that cover each
/// other's roots, the roots are the same.
pub proof fn covering_is_being_below(a: Seq<char>, b: Seq<char>, c: Seq<char>)
    ensures
        within(a, b, false) <==> components(a) == components(b),
        within(a, b, false) ==> within(a, b, true),
        within(a, b, true) && within(b, c, true) ==> within(a, c, true),
        within(a, b, true) && within(b, a, true) ==> within(a, b, false),
        within(a, b, true) <==> components(a).len() <= components(b).len() && forall|i: int|
            0 <= i < components(a).len() ==> #[trigger] components(a)[i] == components(b)[i],
{
    let x = components(a);
    let y = components(b);
    let z = components(c);
    if within(a, b, true) {
        assert(y.take(x.len() as int) =~= x);
        assert(forall|i: int| 0 <= i < x.len() ==> #[trigger] x[i] == y.take(x.len() as int)[i]);
        if within(b, c, true) {
            assert(z.take(y.len() as int) =~= y);
            assert(z.take(x.len() as int) =~= z.take(y.len() as int).take(x.len() as int));
        }
        if within(b, a, true) {
            assert(x.take(y.len() as int) =~= y);
            assert(x.take(y.len() as int) =~= x);
        }
    }
    if x.len() <= y.len() && forall|i: int| 0 <= i < x.len() ==> #[trigger] x[i] == y[i] {
        assert(y.take(x.len() as int) =~= x);
    }
}

} // verus!
