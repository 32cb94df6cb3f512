//! The few things the supervisor reads off a path's text.
//!
//! A path is slash-separated; trailing slashes and trailing `.` components say nothing.
use vstd::prelude::*;

use crate::text::{cat2, cat3, chars_of};

verus! {

/// `p` without the slashes and dots that say nothing at its end.
pub open spec fn settled(p: Seq<char>) -> Seq<char>
    decreases p.len(),
{
    if p.len() >= 2 && p.last() == '/' {
        settled(p.drop_last())
    } else if p.len() >= 2 && p.last() == '.' && p[p.len() - 2] == '/' {
        settled(p.drop_last())
    } else {
        p
    }
}

/// Where the last component of `p` begins.
pub open spec fn last_at(p: Seq<char>) -> int
    decreases p.len(),
{
    if p.len() == 0 {
        0
    } else if p.last() == '/' {
        p.len() as int
    } else {
        last_at(p.drop_last())
    }
}

/// The last component of `p`.
pub open spec fn last_of(p: Seq<char>) -> Seq<char> {
    settled(p).skip(last_at(settled(p)))
}

/// The directory `p` is in; `None` for a path that is in none.
pub open spec fn parent_of(p: Seq<char>) -> Option<Seq<char>> {
    let s = settled(p);
    if last_at(s) == s.len() {
        None
    } else {
        Some(settled(s.take(last_at(s))))
    }
}

/// How much of the first `n` characters [`settled`] keeps.
fn settled_len(v: &Vec<char>, n: usize) -> (k: usize)
    requires
        n <= v.len(),
    ensures
        k <= n,
        settled(v@.take(n as int)) == v@.take(k as int),
{
    let mut k: usize = n;
    while k >= 2 && (v[k - 1] == '/' || (v[k - 1] == '.' && v[k - 2] == '/'))
        invariant
            k <= n,
            n <= v.len(),
            settled(v@.take(n as int)) == settled(v@.take(k as int)),
        decreases k,
    {
        assert(v@.take(k as int).drop_last() =~= v@.take(k - 1));
        k = k - 1;
    }
    k
}

/// Where the last component of the first `n` characters begins.
fn last_component(v: &Vec<char>, n: usize) -> (k: usize)
    requires
        n <= v.len(),
    ensures
        k <= n,
        k == last_at(v@.take(n as int)),
{
    let mut k: usize = n;
    while k > 0 && v[k - 1] != '/'
        invariant
            k <= n,
            n <= v.len(),
            last_at(v@.take(n as int)) == last_at(v@.take(k as int)),
        decreases k,
    {
        assert(v@.take(k as int).drop_last() =~= v@.take(k - 1));
        k = k - 1;
    }
    k
}

/// [`parent_of`], as text.
pub fn parent(p: &str) -> (r: Option<String>)
    ensures
        match r {
            Some(d) => parent_of(p@) == Some(d@),
            None => parent_of(p@) is None,
        },
{
    let v = chars_of(p);
    assert(v@.take(v@.len() as int) =~= v@);
    let n: usize = settled_len(&v, v.len());
    let c: usize = last_component(&v, n);
    if c == n {
        return None;
    }
    let k: usize = settled_len(&v, c);
    proof {
        assert(v@.take(n as int).take(c as int) =~= v@.take(c as int));
        assert(p@.subrange(0, k as int) =~= v@.take(k as int));
    }
    Some(p.substring_char(0, k).to_string())
}

/// Whether the last component of `p` is `.git`.
fn is_git_dir(p: &str) -> (r: bool)
    ensures
        r == (last_of(p@) == ".git"@),
{
    let v = chars_of(p);
    assert(v@.take(v@.len() as int) =~= v@);
    let n: usize = settled_len(&v, v.len());
    let c: usize = last_component(&v, n);
    proof {
        reveal_strlit(".git");
        assert(last_of(p@) =~= v@.subrange(c as int, n as int));
    }
    let r = n - c == 4 && v[c] == '.' && v[c + 1] == 'g' && v[c + 2] == 'i' && v[c + 3] == 't';
    proof {
        let l = last_of(p@);
        if r {
            assert(l =~= ".git"@);
        } else if l == ".git"@ {
            assert(l.len() == 4);
            assert(l[0] == v@[c as int]);
            assert(l[1] == v@[c + 1]);
            assert(l[2] == v@[c + 2]);
            assert(l[3] == v@[c + 3]);
        }
    }
    r
}

/// Settling never lengthens a path.
proof fn lemma_settled_shrinks(p: Seq<char>)
    ensures
        settled(p).len() <= p.len(),
    decreases p.len(),
{
    if p.len() >= 2 && (p.last() == '/' || (p.last() == '.' && p[p.len() - 2] == '/')) {
        lemma_settled_shrinks(p.drop_last());
    }
}

/// The last component begins inside the path.
proof fn lemma_last_at(p: Seq<char>)
    ensures
        0 <= last_at(p) <= p.len(),
    decreases p.len(),
{
    if p.len() > 0 && p.last() != '/' {
        lemma_last_at(p.drop_last());
    }
}

/// A path is longer than the directory it is in.
proof fn lemma_parent_shrinks(p: Seq<char>)
    ensures
        parent_of(p) matches Some(d) ==> d.len() < p.len(),
{
    let s = settled(p);
    lemma_settled_shrinks(p);
    lemma_last_at(s);
    lemma_settled_shrinks(s.take(last_at(s)));
}

/// What `p` names, component by component, from where it begins.
pub open spec fn components(p: Seq<char>) -> Seq<Seq<char>>
    decreases p.len(),
    via components_decreases
{
    match parent_of(p) {
        None => seq![settled(p)],
        Some(d) => components(d).push(last_of(p)),
    }
}

#[via_fn]
proof fn components_decreases(p: Seq<char>) {
    lemma_parent_shrinks(p);
}

proof fn lemma_components_begin(p: Seq<char>)
    ensures
        components(p).len() >= 1,
        parent_of(p) is Some ==> components(p).len() >= 2,
    decreases p.len(),
{
    lemma_parent_shrinks(p);
    if let Some(d) = parent_of(p) {
        lemma_components_begin(d);
    }
}

/// The last component of `p`, as text.
fn last(p: &str) -> (r: String)
    ensures
        r@ == last_of(p@),
{
    let v = chars_of(p);
    assert(v@.take(v@.len() as int) =~= v@);
    let n: usize = settled_len(&v, v.len());
    let c: usize = last_component(&v, n);
    assert(last_of(p@) =~= p@.subrange(c as int, n as int));
    p.substring_char(c, n).to_string()
}

/// `p` without what says nothing at its end, as text.
fn settle(p: &str) -> (r: String)
    ensures
        r@ == settled(p@),
{
    let v = chars_of(p);
    assert(v@.take(v@.len() as int) =~= v@);
    let n: usize = settled_len(&v, v.len());
    assert(p@.subrange(0, n as int) =~= v@.take(n as int));
    p.substring_char(0, n).to_string()
}

/// Whether two texts name one path.
pub fn same_path(a: &str, b: &str) -> (r: bool)
    ensures
        r == (components(a@) == components(b@)),
    decreases a@.len(),
{
    proof {
        lemma_parent_shrinks(a@);
        lemma_components_begin(a@);
        lemma_components_begin(b@);
    }
    match (parent(a), parent(b)) {
        (None, None) => {
            let x = settle(a);
            let y = settle(b);
            proof {
                assert(components(a@)[0] == x@);
                assert(components(b@)[0] == y@);
                if x@ == y@ {
                    assert(components(a@) =~= components(b@));
                }
            }
            x == y
        },
        (Some(x), Some(y)) => {
            let same_end = last(a) == last(b);
            proof {
                let ca = components(x@);
                let cb = components(y@);
                assert(components(a@) == ca.push(last_of(a@)));
                assert(components(b@) == cb.push(last_of(b@)));
                assert(components(a@).drop_last() =~= ca);
                assert(components(b@).drop_last() =~= cb);
                assert(components(a@).last() == last_of(a@));
                assert(components(b@).last() == last_of(b@));
            }
            same_end && same_path(x.as_str(), y.as_str())
        },
        _ => false,
    }
}

/// The working tree a resumed root runs in: the directory that holds the project's `.git`, or the
/// project root itself where it is not a `.git` directory.
pub open spec fn working_tree(project_root: Seq<char>) -> Seq<char> {
    if last_of(project_root) == ".git"@ {
        match parent_of(project_root) {
            Some(d) => d,
            None => project_root,
        }
    } else {
        project_root
    }
}

/// [`working_tree`], as text. A harness resumes a session only from the directory it was created
/// in, so this is the working tree and not the directory the project is keyed on.
pub fn resumable_root_cwd(project_root: &str) -> (cwd: String)
    ensures
        cwd@ == working_tree(project_root@),
{
    if is_git_dir(project_root) {
        match parent(project_root) {
            Some(d) => d,
            None => project_root.to_string(),
        }
    } else {
        project_root.to_string()
    }
}

/// `name` in the directory `dir`.
pub open spec fn joined(dir: Seq<char>, name: Seq<char>) -> Seq<char> {
    if dir.len() == 0 {
        name
    } else if dir.last() == '/' {
        dir + name
    } else {
        dir + "/"@ + name
    }
}

/// [`joined`], as text.
pub fn join(dir: &str, name: &str) -> (p: String)
    ensures
        p@ == joined(dir@, name@),
{
    let v = chars_of(dir);
    if v.len() == 0 {
        name.to_string()
    } else if v[v.len() - 1] == '/' {
        cat2(dir, name)
    } else {
        cat3(dir, "/", name)
    }
}

/// The socket beside a journal.
pub open spec fn socket_beside(journal: Seq<char>) -> Seq<char> {
    match parent_of(journal) {
        Some(d) => joined(d, "supervisor.sock"@),
        None => "supervisor.sock"@,
    }
}

/// [`socket_beside`], as text.
pub fn socket_path(journal: &str) -> (p: String)
    ensures
        p@ == socket_beside(journal@),
{
    match parent(journal) {
        Some(d) => join(d.as_str(), "supervisor.sock"),
        None => "supervisor.sock".to_string(),
    }
}

/// A path whose last component is neither empty nor a dot says nothing idle at its end.
proof fn lemma_settled(dir: Seq<char>, name: Seq<char>)
    requires
        name.len() > 0,
        !name.contains('/'),
        name != seq!['.'],
    ensures
        settled(dir + seq!['/'] + name) == dir + seq!['/'] + name,
        last_at(dir + seq!['/'] + name) == dir.len() + 1,
{
    let p = dir + seq!['/'] + name;
    assert(p.last() == name.last());
    assert(name.contains(name.last()));
    if p.last() == '.' && p[p.len() - 2] == '/' {
        if name.len() == 1 {
            assert(name =~= seq!['.']);
        } else {
            assert(p[p.len() - 2] == name[name.len() - 2]);
            assert(name.contains(name[name.len() - 2]));
        }
    }
    lemma_last_at_before(dir + seq!['/'], name);
    assert((dir + seq!['/']).last() == '/');
}

/// Where the last component begins does not depend on what it is.
proof fn lemma_last_at_before(p: Seq<char>, name: Seq<char>)
    requires
        !name.contains('/'),
    ensures
        last_at(p + name) == last_at(p),
    decreases name.len(),
{
    if name.len() > 0 {
        assert((p + name).drop_last() =~= p + name.drop_last());
        assert(name.contains(name.last()));
        assert(!name.drop_last().contains('/')) by {
            if name.drop_last().contains('/') {
                let i = choose|i: int|
                    0 <= i < name.drop_last().len() && name.drop_last()[i] == '/';
                assert(name[i] == '/');
            }
        }
        lemma_last_at_before(p, name.drop_last());
    } else {
        assert(p + name =~= p);
    }
}

/// A file is in its directory: the socket is beside the journal, a root whose project is kept in a
/// `.git` directory works in the directory that holds it, and any other project is its own working
/// tree.
pub proof fn law_a_file_is_in_its_directory(dir: Seq<char>, name: Seq<char>)
    requires
        dir.len() > 0,
        dir.last() != '/',
        !(dir.len() >= 2 && dir.last() == '.' && dir[dir.len() - 2] == '/'),
        name.len() > 0,
        !name.contains('/'),
        name != seq!['.'],
    ensures
        parent_of(dir + seq!['/'] + name) == Some(dir),
        last_of(dir + seq!['/'] + name) == name,
        socket_beside(dir + seq!['/'] + name) == dir + "/"@ + "supervisor.sock"@,
        name == ".git"@ ==> working_tree(dir + seq!['/'] + name) == dir,
        name != ".git"@ ==> working_tree(dir + seq!['/'] + name) == dir + seq!['/'] + name,
        components(dir + seq!['/'] + name) == components(dir).push(name),
{
    let p = dir + seq!['/'] + name;
    lemma_settled(dir, name);
    let d = dir + seq!['/'];
    assert(p.take(d.len() as int) =~= d);
    assert(p.skip(d.len() as int) =~= name);
    assert(d.drop_last() =~= dir);
    reveal_with_fuel(settled, 3);
    assert(settled(d) == dir);
}

} // verus!
