use crate::diff::{find, find_from, find_name, listed};
use crate::schema::{has_name, names_unique, paths_distinct, Package, State};
use vstd::prelude::*;

verus! {

/// Why a desired state cannot be built.
#[derive(Clone, Debug, PartialEq, Eq)]
pub enum Error {
    /// A package to install or keep has no manifest.
    UnknownPackage(String),
    /// Two file records of the desired state have the same target path.
    ConflictingTarget(String),
}

/// Whether `v` holds `s`.
pub fn contains(v: &Vec<String>, s: &String) -> (r: bool)
    ensures
        r == listed(v@, s@),
{
    let mut k: usize = 0;
    while k < v.len()
        invariant
            0 <= k <= v@.len(),
            forall|m: int| 0 <= m < k ==> v@[m]@ != s@,
        decreases v@.len() - k,
    {
        if v[k] == *s {
            return true;
        }
        k = k + 1;
    }
    false
}

/// A name belongs to the desired state when the previous state or the
/// install list names it and the remove list does not.
pub open spec fn wanted<T>(
    b: Seq<Package<T>>,
    install: Seq<String>,
    remove: Seq<String>,
    name: Seq<char>,
) -> bool {
    (has_name(b, name) || listed(install, name)) && !listed(remove, name)
}

pub open spec fn strings_unique(v: Seq<String>) -> bool {
    forall|k: int, l: int| 0 <= k < v.len() && 0 <= l < v.len() && k != l ==> #[trigger] v[k]@ != #[trigger] v[l]@
}

/// Pushes `s` unless `out` holds it already.
fn push_new(out: &mut Vec<String>, s: &String)
    requires
        strings_unique(old(out)@),
    ensures
        strings_unique(final(out)@),
        forall|n: Seq<char>| #[trigger] listed(final(out)@, n) <==> (listed(old(out)@, n) || n == s@),
{
    if !contains(out, s) {
        let ghost prev = out@;
        out.push(s.clone());
        assert(out@ == prev.push(out@.last()));
        assert forall|n: Seq<char>| #[trigger] listed(out@, n) <==> (listed(prev, n) || n == s@) by {
            if listed(prev, n) {
                let m = choose|m: int| 0 <= m < prev.len() && #[trigger] prev[m]@ == n;
                assert(out@[m] == prev[m]);
            }
            if n == s@ {
                assert(out@[prev.len() as int]@ == n);
            }
        }
    }
}

/// The names of the desired state: those of the previous state, in its
/// order, then those to install, in theirs, each once, without those to
/// remove.
pub fn desired_names<T>(before: &State<T>, install: &Vec<String>, remove: &Vec<String>) -> (r: Vec<
    String,
>)
    ensures
        strings_unique(r@),
        forall|name: Seq<char>|
            #[trigger] listed(r@, name) <==> wanted(before.packages@, install@, remove@, name),
{
    let ghost b = before.packages@;
    let mut out: Vec<String> = Vec::new();
    let mut i: usize = 0;
    while i < before.packages.len()
        invariant
            b == before.packages@,
            0 <= i <= b.len(),
            strings_unique(out@),
            forall|name: Seq<char>|
                #[trigger] listed(out@, name) <==> (exists|k: int|
                    0 <= k < i && #[trigger] b[k].name@ == name) && !listed(remove@, name),
        decreases b.len() - i,
    {
        let name = &before.packages[i].name;
        if !contains(remove, name) {
            push_new(&mut out, name);
        }
        assert forall|n: Seq<char>| #[trigger] listed(out@, n) <==> (exists|k: int|
            0 <= k < i + 1 && #[trigger] b[k].name@ == n) && !listed(remove@, n) by {
            if n == b[i as int].name@ {
            } else {
                if exists|k: int| 0 <= k < i + 1 && #[trigger] b[k].name@ == n {
                    let k = choose|k: int| 0 <= k < i + 1 && #[trigger] b[k].name@ == n;
                    assert(k < i);
                }
            }
        }
        i = i + 1;
    }
    let mut j: usize = 0;
    while j < install.len()
        invariant
            b == before.packages@,
            0 <= j <= install@.len(),
            strings_unique(out@),
            forall|name: Seq<char>|
                #[trigger] listed(out@, name) <==> (has_name(b, name) || exists|k: int|
                    0 <= k < j && #[trigger] install@[k]@ == name) && !listed(remove@, name),
        decreases install@.len() - j,
    {
        let name = &install[j];
        if !contains(remove, name) {
            push_new(&mut out, name);
        }
        assert forall|n: Seq<char>| #[trigger] listed(out@, n) <==> (has_name(b, n) || exists|k: int|
            0 <= k < j + 1 && #[trigger] install@[k]@ == n) && !listed(remove@, n) by {
            if n != install@[j as int]@ {
                if exists|k: int| 0 <= k < j + 1 && #[trigger] install@[k]@ == n {
                    let k = choose|k: int| 0 <= k < j + 1 && #[trigger] install@[k]@ == n;
                    assert(k < j);
                }
            }
        }
        j = j + 1;
    }
    out
}

/// Whether the file record at `(i, j)` shares its path with another record.
pub open spec fn shared<C>(ps: Seq<Package<C>>, i: int, j: int) -> bool {
    exists|k: int, l: int|
        0 <= k < ps.len() && 0 <= l < ps[k].files@.len() && (k != i || l != j)
            && #[trigger] ps[k].files@[l].0@ == ps[i].files@[j].0@
}

fn shares_path<C>(ps: &Vec<Package<C>>, i: usize, j: usize) -> (r: bool)
    requires
        i < ps@.len(),
        j < ps@[i as int].files@.len(),
    ensures
        r == shared(ps@, i as int, j as int),
{
    let path = &ps[i].files[j].0;
    let mut k: usize = 0;
    while k < ps.len()
        invariant
            i < ps@.len(),
            j < ps@[i as int].files@.len(),
            *path == ps@[i as int].files@[j as int].0,
            0 <= k <= ps@.len(),
            forall|k2: int, l: int|
                0 <= k2 < k && 0 <= l < ps@[k2].files@.len() && (k2 != i || l != j) ==> #[trigger] ps@[k2].files@[l].0@
                    != path@,
        decreases ps@.len() - k,
    {
        let files = &ps[k].files;
        let mut l: usize = 0;
        while l < files.len()
            invariant
                i < ps@.len(),
                j < ps@[i as int].files@.len(),
                *path == ps@[i as int].files@[j as int].0,
                0 <= k < ps@.len(),
                *files == ps@[k as int].files,
                0 <= l <= files@.len(),
                forall|k2: int, l2: int|
                    0 <= k2 < k && 0 <= l2 < ps@[k2].files@.len() && (k2 != i || l2 != j) ==> #[trigger] ps@[k2].files@[l2].0@
                        != path@,
                forall|l2: int| 0 <= l2 < l && (k != i || l2 != j) ==> #[trigger] files@[l2].0@ != path@,
            decreases files@.len() - l,
        {
            if (k != i || l != j) && files[l].0 == *path {
                assert(ps@[k as int].files@[l as int].0@ == ps@[i as int].files@[j as int].0@);
                return true;
            }
            l = l + 1;
        }
        k = k + 1;
    }
    false
}

/// A target path that two file records share, if there is one.
pub fn conflict<C>(ps: &Vec<Package<C>>) -> (r: Option<String>)
    ensures
        r is None <==> paths_distinct(ps@),
        r matches Some(p) ==> exists|i: int, j: int|
            0 <= i < ps@.len() && 0 <= j < ps@[i].files@.len() && shared(ps@, i, j)
                && #[trigger] ps@[i].files@[j].0@ == p@,
{
    let mut i: usize = 0;
    while i < ps.len()
        invariant
            0 <= i <= ps@.len(),
            forall|i2: int, j2: int|
                0 <= i2 < i && 0 <= j2 < ps@[i2].files@.len() ==> !#[trigger] shared(ps@, i2, j2),
        decreases ps@.len() - i,
    {
        let mut j: usize = 0;
        while j < ps[i].files.len()
            invariant
                0 <= i < ps@.len(),
                0 <= j <= ps@[i as int].files@.len(),
                forall|i2: int, j2: int|
                    0 <= i2 < i && 0 <= j2 < ps@[i2].files@.len() ==> !#[trigger] shared(ps@, i2, j2),
                forall|j2: int| 0 <= j2 < j ==> !#[trigger] shared(ps@, i as int, j2),
            decreases ps@[i as int].files@.len() - j,
        {
            if shares_path(ps, i, j) {
                let p = ps[i].files[j].0.clone();
                assert(ps@[i as int].files@[j as int].0@ == p@);
                return Some(p);
            }
            j = j + 1;
        }
        i = i + 1;
    }
    assert forall|i2: int, j2: int, k: int, l: int|
        0 <= i2 < ps@.len() && 0 <= k < ps@.len() && 0 <= j2 < ps@[i2].files@.len() && 0 <= l
            < ps@[k].files@.len() && (i2 != k || j2 != l) implies #[trigger] ps@[i2].files@[j2].0@
        != #[trigger] ps@[k].files@[l].0@ by {
        assert(!shared(ps@, i2, j2));
    }
    None
}

/// The packages of `av` named in `names`, in the order of `av`, each name
/// taken from its first package.
pub open spec fn selected<C>(av: Seq<Package<C>>, names: Seq<String>, n: int) -> Seq<Package<C>>
    decreases n,
{
    if n <= 0 {
        seq![]
    } else if listed(names, av[n - 1].name@) && find(av, av[n - 1].name@) == Some((n - 1) as usize) {
        selected(av, names, n - 1).push(av[n - 1])
    } else {
        selected(av, names, n - 1)
    }
}

/// The first name of `names` that no package of `av` has.
pub open spec fn first_unknown<C>(av: Seq<Package<C>>, names: Seq<String>, k: int) -> Option<int>
    decreases names.len() - k,
{
    if k < 0 || k >= names.len() {
        None
    } else if !has_name(av, names[k]@) {
        Some(k)
    } else {
        first_unknown(av, names, k + 1)
    }
}

proof fn lemma_find_some<C>(ps: Seq<Package<C>>, name: Seq<char>, k: int)
    requires
        0 <= k,
        ps.len() <= usize::MAX,
    ensures
        find_from(ps, name, k) is Some <==> exists|i: int| k <= i < ps.len() && #[trigger] ps[i].name@ == name,
        find_from(ps, name, k) matches Some(i) ==> k <= i < ps.len() && ps[i as int].name@ == name,
    decreases ps.len() - k,
{
    if k < ps.len() && ps[k].name@ != name {
        lemma_find_some(ps, name, k + 1);
        assert forall|i: int| k <= i < ps.len() && #[trigger] ps[i].name@ == name implies k + 1 <= i by {}
    }
}

/// Resolves each name of `names` to its package among those available.
/// Fails with the first name that no package has, then with a path that two
/// file records of the result share. The result keeps the order of
/// `available`.
pub fn resolve(names: &Vec<String>, available: Vec<Package<Vec<u8>>>) -> (r: Result<
    State<Vec<u8>>,
    Error,
>)
    ensures
        match first_unknown(available@, names@, 0) {
            Some(k) => r == Err::<State<Vec<u8>>, Error>(Error::UnknownPackage(names@[k])),
            None => {
                let ps = selected(available@, names@, available@.len() as int);
                &&& names_unique(ps)
                &&& match r {
                    Ok(s) => s.packages@ == ps && paths_distinct(ps),
                    Err(Error::ConflictingTarget(p)) => !paths_distinct(ps) && exists|i: int, j: int|
                        0 <= i < ps.len() && 0 <= j < ps[i].files@.len() && shared(ps, i, j)
                            && #[trigger] ps[i].files@[j].0@ == p@,
                    Err(_) => false,
                }
            },
        },
{
    let ghost av = available@;
    let mut k: usize = 0;
    while k < names.len()
        invariant
            av == available@,
            0 <= k <= names@.len(),
            first_unknown(av, names@, 0) == first_unknown(av, names@, k as int),
        decreases names@.len() - k,
    {
        let found = find_name(&available, &names[k]);
        proof {
            assert(av.len() == available.len());
            lemma_find_some(av, names@[k as int]@, 0);
        }
        if found.is_none() {
            return Err(Error::UnknownPackage(names[k].clone()));
        }
        k = k + 1;
    }
    let mut keep: Vec<bool> = Vec::new();
    let mut m: usize = 0;
    while m < available.len()
        invariant
            av == available@,
            0 <= m <= av.len(),
            keep@.len() == m,
            forall|x: int|
                0 <= x < m ==> #[trigger] keep@[x] == (listed(names@, av[x].name@) && find(av, av[x].name@)
                    == Some(x as usize)),
        decreases av.len() - m,
    {
        let name = &available[m].name;
        let first = match find_name(&available, name) {
            Some(x) => x == m,
            None => false,
        };
        keep.push(contains(names, name) && first);
        m = m + 1;
    }
    let mut rest = available;
    let mut out: Vec<Package<Vec<u8>>> = Vec::new();
    let mut x: usize = 0;
    while x < keep.len()
        invariant
            keep@.len() == av.len(),
            forall|y: int|
                0 <= y < av.len() ==> #[trigger] keep@[y] == (listed(names@, av[y].name@) && find(av, av[y].name@)
                    == Some(y as usize)),
            0 <= x <= av.len(),
            rest@ == av.skip(x as int),
            out@ == selected(av, names@, x as int),
            names_unique(out@),
            forall|y: int|
                0 <= y < out@.len() ==> (find(av, #[trigger] out@[y].name@) matches Some(z) && z < x),
        decreases av.len() - x,
    {
        let package = rest.remove(0);
        assert(package == av[x as int]);
        if keep[x] {
            let ghost prev = out@;
            out.push(package);
            assert forall|y: int| 0 <= y < out@.len() implies (find(av, #[trigger] out@[y].name@) matches Some(z) && z < x + 1) by {
                if y < prev.len() {
                    assert(out@[y] == prev[y]);
                }
            }
            assert forall|y: int, z: int| 0 <= y < out@.len() && 0 <= z < out@.len() && y != z implies #[trigger] out@[y].name@
                != #[trigger] out@[z].name@ by {
                if y < prev.len() && z < prev.len() {
                    assert(out@[y] == prev[y] && out@[z] == prev[z]);
                } else if y < prev.len() {
                    assert(out@[y] == prev[y]);
                } else if z < prev.len() {
                    assert(out@[z] == prev[z]);
                }
            }
        }
        assert(rest@ =~= av.skip(x + 1));
        x = x + 1;
    }
    match conflict(&out) {
        Some(p) => Err(Error::ConflictingTarget(p)),
        None => Ok(State { packages: out }),
    }
}

} // verus!
