use crate::digest::digest_eq;
use crate::schema::{claimed, metas, names_unique, owns, File, Package, State};
use vstd::prelude::*;

verus! {

/// How a package moves from the previous state to the desired one.
#[derive(Clone, Copy, Debug, PartialEq, Eq, Structural)]
pub enum Disposition {
    Unchanged,
    Install,
    Remove,
    Upgrade,
}

/// One package of the plan, with its index in the previous state (`before`)
/// and in the desired state (`after`).
#[derive(Clone, Debug)]
pub struct Change {
    pub name: String,
    pub disposition: Disposition,
    pub before: Option<usize>,
    pub after: Option<usize>,
}

pub type ChangeV = (Seq<char>, Disposition, Option<usize>, Option<usize>);

impl View for Change {
    type V = ChangeV;

    open spec fn view(&self) -> ChangeV {
        (self.name@, self.disposition, self.before, self.after)
    }
}

pub open spec fn change_views(cs: Seq<Change>) -> Seq<ChangeV> {
    cs.map_values(|c: Change| c@)
}

/// The disposition of a package present in `before`, `after`, or both.
pub open spec fn disposition_of<T, C>(
    before: Option<Package<T>>,
    after: Option<Package<C>>,
) -> Option<Disposition> {
    match (before, after) {
        (Some(b), Some(a)) => if metas(b.files@) == metas(a.files@) {
            Some(Disposition::Unchanged)
        } else {
            Some(Disposition::Upgrade)
        },
        (Some(_), None) => Some(Disposition::Remove),
        (None, Some(_)) => Some(Disposition::Install),
        (None, None) => None,
    }
}

/// The first index at or after `k` of a package named `name`.
pub open spec fn find_from<T>(ps: Seq<Package<T>>, name: Seq<char>, k: int) -> Option<usize>
    decreases ps.len() - k,
{
    if k < 0 || k >= ps.len() {
        None
    } else if ps[k].name@ == name {
        Some(k as usize)
    } else {
        find_from(ps, name, k + 1)
    }
}

/// The index of the first package named `name`.
pub open spec fn find<T>(ps: Seq<Package<T>>, name: Seq<char>) -> Option<usize> {
    find_from(ps, name, 0)
}

pub open spec fn at<T>(ps: Seq<Package<T>>, i: Option<usize>) -> Option<Package<T>> {
    match i {
        Some(i) => if i < ps.len() {
            Some(ps[i as int])
        } else {
            None
        },
        None => None,
    }
}

/// What the package at index `i` of the previous state adds to the plan.
pub open spec fn previous_item<T, C>(b: Seq<Package<T>>, a: Seq<Package<C>>, i: int) -> Seq<
    ChangeV,
> {
    let j = find(a, b[i].name@);
    match disposition_of(Some(b[i]), at(a, j)) {
        Some(Disposition::Unchanged) => seq![],
        Some(d) => seq![(b[i].name@, d, Some(i as usize), j)],
        None => seq![],
    }
}

/// What the package at index `j` of the desired state adds to the plan: only
/// a package that the previous state lacks.
pub open spec fn desired_item<T, C>(b: Seq<Package<T>>, a: Seq<Package<C>>, j: int) -> Seq<
    ChangeV,
> {
    if find(b, a[j].name@) is None {
        seq![(a[j].name@, Disposition::Install, None, Some(j as usize))]
    } else {
        seq![]
    }
}

pub open spec fn previous_part<T, C>(b: Seq<Package<T>>, a: Seq<Package<C>>, n: int) -> Seq<
    ChangeV,
>
    decreases n,
{
    if n <= 0 {
        seq![]
    } else {
        previous_part(b, a, n - 1) + previous_item(b, a, n - 1)
    }
}

pub open spec fn desired_part<T, C>(b: Seq<Package<T>>, a: Seq<Package<C>>, n: int) -> Seq<
    ChangeV,
>
    decreases n,
{
    if n <= 0 {
        seq![]
    } else {
        desired_part(b, a, n - 1) + desired_item(b, a, n - 1)
    }
}

/// The plan: every package of the previous state that is removed or changed,
/// in its order, then every package new in the desired state, in its order.
/// Unchanged packages are left out.
pub open spec fn plan_spec<T, C>(b: Seq<Package<T>>, a: Seq<Package<C>>) -> Seq<ChangeV> {
    previous_part(b, a, b.len() as int) + desired_part(b, a, a.len() as int)
}

/// Whether two file lists have the same `(path, digest, mode)` sequence.
pub fn files_equal<T, C>(b: &Vec<(String, File<T>)>, a: &Vec<(String, File<C>)>) -> (r: bool)
    ensures
        r == (metas(b@) == metas(a@)),
{
    if b.len() != a.len() {
        assert(metas(b@).len() != metas(a@).len());
        return false;
    }
    let mut j: usize = 0;
    while j < b.len()
        invariant
            b@.len() == a@.len(),
            0 <= j <= b@.len(),
            forall|k: int| 0 <= k < j ==> metas(b@)[k] == metas(a@)[k],
        decreases b@.len() - j,
    {
        let same = b[j].0 == a[j].0 && digest_eq(&b[j].1.sha1, &a[j].1.sha1) && b[j].1.mode
            == a[j].1.mode;
        if !same {
            assert(metas(b@)[j as int] != metas(a@)[j as int]);
            return false;
        }
        j = j + 1;
    }
    assert(metas(b@) =~= metas(a@));
    true
}

/// Classifies a package by its presence and files on each side.
pub fn classify<T, C>(before: Option<&Package<T>>, after: Option<&Package<C>>) -> (r: Option<
    Disposition,
>)
    ensures
        r == disposition_of(
            match before {
                Some(b) => Some(*b),
                None => None,
            },
            match after {
                Some(a) => Some(*a),
                None => None,
            },
        ),
{
    match (before, after) {
        (Some(b), Some(a)) => if files_equal(&b.files, &a.files) {
            Some(Disposition::Unchanged)
        } else {
            Some(Disposition::Upgrade)
        },
        (Some(_), None) => Some(Disposition::Remove),
        (None, Some(_)) => Some(Disposition::Install),
        (None, None) => None,
    }
}

/// The index of the first package named `name`.
pub fn find_name<T>(ps: &Vec<Package<T>>, name: &String) -> (r: Option<usize>)
    ensures
        r == find(ps@, name@),
{
    let mut i: usize = 0;
    while i < ps.len()
        invariant
            0 <= i <= ps@.len(),
            find(ps@, name@) == find_from(ps@, name@, i as int),
        decreases ps@.len() - i,
    {
        if ps[i].name == *name {
            return Some(i);
        }
        i = i + 1;
    }
    None
}

/// Whether `p` lists `path`.
pub fn owns_path<T>(p: &Package<T>, path: &String) -> (r: bool)
    ensures
        r == owns(*p, path@),
{
    let mut j: usize = 0;
    while j < p.files.len()
        invariant
            0 <= j <= p.files@.len(),
            forall|l: int| 0 <= l < j ==> p.files@[l].0@ != path@,
        decreases p.files@.len() - j,
    {
        if p.files[j].0 == *path {
            return true;
        }
        j = j + 1;
    }
    false
}

/// Whether some package of `ps` lists `path`.
pub fn claims<T>(ps: &Vec<Package<T>>, path: &String) -> (r: bool)
    ensures
        r == claimed(ps@, path@),
{
    let mut i: usize = 0;
    while i < ps.len()
        invariant
            0 <= i <= ps@.len(),
            forall|k: int| 0 <= k < i ==> !owns(#[trigger] ps@[k], path@),
        decreases ps@.len() - i,
    {
        if owns_path(&ps[i], path) {
            return true;
        }
        i = i + 1;
    }
    false
}

/// Compares the previous state with the desired one, package by package.
pub fn plan<T, C>(before: &State<T>, after: &State<C>) -> (r: Vec<Change>)
    ensures
        change_views(r@) == plan_spec(before.packages@, after.packages@),
{
    let ghost b = before.packages@;
    let ghost a = after.packages@;
    let mut changes: Vec<Change> = Vec::new();
    let mut i: usize = 0;
    while i < before.packages.len()
        invariant
            b == before.packages@,
            a == after.packages@,
            0 <= i <= b.len(),
            change_views(changes@) == previous_part(b, a, i as int),
        decreases b.len() - i,
    {
        let package = &before.packages[i];
        let j = find_name(&after.packages, &package.name);
        proof {
            if j is Some {
                assert(a.len() == after.packages.len());
                lemma_find_in_range(a, package.name@, 0);
            }
        }
        let other = match j {
            Some(j) => Some(&after.packages[j]),
            None => None,
        };
        let d = classify(Some(package), other);
        let ghost old_changes = changes@;
        match d {
            Some(Disposition::Unchanged) => {},
            Some(d) => {
                changes.push(
                    Change { name: package.name.clone(), disposition: d, before: Some(i), after: j },
                );
            },
            None => {},
        }
        assert(change_views(changes@) =~= change_views(old_changes) + previous_item(b, a, i as int));
        i = i + 1;
    }
    let ghost first = changes@;
    let mut j: usize = 0;
    while j < after.packages.len()
        invariant
            b == before.packages@,
            a == after.packages@,
            0 <= j <= a.len(),
            change_views(first) == previous_part(b, a, b.len() as int),
            change_views(changes@) == change_views(first) + desired_part(b, a, j as int),
        decreases a.len() - j,
    {
        let package = &after.packages[j];
        let ghost old_changes = changes@;
        if find_name(&before.packages, &package.name).is_none() {
            changes.push(
                Change {
                    name: package.name.clone(),
                    disposition: Disposition::Install,
                    before: None,
                    after: Some(j),
                },
            );
        }
        assert(change_views(changes@) =~= change_views(old_changes) + desired_item(b, a, j as int));
        j = j + 1;
    }
    changes
}

proof fn lemma_find_in_range<T>(ps: Seq<Package<T>>, name: Seq<char>, k: int)
    requires
        0 <= k,
        ps.len() <= usize::MAX,
        find_from(ps, name, k) is Some,
    ensures
        (find_from(ps, name, k)->0 as int) < ps.len(),
        ps[find_from(ps, name, k)->0 as int].name@ == name,
    decreases ps.len() - k,
{
    if k < ps.len() && ps[k].name@ != name {
        lemma_find_in_range(ps, name, k + 1);
    }
}

/// Whether `out` holds `path`.
pub open spec fn listed(out: Seq<String>, path: Seq<char>) -> bool {
    exists|m: int| 0 <= m < out.len() && #[trigger] out[m]@ == path
}

proof fn lemma_listed_push(out: Seq<String>, x: String)
    ensures
        listed(out.push(x), x@),
        forall|path: Seq<char>| listed(out, path) ==> #[trigger] listed(out.push(x), path),
{
    assert(out.push(x)[out.len() as int] == x);
    assert forall|path: Seq<char>| listed(out, path) implies #[trigger] listed(out.push(x), path) by {
        let m = choose|m: int| 0 <= m < out.len() && #[trigger] out[m]@ == path;
        assert(out.push(x)[m] == out[m]);
    }
}

/// Every path that a package of `b` lists and no package of `a` lists.
pub open spec fn is_orphan<T, C>(b: Seq<Package<T>>, a: Seq<Package<C>>, path: Seq<char>) -> bool {
    claimed(b, path) && !claimed(a, path)
}

/// The paths that the previous state manages and that no package of the
/// desired state claims, whichever package used to own them.
pub fn orphans<T, C>(before: &State<T>, after: &State<C>) -> (r: Vec<String>)
    ensures
        forall|k: int|
            0 <= k < r@.len() ==> is_orphan(before.packages@, after.packages@, #[trigger] r@[k]@),
        forall|path: Seq<char>|
            is_orphan(before.packages@, after.packages@, path) ==> exists|k: int|
                0 <= k < r@.len() && #[trigger] r@[k]@ == path,
{
    let ghost b = before.packages@;
    let ghost a = after.packages@;
    let mut out: Vec<String> = Vec::new();
    let mut i: usize = 0;
    while i < before.packages.len()
        invariant
            b == before.packages@,
            a == after.packages@,
            0 <= i <= b.len(),
            forall|k: int| 0 <= k < out@.len() ==> is_orphan(b, a, #[trigger] out@[k]@),
            forall|k: int, l: int|
                0 <= k < i && 0 <= l < b[k].files@.len() && !claimed(a, #[trigger] b[k].files@[l].0@)
                    ==> listed(out@, b[k].files@[l].0@),
        decreases b.len() - i,
    {
        let files = &before.packages[i].files;
        let mut j: usize = 0;
        while j < files.len()
            invariant
                b == before.packages@,
                a == after.packages@,
                0 <= i < b.len(),
                files@ == b[i as int].files@,
                0 <= j <= files@.len(),
                forall|k: int| 0 <= k < out@.len() ==> is_orphan(b, a, #[trigger] out@[k]@),
                forall|k: int, l: int|
                    0 <= k < i && 0 <= l < b[k].files@.len() && !claimed(a, #[trigger] b[k].files@[l].0@)
                        ==> listed(out@, b[k].files@[l].0@),
                forall|l: int|
                    0 <= l < j && !claimed(a, #[trigger] files@[l].0@)
                        ==> listed(out@, files@[l].0@),
            decreases files@.len() - j,
        {
            let path = &files[j].0;
            if !claims(&after.packages, path) {
                proof {
                    assert(owns(b[i as int], path@));
                    assert(claimed(b, path@));
                }
                let ghost old_out = out@;
                out.push(path.clone());
                proof {
                    lemma_listed_push(old_out, out@.last());
                    assert(out@ == old_out.push(out@.last()));
                }
            }
            j = j + 1;
        }
        i = i + 1;
    }
    proof {
        assert forall|path: Seq<char>| is_orphan(b, a, path) implies exists|k: int|
            0 <= k < out@.len() && #[trigger] out@[k]@ == path by {
            let k = choose|k: int| 0 <= k < b.len() && #[trigger] owns(b[k], path);
            let l = choose|l: int| 0 <= l < b[k].files@.len() && #[trigger] b[k].files@[l].0@ == path;
            assert(!claimed(a, b[k].files@[l].0@));
            assert(listed(out@, path));
        }
    }
    out
}

/// With unique names, the package named like the one at `i` is found at `i`.
pub proof fn lemma_find_unique<T>(ps: Seq<Package<T>>, i: int, k: int)
    requires
        names_unique(ps),
        0 <= k <= i < ps.len(),
        ps.len() <= usize::MAX,
    ensures
        find_from(ps, ps[i].name@, k) == Some(i as usize),
    decreases i - k,
{
    if k < i {
        lemma_find_unique(ps, i, k + 1);
    }
}

} // verus!
