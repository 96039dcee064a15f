use crate::diff::{
    at, desired_item, desired_part, find_from, is_orphan, lemma_find_unique, owns_path,
    plan_spec, previous_item, previous_part, Change, ChangeV,
};
use crate::schema::{claimed, metas, owns, File, Hook, Package, State};
use vstd::prelude::*;

verus! {

/// One mutating step of a run.
#[derive(Clone, Debug)]
pub enum Op {
    /// Run a lifecycle command from the home directory.
    Exec(Vec<String>),
    /// Delete the file at a path.
    Remove(String),
    /// Write content at a path, creating parent directories, then set the mode.
    Install(String, Vec<u8>, u32),
}

pub enum OpV {
    Exec(Seq<Seq<char>>),
    Remove(Seq<char>),
    Install(Seq<char>, Seq<u8>, u32),
}

impl View for Op {
    type V = OpV;

    open spec fn view(&self) -> OpV {
        match self {
            Op::Exec(c) => OpV::Exec(c.deep_view()),
            Op::Remove(p) => OpV::Remove(p@),
            Op::Install(p, c, m) => OpV::Install(p@, c@, *m),
        }
    }
}

pub open spec fn op_views(ops: Seq<Op>) -> Seq<OpV> {
    ops.map_values(|o: Op| o@)
}

/// The phases of a run, in the order in which they run.
#[derive(Clone, Copy, Debug, PartialEq, Eq, Structural)]
pub enum Phase {
    PreRemove,
    Remove,
    PostRemove,
    PreInstall,
    Install,
    PostInstall,
}

pub open spec fn hook_ops(hooks: Seq<Hook>) -> Seq<OpV> {
    hooks.map_values(|h: Hook| OpV::Exec(h.command.deep_view()))
}

pub open spec fn remove_ops<T>(files: Seq<(String, File<T>)>) -> Seq<OpV> {
    files.map_values(|e: (String, File<T>)| OpV::Remove(e.0@))
}

pub open spec fn install_ops(files: Seq<(String, File<Vec<u8>>)>) -> Seq<OpV> {
    files.map_values(|e: (String, File<Vec<u8>>)| OpV::Install(e.0@, e.1.extra@, e.1.mode))
}

/// The operations of one phase for one package of the plan. Removal phases
/// act on the package's previous snapshot, installation phases on its
/// desired one.
pub open spec fn phase_item<T>(
    b: Seq<Package<T>>,
    a: Seq<Package<Vec<u8>>>,
    c: Change,
    phase: Phase,
) -> Seq<OpV> {
    match phase {
        Phase::PreRemove => match at(b, c.before) {
            Some(p) => hook_ops(p.hooks.pre_remove@),
            None => seq![],
        },
        Phase::Remove => match at(b, c.before) {
            Some(p) => remove_ops(p.files@),
            None => seq![],
        },
        Phase::PostRemove => match at(b, c.before) {
            Some(p) => hook_ops(p.hooks.post_remove@),
            None => seq![],
        },
        Phase::PreInstall => match at(a, c.after) {
            Some(p) => hook_ops(p.hooks.pre_install@),
            None => seq![],
        },
        Phase::Install => match at(a, c.after) {
            Some(p) => install_ops(p.files@),
            None => seq![],
        },
        Phase::PostInstall => match at(a, c.after) {
            Some(p) => hook_ops(p.hooks.post_install@),
            None => seq![],
        },
    }
}

/// The operations of one phase across the first `n` packages of the plan.
pub open spec fn phase_ops<T>(
    b: Seq<Package<T>>,
    a: Seq<Package<Vec<u8>>>,
    cs: Seq<Change>,
    phase: Phase,
    n: int,
) -> Seq<OpV>
    decreases n,
{
    if n <= 0 {
        seq![]
    } else {
        phase_ops(b, a, cs, phase, n - 1) + phase_item(b, a, cs[n - 1], phase)
    }
}

pub open spec fn phase_all<T>(
    b: Seq<Package<T>>,
    a: Seq<Package<Vec<u8>>>,
    cs: Seq<Change>,
    phase: Phase,
) -> Seq<OpV> {
    phase_ops(b, a, cs, phase, cs.len() as int)
}

/// Whether the file-removal phase deletes `path`.
pub open spec fn removed<T>(b: Seq<Package<T>>, cs: Seq<Change>, path: Seq<char>) -> bool {
    exists|k: int|
        0 <= k < cs.len() && match at(b, #[trigger] cs[k].before) {
            Some(p) => owns(p, path),
            None => false,
        }
}

/// The orphans among the first `n` that the file-removal phase leaves.
pub open spec fn orphan_ops<T>(b: Seq<Package<T>>, cs: Seq<Change>, os: Seq<String>, n: int) -> Seq<
    OpV,
>
    decreases n,
{
    if n <= 0 {
        seq![]
    } else if removed(b, cs, os[n - 1]@) {
        orphan_ops(b, cs, os, n - 1)
    } else {
        orphan_ops(b, cs, os, n - 1).push(OpV::Remove(os[n - 1]@))
    }
}

/// Everything that takes a package's files away: hooks before, removal of
/// its previous files and of orphans, hooks after.
pub open spec fn removal_ops<T>(
    b: Seq<Package<T>>,
    a: Seq<Package<Vec<u8>>>,
    cs: Seq<Change>,
    os: Seq<String>,
) -> Seq<OpV> {
    phase_all(b, a, cs, Phase::PreRemove) + phase_all(b, a, cs, Phase::Remove) + orphan_ops(
        b,
        cs,
        os,
        os.len() as int,
    ) + phase_all(b, a, cs, Phase::PostRemove)
}

/// Everything that puts a package's files in place.
pub open spec fn installation_ops<T>(
    b: Seq<Package<T>>,
    a: Seq<Package<Vec<u8>>>,
    cs: Seq<Change>,
) -> Seq<OpV> {
    phase_all(b, a, cs, Phase::PreInstall) + phase_all(b, a, cs, Phase::Install) + phase_all(
        b,
        a,
        cs,
        Phase::PostInstall,
    )
}

/// The whole run, phase after phase.
pub open spec fn action_spec<T>(
    b: Seq<Package<T>>,
    a: Seq<Package<Vec<u8>>>,
    cs: Seq<Change>,
    os: Seq<String>,
) -> Seq<OpV> {
    removal_ops(b, a, cs, os) + installation_ops(b, a, cs)
}

fn push_op(ops: &mut Vec<Op>, op: Op)
    ensures
        op_views(final(ops)@) == op_views(old(ops)@).push(op@),
{
    let ghost v = op@;
    ops.push(op);
    assert(op_views(ops@) =~= op_views(old(ops)@).push(v));
}

fn push_hooks(ops: &mut Vec<Op>, hooks: &Vec<Hook>)
    ensures
        op_views(final(ops)@) == op_views(old(ops)@) + hook_ops(hooks@),
{
    let ghost start = op_views(ops@);
    let mut k: usize = 0;
    while k < hooks.len()
        invariant
            0 <= k <= hooks@.len(),
            op_views(ops@) == start + hook_ops(hooks@.take(k as int)),
        decreases hooks@.len() - k,
    {
        let command = hooks[k].command.clone();
        assert(command.deep_view() == hooks@[k as int].command.deep_view());
        push_op(ops, Op::Exec(command));
        assert(hook_ops(hooks@.take(k + 1)) =~= hook_ops(hooks@.take(k as int)).push(
            OpV::Exec(hooks@[k as int].command.deep_view()),
        ));
        k = k + 1;
    }
    assert(hooks@.take(hooks@.len() as int) =~= hooks@);
}

fn push_removes<T>(ops: &mut Vec<Op>, files: &Vec<(String, File<T>)>)
    ensures
        op_views(final(ops)@) == op_views(old(ops)@) + remove_ops(files@),
{
    let ghost start = op_views(ops@);
    let mut k: usize = 0;
    while k < files.len()
        invariant
            0 <= k <= files@.len(),
            op_views(ops@) == start + remove_ops(files@.take(k as int)),
        decreases files@.len() - k,
    {
        push_op(ops, Op::Remove(files[k].0.clone()));
        assert(remove_ops(files@.take(k + 1)) =~= remove_ops(files@.take(k as int)).push(
            OpV::Remove(files@[k as int].0@),
        ));
        k = k + 1;
    }
    assert(files@.take(files@.len() as int) =~= files@);
}

fn push_installs(ops: &mut Vec<Op>, files: &Vec<(String, File<Vec<u8>>)>)
    ensures
        op_views(final(ops)@) == op_views(old(ops)@) + install_ops(files@),
{
    let ghost start = op_views(ops@);
    let mut k: usize = 0;
    while k < files.len()
        invariant
            0 <= k <= files@.len(),
            op_views(ops@) == start + install_ops(files@.take(k as int)),
        decreases files@.len() - k,
    {
        let entry = &files[k];
        push_op(ops, Op::Install(entry.0.clone(), entry.1.extra.clone(), entry.1.mode));
        assert(install_ops(files@.take(k + 1)) =~= install_ops(files@.take(k as int)).push(
            OpV::Install(files@[k as int].0@, files@[k as int].1.extra@, files@[k as int].1.mode),
        ));
        k = k + 1;
    }
    assert(files@.take(files@.len() as int) =~= files@);
}

fn package_at<T>(ps: &Vec<Package<T>>, i: Option<usize>) -> (r: Option<&Package<T>>)
    ensures
        match r {
            Some(p) => at(ps@, i) == Some(*p),
            None => at(ps@, i) is None,
        },
{
    match i {
        Some(i) => if i < ps.len() {
            Some(&ps[i])
        } else {
            None
        },
        None => None,
    }
}

fn push_phase<T>(
    ops: &mut Vec<Op>,
    before: &State<T>,
    after: &State<Vec<u8>>,
    diff: &Vec<Change>,
    phase: Phase,
)
    ensures
        op_views(final(ops)@) == op_views(old(ops)@) + phase_all(
            before.packages@,
            after.packages@,
            diff@,
            phase,
        ),
{
    let ghost b = before.packages@;
    let ghost a = after.packages@;
    let ghost start = op_views(ops@);
    let mut k: usize = 0;
    while k < diff.len()
        invariant
            b == before.packages@,
            a == after.packages@,
            0 <= k <= diff@.len(),
            op_views(ops@) == start + phase_ops(b, a, diff@, phase, k as int),
        decreases diff@.len() - k,
    {
        let c = &diff[k];
        match phase {
            Phase::PreRemove => if let Some(p) = package_at(&before.packages, c.before) {
                push_hooks(ops, &p.hooks.pre_remove);
            },
            Phase::Remove => if let Some(p) = package_at(&before.packages, c.before) {
                push_removes(ops, &p.files);
            },
            Phase::PostRemove => if let Some(p) = package_at(&before.packages, c.before) {
                push_hooks(ops, &p.hooks.post_remove);
            },
            Phase::PreInstall => if let Some(p) = package_at(&after.packages, c.after) {
                push_hooks(ops, &p.hooks.pre_install);
            },
            Phase::Install => if let Some(p) = package_at(&after.packages, c.after) {
                push_installs(ops, &p.files);
            },
            Phase::PostInstall => if let Some(p) = package_at(&after.packages, c.after) {
                push_hooks(ops, &p.hooks.post_install);
            },
        }
        assert(op_views(ops@) =~= start + phase_ops(b, a, diff@, phase, k + 1));
        k = k + 1;
    }
}

/// Whether the file-removal phase deletes `path`.
fn is_removed<T>(before: &State<T>, diff: &Vec<Change>, path: &String) -> (r: bool)
    ensures
        r == removed(before.packages@, diff@, path@),
{
    let mut k: usize = 0;
    while k < diff.len()
        invariant
            0 <= k <= diff@.len(),
            forall|l: int|
                0 <= l < k ==> match at(before.packages@, #[trigger] diff@[l].before) {
                    Some(p) => !owns(p, path@),
                    None => true,
                },
        decreases diff@.len() - k,
    {
        if let Some(p) = package_at(&before.packages, diff[k].before) {
            if owns_path(p, path) {
                return true;
            }
        }
        k = k + 1;
    }
    false
}

/// The operations of a run: for every package of the plan and in this order,
/// the `pre_remove` hooks and the removal of the previous files of those that
/// go or change, the removal of the orphans that this leaves on disk, the
/// `post_remove` hooks; then the `pre_install` hooks, the writing of the
/// desired files and the `post_install` hooks of those that come or change.
/// Each phase ends for all packages before the next begins. The list is the
/// same whether the run applies it or only shows it.
pub fn action<T>(
    before: &State<T>,
    after: &State<Vec<u8>>,
    diff: &Vec<Change>,
    orphan: &Vec<String>,
) -> (r: Vec<Op>)
    ensures
        op_views(r@) == action_spec(before.packages@, after.packages@, diff@, orphan@),
{
    let ghost b = before.packages@;
    let ghost a = after.packages@;
    let mut ops: Vec<Op> = Vec::new();
    push_phase(&mut ops, before, after, diff, Phase::PreRemove);
    push_phase(&mut ops, before, after, diff, Phase::Remove);
    let ghost start = op_views(ops@);
    let mut k: usize = 0;
    while k < orphan.len()
        invariant
            b == before.packages@,
            0 <= k <= orphan@.len(),
            op_views(ops@) == start + orphan_ops(b, diff@, orphan@, k as int),
        decreases orphan@.len() - k,
    {
        if !is_removed(before, diff, &orphan[k]) {
            push_op(&mut ops, Op::Remove(orphan[k].clone()));
        }
        assert(op_views(ops@) =~= start + orphan_ops(b, diff@, orphan@, k + 1));
        k = k + 1;
    }
    push_phase(&mut ops, before, after, diff, Phase::PostRemove);
    push_phase(&mut ops, before, after, diff, Phase::PreInstall);
    push_phase(&mut ops, before, after, diff, Phase::Install);
    push_phase(&mut ops, before, after, diff, Phase::PostInstall);
    assert(op_views(ops@) =~= action_spec(b, a, diff@, orphan@));
    ops
}

proof fn lemma_in_phase<T>(
    b: Seq<Package<T>>,
    a: Seq<Package<Vec<u8>>>,
    cs: Seq<Change>,
    phase: Phase,
    n: int,
    x: int,
    o: OpV,
)
    requires
        0 <= x < n <= cs.len(),
        phase_item(b, a, cs[x], phase).contains(o),
    ensures
        phase_ops(b, a, cs, phase, n).contains(o),
    decreases n,
{
    let prev = phase_ops(b, a, cs, phase, n - 1);
    let item = phase_item(b, a, cs[n - 1], phase);
    assert(phase_ops(b, a, cs, phase, n) == prev + item);
    if x == n - 1 {
        let k = choose|k: int| 0 <= k < item.len() && item[k] == o;
        assert((prev + item)[prev.len() + k] == o);
    } else {
        lemma_in_phase(b, a, cs, phase, n - 1, x, o);
        let k = choose|k: int| 0 <= k < prev.len() && prev[k] == o;
        assert((prev + item)[k] == o);
    }
}

proof fn lemma_in_left(l: Seq<OpV>, r: Seq<OpV>, o: OpV)
    requires
        l.contains(o),
    ensures
        (l + r).contains(o),
{
    let k = choose|k: int| 0 <= k < l.len() && l[k] == o;
    assert((l + r)[k] == o);
}

proof fn lemma_in_right(l: Seq<OpV>, r: Seq<OpV>, o: OpV)
    requires
        r.contains(o),
    ensures
        (l + r).contains(o),
{
    let k = choose|k: int| 0 <= k < r.len() && r[k] == o;
    assert((l + r)[l.len() + k] == o);
}

/// Every removal operation of the package at `x` of the plan (its
/// `pre_remove` hooks, the removal of its previous files, its `post_remove`
/// hooks) comes before every installation operation of the package at `y`
/// (its `pre_install` hooks, the writing of its files, its `post_install`
/// hooks): the run is the removal part followed by the installation part.
pub proof fn lemma_removal_before_installation<T>(
    b: Seq<Package<T>>,
    a: Seq<Package<Vec<u8>>>,
    cs: Seq<Change>,
    os: Seq<String>,
    x: int,
    y: int,
)
    requires
        0 <= x < cs.len(),
        0 <= y < cs.len(),
    ensures
        action_spec(b, a, cs, os) == removal_ops(b, a, cs, os) + installation_ops(b, a, cs),
        forall|o: OpV|
            phase_item(b, a, cs[x], Phase::PreRemove).contains(o) || phase_item(
                b,
                a,
                cs[x],
                Phase::Remove,
            ).contains(o) || phase_item(b, a, cs[x], Phase::PostRemove).contains(o)
                ==> #[trigger] removal_ops(b, a, cs, os).contains(o),
        forall|o: OpV|
            phase_item(b, a, cs[y], Phase::PreInstall).contains(o) || phase_item(
                b,
                a,
                cs[y],
                Phase::Install,
            ).contains(o) || phase_item(b, a, cs[y], Phase::PostInstall).contains(o)
                ==> #[trigger] installation_ops(b, a, cs).contains(o),
{
    let n = cs.len() as int;
    let pre = phase_all(b, a, cs, Phase::PreRemove);
    let rem = phase_all(b, a, cs, Phase::Remove);
    let orph = orphan_ops(b, cs, os, os.len() as int);
    let post = phase_all(b, a, cs, Phase::PostRemove);
    assert forall|o: OpV|
        phase_item(b, a, cs[x], Phase::PreRemove).contains(o) || phase_item(
            b,
            a,
            cs[x],
            Phase::Remove,
        ).contains(o) || phase_item(b, a, cs[x], Phase::PostRemove).contains(o)
            implies #[trigger] removal_ops(b, a, cs, os).contains(o) by {
        if phase_item(b, a, cs[x], Phase::PreRemove).contains(o) {
            lemma_in_phase(b, a, cs, Phase::PreRemove, n, x, o);
            lemma_in_left(pre, rem, o);
            lemma_in_left(pre + rem, orph, o);
            lemma_in_left(pre + rem + orph, post, o);
        } else if phase_item(b, a, cs[x], Phase::Remove).contains(o) {
            lemma_in_phase(b, a, cs, Phase::Remove, n, x, o);
            lemma_in_right(pre, rem, o);
            lemma_in_left(pre + rem, orph, o);
            lemma_in_left(pre + rem + orph, post, o);
        } else {
            lemma_in_phase(b, a, cs, Phase::PostRemove, n, x, o);
            lemma_in_right(pre + rem + orph, post, o);
        }
    }
    let ipre = phase_all(b, a, cs, Phase::PreInstall);
    let inst = phase_all(b, a, cs, Phase::Install);
    let ipost = phase_all(b, a, cs, Phase::PostInstall);
    assert forall|o: OpV|
        phase_item(b, a, cs[y], Phase::PreInstall).contains(o) || phase_item(
            b,
            a,
            cs[y],
            Phase::Install,
        ).contains(o) || phase_item(b, a, cs[y], Phase::PostInstall).contains(o)
            implies #[trigger] installation_ops(b, a, cs).contains(o) by {
        if phase_item(b, a, cs[y], Phase::PreInstall).contains(o) {
            lemma_in_phase(b, a, cs, Phase::PreInstall, n, y, o);
            lemma_in_left(ipre, inst, o);
            lemma_in_left(ipre + inst, ipost, o);
        } else if phase_item(b, a, cs[y], Phase::Install).contains(o) {
            lemma_in_phase(b, a, cs, Phase::Install, n, y, o);
            lemma_in_right(ipre, inst, o);
            lemma_in_left(ipre + inst, ipost, o);
        } else {
            lemma_in_phase(b, a, cs, Phase::PostInstall, n, y, o);
            lemma_in_right(ipre + inst, ipost, o);
        }
    }
}

proof fn lemma_orphan_kept<T>(b: Seq<Package<T>>, cs: Seq<Change>, os: Seq<String>, n: int, m: int)
    requires
        0 <= m < n <= os.len(),
        !removed(b, cs, os[m]@),
    ensures
        orphan_ops(b, cs, os, n).contains(OpV::Remove(os[m]@)),
    decreases n,
{
    let prev = orphan_ops(b, cs, os, n - 1);
    if m == n - 1 {
        assert(prev.push(OpV::Remove(os[m]@))[prev.len() as int] == OpV::Remove(os[m]@));
    } else {
        lemma_orphan_kept(b, cs, os, n - 1, m);
        let k = choose|k: int| 0 <= k < prev.len() && prev[k] == OpV::Remove(os[m]@);
        if !removed(b, cs, os[n - 1]@) {
            assert(prev.push(OpV::Remove(os[n - 1]@))[k] == OpV::Remove(os[m]@));
        }
    }
}

/// A path in the orphan list is removed by the run: with the files of the
/// package that the plan removes or changes, else in the orphan phase.
pub proof fn lemma_orphan_removed<T>(
    b: Seq<Package<T>>,
    a: Seq<Package<Vec<u8>>>,
    cs: Seq<Change>,
    os: Seq<String>,
    path: Seq<char>,
)
    requires
        exists|m: int| 0 <= m < os.len() && #[trigger] os[m]@ == path,
    ensures
        removal_ops(b, a, cs, os).contains(OpV::Remove(path)),
        action_spec(b, a, cs, os).contains(OpV::Remove(path)),
{
    let o = OpV::Remove(path);
    let pre = phase_all(b, a, cs, Phase::PreRemove);
    let rem = phase_all(b, a, cs, Phase::Remove);
    let orph = orphan_ops(b, cs, os, os.len() as int);
    let post = phase_all(b, a, cs, Phase::PostRemove);
    if removed(b, cs, path) {
        let k = choose|k: int|
            0 <= k < cs.len() && match at(b, #[trigger] cs[k].before) {
                Some(p) => owns(p, path),
                None => false,
            };
        let p = at(b, cs[k].before)->0;
        let j = choose|j: int| 0 <= j < p.files@.len() && #[trigger] p.files@[j].0@ == path;
        assert(remove_ops(p.files@)[j] == o);
        assert(phase_item(b, a, cs[k], Phase::Remove).contains(o));
        lemma_in_phase(b, a, cs, Phase::Remove, cs.len() as int, k, o);
        lemma_in_right(pre, rem, o);
        lemma_in_left(pre + rem, orph, o);
    } else {
        let m = choose|m: int| 0 <= m < os.len() && #[trigger] os[m]@ == path;
        lemma_orphan_kept(b, cs, os, os.len() as int, m);
        lemma_in_right(pre + rem, orph, o);
    }
    lemma_in_left(pre + rem + orph, post, o);
    lemma_in_left(removal_ops(b, a, cs, os), installation_ops(b, a, cs), o);
}

/// A run right after a run changes nothing: when every recorded package has
/// the name, files, digests and modes of the desired package at its place, the
/// plan is empty, no path is an orphan, and nothing is done.
pub proof fn lemma_rerun_does_nothing<T>(before: State<T>, after: State<Vec<u8>>)
    requires
        after.wf(),
        before.packages@.len() == after.packages@.len(),
        forall|i: int|
            0 <= i < before.packages@.len() ==> #[trigger] before.packages@[i].name@
                == after.packages@[i].name@ && metas(before.packages@[i].files@) == metas(
                after.packages@[i].files@,
            ),
    ensures
        plan_spec(before.packages@, after.packages@) == Seq::<ChangeV>::empty(),
        forall|path: Seq<char>| !is_orphan(before.packages@, after.packages@, path),
        action_spec(before.packages@, after.packages@, seq![], seq![]) == Seq::<OpV>::empty(),
{
    let b = before.packages@;
    let a = after.packages@;
    assert(a.len() == after.packages.len());
    assert forall|n: int| 0 <= n <= b.len() implies previous_part(b, a, n) == Seq::<ChangeV>::empty() by {
        lemma_previous_part_empty(before, after, n);
    }
    assert forall|n: int| 0 <= n <= a.len() implies desired_part(b, a, n) == Seq::<ChangeV>::empty() by {
        lemma_desired_part_empty(before, after, n);
    }
    assert(plan_spec(b, a) =~= Seq::<ChangeV>::empty());
    assert forall|path: Seq<char>| !is_orphan(b, a, path) by {
        if claimed(b, path) {
            let i = choose|i: int| 0 <= i < b.len() && #[trigger] owns(b[i], path);
            let j = choose|j: int| 0 <= j < b[i].files@.len() && #[trigger] b[i].files@[j].0@ == path;
            assert(b[i].name@ == a[i].name@);
            assert(metas(b[i].files@) == metas(a[i].files@));
            assert(metas(b[i].files@).len() == b[i].files@.len());
            assert(metas(a[i].files@).len() == a[i].files@.len());
            assert(metas(b[i].files@)[j] == metas(a[i].files@)[j]);
            assert(a[i].files@[j].0@ == path);
            assert(owns(a[i], path));
        }
    }
    assert(action_spec(b, a, seq![], seq![]) =~= Seq::<OpV>::empty());
}

proof fn lemma_previous_part_empty<T>(before: State<T>, after: State<Vec<u8>>, n: int)
    requires
        after.wf(),
        before.packages@.len() == after.packages@.len(),
        after.packages@.len() <= usize::MAX,
        forall|i: int|
            0 <= i < before.packages@.len() ==> #[trigger] before.packages@[i].name@
                == after.packages@[i].name@ && metas(before.packages@[i].files@) == metas(
                after.packages@[i].files@,
            ),
        0 <= n <= before.packages@.len(),
    ensures
        previous_part(before.packages@, after.packages@, n) == Seq::<ChangeV>::empty(),
    decreases n,
{
    let b = before.packages@;
    let a = after.packages@;
    if n > 0 {
        lemma_previous_part_empty(before, after, n - 1);
        assert(b[n - 1].name@ == a[n - 1].name@);
        lemma_find_unique(a, n - 1, 0);
        assert(previous_item(b, a, n - 1) == Seq::<ChangeV>::empty());
        assert(previous_part(b, a, n) =~= Seq::<ChangeV>::empty());
    }
}

proof fn lemma_desired_part_empty<T>(before: State<T>, after: State<Vec<u8>>, n: int)
    requires
        before.packages@.len() == after.packages@.len(),
        after.packages@.len() <= usize::MAX,
        forall|i: int|
            0 <= i < before.packages@.len() ==> #[trigger] before.packages@[i].name@
                == after.packages@[i].name@,
        0 <= n <= after.packages@.len(),
    ensures
        desired_part(before.packages@, after.packages@, n) == Seq::<ChangeV>::empty(),
    decreases n,
{
    let b = before.packages@;
    let a = after.packages@;
    if n > 0 {
        lemma_desired_part_empty(before, after, n - 1);
        assert(b[n - 1].name@ == a[n - 1].name@);
        lemma_find_present(b, a[n - 1].name@, 0, n - 1);
        assert(desired_part(b, a, n) =~= Seq::<ChangeV>::empty());
    }
}

proof fn lemma_find_present<T>(ps: Seq<Package<T>>, name: Seq<char>, k: int, i: int)
    requires
        0 <= k <= i < ps.len(),
        ps[i].name@ == name,
    ensures
        find_from(ps, name, k) is Some,
    decreases i - k,
{
    if k < i && ps[k].name@ != name {
        lemma_find_present(ps, name, k + 1, i);
    }
}

} // verus!
