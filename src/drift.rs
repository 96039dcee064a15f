use crate::digest::digest_eq;
use crate::apply::{install_ops, OpV};
use crate::diff::{disposition_of, Disposition};
use crate::schema::{metas, paths_unique, File, Package, State};
use vstd::prelude::*;

verus! {

/// What is on disk at a recorded path: the digest of its content and its mode.
#[derive(Clone, Copy, Debug)]
pub struct Observed {
    pub sha1: [u8; 20],
    pub mode: u32,
}

/// How a recorded file differs from what is on disk.
#[derive(Clone, Copy, Debug, PartialEq, Eq, Structural)]
pub enum Drift {
    /// Nothing is at the path any more.
    Missing,
    /// The file is there; each flag tells whether that part differs.
    Present { sha1: bool, mode: bool },
}

/// The record of a file as observed on disk, if it is still there: the
/// observed digest and mode replace the recorded ones.
pub open spec fn checked<T>(file: File<T>, live: Option<Observed>) -> Option<File<T>> {
    match live {
        Some(o) => Some(File { sha1: o.sha1, mode: o.mode, extra: file.extra }),
        None => None,
    }
}

/// The first `n` file records reconciled with their observations: missing
/// files are dropped, the others take the observed digest and mode.
pub open spec fn kept<T>(files: Seq<(String, File<T>)>, live: Seq<Option<Observed>>, n: int) -> Seq<
    (String, File<T>),
>
    decreases n,
{
    if n <= 0 {
        seq![]
    } else {
        match checked(files[n - 1].1, live[n - 1]) {
            Some(f) => kept(files, live, n - 1).push((files[n - 1].0, f)),
            None => kept(files, live, n - 1),
        }
    }
}

/// All file records of a package reconciled with their observations.
pub open spec fn reconciled<T>(files: Seq<(String, File<T>)>, live: Seq<Option<Observed>>) -> Seq<
    (String, File<T>),
> {
    kept(files, live, files.len() as int)
}

/// Whether `live` holds one observation per file of each package.
pub open spec fn observes<T>(packages: Seq<Package<T>>, live: Seq<Vec<Option<Observed>>>) -> bool {
    &&& packages.len() == live.len()
    &&& forall|i: int|
        0 <= i < packages.len() ==> #[trigger] packages[i].files@.len() == live[i]@.len()
}

/// Reconciles one recorded file with what is on disk.
pub fn check<T>(file: File<T>, live: Option<Observed>) -> (r: Option<File<T>>)
    ensures
        r == checked(file, live),
{
    match live {
        Some(o) => Some(File { sha1: o.sha1, mode: o.mode, extra: file.extra }),
        None => None,
    }
}

/// How a recorded file differs from what is on disk.
pub fn drift<T>(file: &File<T>, live: &Option<Observed>) -> (r: Drift)
    ensures
        r == match *live {
            Some(o) => Drift::Present { sha1: o.sha1@ != file.sha1@, mode: o.mode != file.mode },
            None => Drift::Missing,
        },
{
    match live {
        Some(o) => Drift::Present { sha1: !digest_eq(&o.sha1, &file.sha1), mode: o.mode != file.mode },
        None => Drift::Missing,
    }
}

fn sync_files<T>(files: Vec<(String, File<T>)>, live: &Vec<Option<Observed>>) -> (r: Vec<
    (String, File<T>),
>)
    requires
        files@.len() == live@.len(),
    ensures
        r@ == reconciled(files@, live@),
{
    let ghost orig = files@;
    let mut rest = files;
    let mut out: Vec<(String, File<T>)> = Vec::new();
    let mut j: usize = 0;
    while j < live.len()
        invariant
            orig.len() == live@.len(),
            0 <= j <= orig.len(),
            rest@ == orig.skip(j as int),
            out@ == kept(orig, live@, j as int),
        decreases orig.len() - j,
    {
        let (path, file) = rest.remove(0);
        assert(orig[j as int] == (path, file));
        match check(file, live[j]) {
            Some(f) => out.push((path, f)),
            None => {},
        }
        assert(rest@ =~= orig.skip(j + 1));
        j = j + 1;
    }
    out
}

/// Reconciles every file record of `state` with what is on disk: a file
/// that is gone is dropped, one that is there takes its live digest and mode.
/// `live[i][j]` is the observation of the `j`-th file of the `i`-th package.
pub fn sync<T>(state: &mut State<T>, live: &Vec<Vec<Option<Observed>>>)
    requires
        observes(old(state).packages@, live@),
    ensures
        final(state).packages@.len() == old(state).packages@.len(),
        forall|i: int|
            0 <= i < old(state).packages@.len() ==> {
                &&& (#[trigger] final(state).packages@[i]).name == old(state).packages@[i].name
                &&& final(state).packages@[i].hooks == old(state).packages@[i].hooks
                &&& final(state).packages@[i].files@ == reconciled(
                    old(state).packages@[i].files@,
                    live@[i]@,
                )
            },
{
    let ghost orig = state.packages@;
    let mut rest: Vec<Package<T>> = Vec::new();
    std::mem::swap(&mut rest, &mut state.packages);
    let mut done: Vec<Package<T>> = Vec::new();
    let mut i: usize = 0;
    while i < live.len()
        invariant
            observes(orig, live@),
            0 <= i <= orig.len(),
            rest@ == orig.skip(i as int),
            done@.len() == i,
            forall|k: int|
                0 <= k < i ==> {
                    &&& (#[trigger] done@[k]).name == orig[k].name
                    &&& done@[k].hooks == orig[k].hooks
                    &&& done@[k].files@ == reconciled(orig[k].files@, live@[k]@)
                },
        decreases orig.len() - i,
    {
        let package = rest.remove(0);
        assert(orig[i as int] == package);
        assert(package.files@.len() == live@[i as int]@.len());
        let Package { name, files, hooks } = package;
        let files = sync_files(files, &live[i]);
        done.push(Package { name, files, hooks });
        assert(rest@ =~= orig.skip(i + 1));
        i = i + 1;
    }
    state.packages = done;
}

/// When every file is observed, reconciliation keeps each record at its
/// place with the observed digest and mode.
proof fn lemma_kept_all<T>(files: Seq<(String, File<T>)>, live: Seq<Option<Observed>>, n: int)
    requires
        0 <= n <= files.len(),
        files.len() == live.len(),
        forall|j: int| 0 <= j < live.len() ==> #[trigger] live[j] is Some,
    ensures
        kept(files, live, n).len() == n,
        forall|k: int|
            0 <= k < n ==> #[trigger] kept(files, live, n)[k] == (
                files[k].0,
                File { sha1: live[k]->0.sha1, mode: live[k]->0.mode, extra: files[k].1.extra },
            ),
    decreases n,
{
    if n > 0 {
        lemma_kept_all(files, live, n - 1);
        assert(live[n - 1] is Some);
    }
}

/// Every record that reconciliation keeps comes from an observed record.
proof fn lemma_kept_from<T>(files: Seq<(String, File<T>)>, live: Seq<Option<Observed>>, n: int)
    requires
        0 <= n <= files.len(),
        files.len() == live.len(),
    ensures
        forall|k: int|
            0 <= k < kept(files, live, n).len() ==> exists|x: int|
                0 <= x < n && live[x] is Some && #[trigger] kept(files, live, n)[k].0 == files[x].0,
    decreases n,
{
    if n > 0 {
        lemma_kept_from(files, live, n - 1);
        let prev = kept(files, live, n - 1);
        assert forall|k: int| 0 <= k < kept(files, live, n).len() implies exists|x: int|
            0 <= x < n && live[x] is Some && #[trigger] kept(files, live, n)[k].0 == files[x].0 by {
            if k < prev.len() {
                assert(kept(files, live, n)[k] == prev[k]);
                let x = choose|x: int| 0 <= x < n - 1 && live[x] is Some && #[trigger] prev[k].0 == files[x].0;
                assert(kept(files, live, n)[k].0 == files[x].0);
            } else {
                assert(kept(files, live, n)[k].0 == files[n - 1].0);
            }
        }
    }
}

/// Observing every file exactly as recorded leaves the records as they are.
pub proof fn lemma_faithful_observation<T>(files: Seq<(String, File<T>)>, live: Seq<Option<Observed>>)
    requires
        files.len() == live.len(),
        forall|j: int|
            0 <= j < live.len() ==> #[trigger] live[j] == Some(
                Observed { sha1: files[j].1.sha1, mode: files[j].1.mode },
            ),
    ensures
        reconciled(files, live) == files,
{
    assert forall|j: int| 0 <= j < live.len() implies #[trigger] live[j] is Some by {
        assert(live[j] == Some(Observed { sha1: files[j].1.sha1, mode: files[j].1.mode }));
    }
    lemma_kept_all(files, live, files.len() as int);
    assert forall|k: int| 0 <= k < files.len() implies #[trigger] reconciled(files, live)[k] == files[k] by {
        assert(live[k] == Some(Observed { sha1: files[k].1.sha1, mode: files[k].1.mode }));
    }
    assert(reconciled(files, live) =~= files);
}

/// A file edited on disk so that its digest and mode are those of the
/// desired file does not make the package change: once reconciled, the
/// recorded package is unchanged against the desired one, whatever digest
/// was recorded before.
pub proof fn lemma_edit_to_desired_is_unchanged<T>(
    recorded: Package<T>,
    live: Seq<Option<Observed>>,
    synced: Package<T>,
    desired: Package<Vec<u8>>,
)
    requires
        recorded.files@.len() == live.len(),
        desired.files@.len() == live.len(),
        synced.files@ == reconciled(recorded.files@, live),
        forall|j: int|
            0 <= j < live.len() ==> {
                &&& #[trigger] live[j] is Some
                &&& recorded.files@[j].0@ == desired.files@[j].0@
                &&& live[j]->0.sha1@ == desired.files@[j].1.sha1@
                &&& live[j]->0.mode == desired.files@[j].1.mode
            },
    ensures
        disposition_of(Some(synced), Some(desired)) == Some(Disposition::Unchanged),
{
    let files = recorded.files@;
    lemma_kept_all(files, live, files.len() as int);
    assert forall|k: int| 0 <= k < live.len() implies #[trigger] metas(synced.files@)[k] == metas(
        desired.files@,
    )[k] by {
        assert(live[k] is Some);
        assert(synced.files@[k] == kept(files, live, files.len() as int)[k]);
    }
    assert(metas(synced.files@) =~= metas(desired.files@));
}

/// A recorded file that is gone from disk makes its package change when the
/// desired package still has it, and the desired package's installation
/// writes it again.
pub proof fn lemma_missing_file_is_reinstalled<T>(
    recorded: Package<T>,
    live: Seq<Option<Observed>>,
    synced: Package<T>,
    desired: Package<Vec<u8>>,
    j: int,
    l: int,
)
    requires
        recorded.files@.len() == live.len(),
        paths_unique(recorded.files@),
        synced.files@ == reconciled(recorded.files@, live),
        0 <= j < live.len(),
        live[j] is None,
        0 <= l < desired.files@.len(),
        desired.files@[l].0@ == recorded.files@[j].0@,
    ensures
        disposition_of(Some(synced), Some(desired)) == Some(Disposition::Upgrade),
        install_ops(desired.files@).contains(
            OpV::Install(desired.files@[l].0@, desired.files@[l].1.extra@, desired.files@[l].1.mode),
        ),
{
    let files = recorded.files@;
    let path = files[j].0@;
    lemma_kept_from(files, live, files.len() as int);
    if metas(synced.files@) == metas(desired.files@) {
        assert(metas(desired.files@)[l].0 == path);
        assert(metas(synced.files@).len() == synced.files@.len());
        assert(metas(synced.files@)[l] == metas(desired.files@)[l]);
        assert(synced.files@[l].0@ == path);
        let x = choose|x: int|
            0 <= x < files.len() && live[x] is Some && #[trigger] kept(files, live, files.len() as int)[l].0
                == files[x].0;
        assert(files[x].0@ == files[j].0@);
    }
    assert(install_ops(desired.files@)[l] == OpV::Install(
        desired.files@[l].0@,
        desired.files@[l].1.extra@,
        desired.files@[l].1.mode,
    ));
}

} // verus!
