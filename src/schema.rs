use vstd::prelude::*;

verus! {

/// Mode of a regular file with permissions `rw-r--r--`, used when a manifest
/// gives none.
pub const DEFAULT_MODE: u32 = 0o100644;

/// One managed file: the digest of its content, its permission bits, and a
/// payload (the bytes to write in a desired state, nothing in a recorded one).
#[derive(Clone, Copy, Debug)]
pub struct File<T> {
    pub sha1: [u8; 20],
    pub mode: u32,
    pub extra: T,
}

/// A lifecycle command, as an argument vector.
#[derive(Clone, Debug)]
pub struct Hook {
    pub command: Vec<String>,
}

/// The four ordered lists of lifecycle commands of a package.
#[derive(Clone, Debug)]
pub struct Hooks {
    pub pre_install: Vec<Hook>,
    pub post_install: Vec<Hook>,
    pub pre_remove: Vec<Hook>,
    pub post_remove: Vec<Hook>,
}

/// A named bundle of managed files, keyed by absolute target path, and hooks.
#[derive(Clone, Debug)]
pub struct Package<T> {
    pub name: String,
    pub files: Vec<(String, File<T>)>,
    pub hooks: Hooks,
}

/// Everything installed, or everything that should be.
#[derive(Clone, Debug)]
pub struct State<T> {
    pub packages: Vec<Package<T>>,
}

/// What identifies a file record in a comparison: path, digest and mode.
pub type Meta = (Seq<char>, Seq<u8>, u32);

pub open spec fn meta_of<T>(entry: (String, File<T>)) -> Meta {
    (entry.0@, entry.1.sha1@, entry.1.mode)
}

/// The ordered `(path, digest, mode)` sequence of a file list.
pub open spec fn metas<T>(files: Seq<(String, File<T>)>) -> Seq<Meta> {
    files.map_values(|e: (String, File<T>)| meta_of(e))
}

/// Whether a package lists `path` among its files.
pub open spec fn owns<T>(p: Package<T>, path: Seq<char>) -> bool {
    exists|j: int| 0 <= j < p.files@.len() && #[trigger] p.files@[j].0@ == path
}

/// Whether some package of `ps` lists `path`.
pub open spec fn claimed<T>(ps: Seq<Package<T>>, path: Seq<char>) -> bool {
    exists|i: int| 0 <= i < ps.len() && #[trigger] owns(ps[i], path)
}

/// Whether some package of `ps` is named `name`.
pub open spec fn has_name<T>(ps: Seq<Package<T>>, name: Seq<char>) -> bool {
    exists|i: int| 0 <= i < ps.len() && #[trigger] ps[i].name@ == name
}

pub open spec fn names_unique<T>(ps: Seq<Package<T>>) -> bool {
    forall|i: int, k: int|
        0 <= i < ps.len() && 0 <= k < ps.len() && i != k ==> #[trigger] ps[i].name@
            != #[trigger] ps[k].name@
}

/// No two records of a file list have the same path.
pub open spec fn paths_unique<T>(files: Seq<(String, File<T>)>) -> bool {
    forall|j: int, l: int|
        0 <= j < files.len() && 0 <= l < files.len() && j != l ==> #[trigger] files[j].0@
            != #[trigger] files[l].0@
}

/// Every target path belongs to one file record of one package.
pub open spec fn paths_distinct<T>(ps: Seq<Package<T>>) -> bool {
    forall|i: int, j: int, k: int, l: int|
        0 <= i < ps.len() && 0 <= k < ps.len() && 0 <= j < ps[i].files@.len() && 0 <= l
            < ps[k].files@.len() && (i != k || j != l) ==> #[trigger] ps[i].files@[j].0@
            != #[trigger] ps[k].files@[l].0@
}

impl<T> State<T> {
    /// Package names are unique, and every target path belongs to one file
    /// record of one package.
    pub open spec fn wf(&self) -> bool {
        &&& names_unique(self.packages@)
        &&& paths_distinct(self.packages@)
    }
}

} // verus!
