use crate::builder::conflict;
use crate::digest::{sha1, sha1_of};
use crate::schema::{names_unique, File, Hook, Hooks, Package, State, DEFAULT_MODE};
use vstd::prelude::*;
use vstd::string::StrSliceExecFns;

verus! {

/// Relies on `String::push_str`: appends `t` to `s`.
#[verifier::external_body]
fn push_str(s: &mut String, t: &str)
    ensures
        final(s)@ == old(s)@ + t@,
{
    s.push_str(t)
}

/// Where a manifest path lands: an absolute path stays as it is, a relative
/// one is taken under the home directory.
pub open spec fn joined(home: Seq<char>, path: Seq<char>) -> Seq<char> {
    if path.len() > 0 && path[0] == '/' {
        path
    } else if home.len() > 0 && home.last() == '/' {
        home + path
    } else {
        home + seq!['/'] + path
    }
}

/// The absolute target path of a manifest path.
pub fn target_path(home: &str, path: &str) -> (r: String)
    ensures
        r@ == joined(home@, path@),
{
    let path_len = path.unicode_len();
    if path_len > 0 && path.get_char(0) == '/' {
        return path.to_owned();
    }
    let mut r = home.to_owned();
    let home_len = home.unicode_len();
    if !(home_len > 0 && home.get_char(home_len - 1) == '/') {
        let sep = "/";
        proof {
            reveal_strlit("/");
        }
        push_str(&mut r, sep);
    }
    push_str(&mut r, path);
    r
}

/// The mode of a file record: the given one, else the default.
pub open spec fn mode_or_default(mode: Option<u32>) -> u32 {
    match mode {
        Some(m) => m,
        None => DEFAULT_MODE,
    }
}

/// The first index at or after `k` of a record for `path`.
pub open spec fn path_index<T>(files: Seq<(String, File<T>)>, path: Seq<char>, k: int) -> Option<int>
    decreases files.len() - k,
{
    if k < 0 || k >= files.len() {
        None
    } else if files[k].0@ == path {
        Some(k)
    } else {
        path_index(files, path, k + 1)
    }
}

/// The record that `Package::file` writes for `home`, `path`, `content` and
/// `mode`.
pub open spec fn is_entry(
    e: (String, File<Vec<u8>>),
    home: Seq<char>,
    path: Seq<char>,
    content: Vec<u8>,
    mode: Option<u32>,
) -> bool {
    &&& e.0@ == joined(home, path)
    &&& e.1.sha1@ == sha1_of(content@)
    &&& e.1.mode == mode_or_default(mode)
    &&& e.1.extra == content
}

/// Two file records built from equal content have equal digests, whatever
/// their home directory, path or mode.
pub proof fn lemma_digest_ignores_path(
    e1: (String, File<Vec<u8>>),
    home1: Seq<char>,
    path1: Seq<char>,
    content1: Vec<u8>,
    mode1: Option<u32>,
    e2: (String, File<Vec<u8>>),
    home2: Seq<char>,
    path2: Seq<char>,
    content2: Vec<u8>,
    mode2: Option<u32>,
)
    requires
        is_entry(e1, home1, path1, content1, mode1),
        is_entry(e2, home2, path2, content2, mode2),
        content1@ == content2@,
    ensures
        e1.1.sha1@ == e2.1.sha1@,
{
}

impl Default for Hooks {
    fn default() -> (r: Hooks)
        ensures
            r.pre_install@.len() == 0,
            r.post_install@.len() == 0,
            r.pre_remove@.len() == 0,
            r.post_remove@.len() == 0,
    {
        Hooks {
            pre_install: Vec::new(),
            post_install: Vec::new(),
            pre_remove: Vec::new(),
            post_remove: Vec::new(),
        }
    }
}

impl<T> Package<T> {
    /// A package with no files and no hooks.
    pub fn new(name: String) -> (r: Package<T>)
        ensures
            r.name == name,
            r.files@.len() == 0,
            r.hooks.pre_install@.len() == 0,
            r.hooks.post_install@.len() == 0,
            r.hooks.pre_remove@.len() == 0,
            r.hooks.post_remove@.len() == 0,
    {
        Package { name, files: Vec::new(), hooks: Hooks::default() }
    }
}

impl Package<Vec<u8>> {
    /// Adds the file `path` (taken under `home` when relative) with `content`
    /// and `mode`, or the default mode; its digest is that of the content. The
    /// first record for the same target is replaced; without one, the record
    /// comes last.
    pub fn file(&mut self, home: &str, path: &str, content: Vec<u8>, mode: Option<u32>)
        ensures
            final(self).name == old(self).name,
            final(self).hooks == old(self).hooks,
            match path_index(old(self).files@, joined(home@, path@), 0) {
                Some(j) => {
                    &&& final(self).files@.len() == old(self).files@.len()
                    &&& forall|x: int|
                        0 <= x < old(self).files@.len() && x != j ==> final(self).files@[x]
                            == old(self).files@[x]
                    &&& is_entry(final(self).files@[j], home@, path@, content, mode)
                },
                None => {
                    &&& final(self).files@.len() == old(self).files@.len() + 1
                    &&& forall|x: int|
                        0 <= x < old(self).files@.len() ==> final(self).files@[x]
                            == old(self).files@[x]
                    &&& is_entry(final(self).files@.last(), home@, path@, content, mode)
                },
            },
    {
        let target = target_path(home, path);
        let digest = sha1(content.as_slice());
        let mode_bits = match mode {
            Some(m) => m,
            None => DEFAULT_MODE,
        };
        let ghost t = target@;
        let ghost c = content;
        let entry = (target, File { sha1: digest, mode: mode_bits, extra: content });
        assert(is_entry(entry, home@, path@, c, mode));
        let mut j: usize = 0;
        while j < self.files.len()
            invariant
                0 <= j <= self.files@.len(),
                self.files@ == old(self).files@,
                self.name == old(self).name,
                self.hooks == old(self).hooks,
                forall|x: int| 0 <= x < j ==> #[trigger] self.files@[x].0@ != t,
                entry.0@ == t,
                c == content,
                is_entry(entry, home@, path@, c, mode),
            decreases self.files@.len() - j,
        {
            if self.files[j].0 == entry.0 {
                proof {
                    lemma_path_index_skip(self.files@, t, 0, j as int);
                    assert(path_index(self.files@, t, j as int) == Some(j as int));
                }
                let ghost before_set = self.files@;
                self.files.set(j, entry);
                assert(self.files@ == before_set.update(j as int, entry));
                assert(path_index(old(self).files@, joined(home@, path@), 0) == Some(j as int));
                return;
            }
            j = j + 1;
        }
        proof {
            lemma_path_index_skip(self.files@, t, 0, j as int);
        }
        self.files.push(entry);
    }

    /// Appends a command to the `pre_install` hooks.
    pub fn pre_install(&mut self, command: Vec<String>)
        ensures
            final(self).name == old(self).name,
            final(self).files == old(self).files,
            final(self).hooks.pre_install@ == old(self).hooks.pre_install@.push(Hook { command }),
            final(self).hooks.post_install == old(self).hooks.post_install,
            final(self).hooks.pre_remove == old(self).hooks.pre_remove,
            final(self).hooks.post_remove == old(self).hooks.post_remove,
    {
        self.hooks.pre_install.push(Hook { command });
    }

    /// Appends a command to the `post_install` hooks.
    pub fn post_install(&mut self, command: Vec<String>)
        ensures
            final(self).name == old(self).name,
            final(self).files == old(self).files,
            final(self).hooks.post_install@ == old(self).hooks.post_install@.push(Hook { command }),
            final(self).hooks.pre_install == old(self).hooks.pre_install,
            final(self).hooks.pre_remove == old(self).hooks.pre_remove,
            final(self).hooks.post_remove == old(self).hooks.post_remove,
    {
        self.hooks.post_install.push(Hook { command });
    }

    /// Appends a command to the `pre_remove` hooks.
    pub fn pre_remove(&mut self, command: Vec<String>)
        ensures
            final(self).name == old(self).name,
            final(self).files == old(self).files,
            final(self).hooks.pre_remove@ == old(self).hooks.pre_remove@.push(Hook { command }),
            final(self).hooks.pre_install == old(self).hooks.pre_install,
            final(self).hooks.post_install == old(self).hooks.post_install,
            final(self).hooks.post_remove == old(self).hooks.post_remove,
    {
        self.hooks.pre_remove.push(Hook { command });
    }
}

/// No record in `[k, n)` is for `path`: the search from `k` goes on from `n`.
proof fn lemma_path_index_skip<T>(files: Seq<(String, File<T>)>, path: Seq<char>, k: int, n: int)
    requires
        0 <= k <= n <= files.len(),
        forall|x: int| k <= x < n ==> #[trigger] files[x].0@ != path,
    ensures
        path_index(files, path, k) == path_index(files, path, n),
    decreases n - k,
{
    if k < n {
        lemma_path_index_skip(files, path, k + 1, n);
    }
}

impl<T> State<T> {
    /// Whether package names are unique and every target path belongs to one
    /// file record of one package.
    pub fn well_formed(&self) -> (r: bool)
        ensures
            r == self.wf(),
    {
        let mut i: usize = 0;
        while i < self.packages.len()
            invariant
                0 <= i <= self.packages@.len(),
                forall|x: int, y: int|
                    0 <= x < i && 0 <= y < self.packages@.len() && x != y ==> #[trigger] self.packages@[x].name@
                        != #[trigger] self.packages@[y].name@,
            decreases self.packages@.len() - i,
        {
            let mut k: usize = 0;
            while k < self.packages.len()
                invariant
                    0 <= i < self.packages@.len(),
                    0 <= k <= self.packages@.len(),
                    forall|x: int, y: int|
                        0 <= x < i && 0 <= y < self.packages@.len() && x != y ==> #[trigger] self.packages@[x].name@
                            != #[trigger] self.packages@[y].name@,
                    forall|y: int| 0 <= y < k && y != i ==> self.packages@[i as int].name@ != #[trigger] self.packages@[y].name@,
                decreases self.packages@.len() - k,
            {
                if k != i && self.packages[i].name == self.packages[k].name {
                    assert(self.packages@[i as int].name@ == self.packages@[k as int].name@);
                    assert(!names_unique(self.packages@));
                    assert(!self.wf());
                    return false;
                }
                k = k + 1;
            }
            i = i + 1;
        }
        assert(names_unique(self.packages@));
        conflict(&self.packages).is_none()
    }
}

} // verus!
