//! In-memory model of the served file tree, the semantics behind the
//! transfer and directory commands: files carry their bytes, directories
//! their presence, both keyed by jail-relative segment paths. Lookup is by
//! first match, and well-formedness keeps paths distinct, so the model is
//! a finite map from paths to contents.

use vstd::prelude::*;
use vstd::pervasive::VecAdditionalExecFns;
use crate::paths::path_eq;

verus! {

/// Mode bits reported for a stored file, as a directory listing shows them.
pub const DEFAULT_FILE_MODE: u32 = 33188;

/// Mode bits reported for a created directory.
pub const DEFAULT_DIR_MODE: u32 = 16877;

pub struct FileEntry {
    /// Jail-relative segment path.
    pub path: Vec<String>,
    pub data: Vec<u8>,
    /// Permission bits as a listing reports them.
    pub mode: u32,
}

pub struct DirEntry {
    pub path: Vec<String>,
    pub mode: u32,
}

/// Content of the first file entry on path `q`, if any.
pub open spec fn file_content_at(files: Seq<FileEntry>, q: Seq<Seq<char>>) -> Option<Seq<u8>>
    decreases files.len(),
{
    if files.len() == 0 {
        None
    } else if files[0].path.deep_view() == q {
        Some(files[0].data@)
    } else {
        file_content_at(files.drop_first(), q)
    }
}

pub open spec fn has_dir_entry(dirs: Seq<DirEntry>, q: Seq<Seq<char>>) -> bool
    decreases dirs.len(),
{
    if dirs.len() == 0 {
        false
    } else if dirs[0].path.deep_view() == q {
        true
    } else {
        has_dir_entry(dirs.drop_first(), q)
    }
}

/// No two file entries share a path.
pub open spec fn wf_files(files: Seq<FileEntry>) -> bool {
    forall|i: int, j: int|
        0 <= i < j < files.len() ==> files[i].path.deep_view() != files[j].path.deep_view()
}

/// No two directory entries share a path.
pub open spec fn wf_dirs(dirs: Seq<DirEntry>) -> bool {
    forall|i: int, j: int|
        0 <= i < j < dirs.len() ==> dirs[i].path.deep_view() != dirs[j].path.deep_view()
}

/// `q` names the same directory or one below `p`.
pub open spec fn is_prefix_of(q: Seq<Seq<char>>, p: Seq<Seq<char>>) -> bool {
    q.len() <= p.len() && q == p.subrange(0, q.len() as int)
}

/// `q` lies strictly below `p`.
pub open spec fn is_strictly_under(q: Seq<Seq<char>>, p: Seq<Seq<char>>) -> bool {
    q.len() > p.len() && q.subrange(0, p.len() as int) == p
}

/// A first-match scan that stopped at `i` has found the content.
proof fn lemma_content_at_idx(files: Seq<FileEntry>, q: Seq<Seq<char>>, i: int)
    requires
        0 <= i < files.len(),
        files[i].path.deep_view() == q,
        forall|j: int| 0 <= j < i ==> files[j].path.deep_view() != q,
    ensures
        file_content_at(files, q) == Some(files[i].data@),
    decreases i,
{
    if i > 0 {
        lemma_content_at_idx(files.drop_first(), q, i - 1);
    }
}

proof fn lemma_content_at_none(files: Seq<FileEntry>, q: Seq<Seq<char>>)
    requires
        forall|j: int| 0 <= j < files.len() ==> files[j].path.deep_view() != q,
    ensures
        file_content_at(files, q) is None,
    decreases files.len(),
{
    if files.len() > 0 {
        lemma_content_at_none(files.drop_first(), q);
    }
}

/// Replacing the first entry on path `p` with another entry on `p` changes
/// the content there and nowhere else.
proof fn lemma_content_update(files: Seq<FileEntry>, i: int, e: FileEntry)
    requires
        0 <= i < files.len(),
        e.path.deep_view() == files[i].path.deep_view(),
        forall|j: int| 0 <= j < i ==> files[j].path.deep_view() != files[i].path.deep_view(),
    ensures
        file_content_at(files.update(i, e), files[i].path.deep_view()) == Some(e.data@),
        forall|q: Seq<Seq<char>>|
            q != files[i].path.deep_view() ==> file_content_at(files.update(i, e), q)
                == file_content_at(files, q),
    decreases i,
{
    let p = files[i].path.deep_view();
    let upd = files.update(i, e);
    if i == 0 {
        assert(upd[0] == e);
        assert(upd.drop_first() =~= files.drop_first());
    } else {
        assert(upd[0] == files[0]);
        assert(upd.drop_first() =~= files.drop_first().update(i - 1, e));
        lemma_content_update(files.drop_first(), i - 1, e);
        assert(files.drop_first()[i - 1] == files[i]);
        assert forall|q: Seq<Seq<char>>| q != p implies file_content_at(upd, q)
            == file_content_at(files, q) by {
            if files[0].path.deep_view() != q {
                assert(file_content_at(upd, q) == file_content_at(upd.drop_first(), q));
                assert(file_content_at(files, q) == file_content_at(files.drop_first(), q));
            }
        }
    }
}

/// Appending an entry on a fresh path adds its content and changes no other.
proof fn lemma_content_push(files: Seq<FileEntry>, e: FileEntry)
    requires
        forall|j: int| 0 <= j < files.len() ==> files[j].path.deep_view() != e.path.deep_view(),
    ensures
        file_content_at(files.push(e), e.path.deep_view()) == Some(e.data@),
        forall|q: Seq<Seq<char>>|
            q != e.path.deep_view() ==> file_content_at(files.push(e), q) == file_content_at(
                files,
                q,
            ),
    decreases files.len(),
{
    if files.len() == 0 {
        assert(files.push(e)[0] == e);
        assert forall|q: Seq<Seq<char>>| q != e.path.deep_view() implies file_content_at(
            files.push(e),
            q,
        ) == file_content_at(files, q) by {
            assert(files.push(e).drop_first() =~= Seq::<FileEntry>::empty());
            assert(file_content_at(files.push(e), q) == file_content_at(
                files.push(e).drop_first(),
                q,
            ));
            assert(file_content_at(Seq::<FileEntry>::empty(), q) is None);
        }
    } else {
        assert(files.push(e)[0] == files[0]);
        assert(files.push(e).drop_first() =~= files.drop_first().push(e));
        lemma_content_push(files.drop_first(), e);
        assert forall|q: Seq<Seq<char>>| q != e.path.deep_view() implies file_content_at(
            files.push(e),
            q,
        ) == file_content_at(files, q) by {
            if files[0].path.deep_view() != q {
                assert(file_content_at(files.push(e), q) == file_content_at(
                    files.drop_first().push(e),
                    q,
                ));
                assert(file_content_at(files, q) == file_content_at(files.drop_first(), q));
            }
        }
    }
}

/// Removing the only entry on its path erases that content and no other.
proof fn lemma_content_remove(files: Seq<FileEntry>, i: int)
    requires
        0 <= i < files.len(),
        forall|j: int|
            0 <= j < files.len() && j != i ==> files[j].path.deep_view()
                != files[i].path.deep_view(),
    ensures
        file_content_at(files.remove(i), files[i].path.deep_view()) is None,
        forall|q: Seq<Seq<char>>|
            q != files[i].path.deep_view() ==> file_content_at(files.remove(i), q)
                == file_content_at(files, q),
    decreases i,
{
    let p = files[i].path.deep_view();
    let rem = files.remove(i);
    if i == 0 {
        assert(rem =~= files.drop_first());
        lemma_content_at_none(files.drop_first(), p);
    } else {
        assert(rem[0] == files[0]);
        assert(rem.drop_first() =~= files.drop_first().remove(i - 1));
        lemma_content_remove(files.drop_first(), i - 1);
        assert(files.drop_first()[i - 1] == files[i]);
        assert forall|q: Seq<Seq<char>>| q != p implies file_content_at(rem, q)
            == file_content_at(files, q) by {
            if files[0].path.deep_view() != q {
                assert(file_content_at(rem, q) == file_content_at(rem.drop_first(), q));
                assert(file_content_at(files, q) == file_content_at(files.drop_first(), q));
            }
        }
    }
}

/// An exact copy of a byte vector.
pub fn copy_bytes(v: &Vec<u8>) -> (r: Vec<u8>)
    ensures
        r@ == v@,
{
    let mut r: Vec<u8> = Vec::new();
    let mut i: usize = 0;
    while i < v.len()
        invariant
            0 <= i <= v@.len(),
            r@ =~= v@.subrange(0, i as int),
        decreases v@.len() - i,
    {
        r.push(v[i]);
        proof {
            assert(r@ =~= v@.subrange(0, i as int + 1));
        }
        i = i + 1;
    }
    proof {
        assert(r@ =~= v@);
    }
    r
}

/// A copy of a segment path with the same view.
pub fn copy_segs(v: &Vec<String>) -> (r: Vec<String>)
    ensures
        r.deep_view() == v.deep_view(),
{
    let mut r: Vec<String> = Vec::new();
    let mut i: usize = 0;
    while i < v.len()
        invariant
            0 <= i <= v@.len(),
            r.deep_view() =~= v.deep_view().subrange(0, i as int),
        decreases v@.len() - i,
    {
        proof {
            assert(r.deep_view().len() == i);
        }
        r.push(v[i].clone());
        proof {
            assert(r@.len() == i + 1);
            assert(r.deep_view() =~= v.deep_view().subrange(0, i as int + 1));
        }
        i = i + 1;
    }
    proof {
        assert(r.deep_view() =~= v.deep_view());
    }
    r
}

/// Where a rename from `from` to `to` sends a path: one at or below `from`
/// is re-rooted at `to`, any other stays put.
pub open spec fn remap_path(
    q: Seq<Seq<char>>,
    from: Seq<Seq<char>>,
    to: Seq<Seq<char>>,
) -> Seq<Seq<char>> {
    if is_prefix_of(from, q) {
        to + q.subrange(from.len() as int, q.len() as int)
    } else {
        q
    }
}

/// A file entry's path always has stored content.
proof fn lemma_entry_gives_content(files: Seq<FileEntry>, i: int)
    requires
        0 <= i < files.len(),
    ensures
        file_content_at(files, files[i].path.deep_view()) is Some,
    decreases i,
{
    if files[0].path.deep_view() != files[i].path.deep_view() {
        lemma_entry_gives_content(files.drop_first(), i - 1);
    }
}

proof fn lemma_append_cancel(p: Seq<Seq<char>>, x: Seq<Seq<char>>, y: Seq<Seq<char>>)
    requires
        p + x == p + y,
    ensures
        x == y,
{
    assert((p + x).len() == p.len() + x.len());
    assert((p + y).len() == p.len() + y.len());
    assert(x.len() == y.len());
    assert forall|j: int| 0 <= j < x.len() implies x[j] == y[j] by {
        assert((p + x)[p.len() + j] == x[j]);
        assert((p + y)[p.len() + j] == y[j]);
        assert((p + x)[p.len() + j] == (p + y)[p.len() + j]);
    }
    assert(x =~= y);
}

/// Re-rooting keeps distinct paths distinct, as long as nothing already
/// sat at or below the destination.
proof fn lemma_remap_distinct(
    pa: Seq<Seq<char>>,
    pb: Seq<Seq<char>>,
    from: Seq<Seq<char>>,
    to: Seq<Seq<char>>,
)
    requires
        pa != pb,
        !is_prefix_of(to, pa),
        !is_prefix_of(to, pb),
    ensures
        remap_path(pa, from, to) != remap_path(pb, from, to),
{
    let xa = pa.subrange(from.len() as int, pa.len() as int);
    let xb = pb.subrange(from.len() as int, pb.len() as int);
    if is_prefix_of(from, pa) && is_prefix_of(from, pb) {
        if to + xa == to + xb {
            lemma_append_cancel(to, xa, xb);
            assert(pa =~= from + xa);
            assert(pb =~= from + xb);
        }
    } else if is_prefix_of(from, pa) {
        assert((to + xa).subrange(0, to.len() as int) =~= to);
        assert(is_prefix_of(to, to + xa));
    } else if is_prefix_of(from, pb) {
        assert((to + xb).subrange(0, to.len() as int) =~= to);
        assert(is_prefix_of(to, to + xb));
    }
}

proof fn lemma_dir_at_idx(dirs: Seq<DirEntry>, q: Seq<Seq<char>>, i: int)
    requires
        0 <= i < dirs.len(),
        dirs[i].path.deep_view() == q,
    ensures
        has_dir_entry(dirs, q),
    decreases i,
{
    if i > 0 && dirs[0].path.deep_view() != q {
        lemma_dir_at_idx(dirs.drop_first(), q, i - 1);
    }
}

proof fn lemma_dir_at_none(dirs: Seq<DirEntry>, q: Seq<Seq<char>>)
    requires
        forall|j: int| 0 <= j < dirs.len() ==> dirs[j].path.deep_view() != q,
    ensures
        !has_dir_entry(dirs, q),
    decreases dirs.len(),
{
    if dirs.len() > 0 {
        lemma_dir_at_none(dirs.drop_first(), q);
    }
}

proof fn lemma_dir_push(dirs: Seq<DirEntry>, e: DirEntry)
    ensures
        has_dir_entry(dirs.push(e), e.path.deep_view()),
        forall|q: Seq<Seq<char>>|
            q != e.path.deep_view() ==> has_dir_entry(dirs.push(e), q) == has_dir_entry(dirs, q),
    decreases dirs.len(),
{
    if dirs.len() == 0 {
        assert(dirs.push(e)[0] == e);
        assert forall|q: Seq<Seq<char>>| q != e.path.deep_view() implies has_dir_entry(
            dirs.push(e),
            q,
        ) == has_dir_entry(dirs, q) by {
            assert(dirs.push(e).drop_first() =~= Seq::<DirEntry>::empty());
            assert(has_dir_entry(dirs.push(e), q) == has_dir_entry(
                dirs.push(e).drop_first(),
                q,
            ));
            assert(!has_dir_entry(Seq::<DirEntry>::empty(), q));
        }
    } else {
        assert(dirs.push(e)[0] == dirs[0]);
        assert(dirs.push(e).drop_first() =~= dirs.drop_first().push(e));
        lemma_dir_push(dirs.drop_first(), e);
        assert forall|q: Seq<Seq<char>>| q != e.path.deep_view() implies has_dir_entry(
            dirs.push(e),
            q,
        ) == has_dir_entry(dirs, q) by {
            if dirs[0].path.deep_view() != q {
                assert(has_dir_entry(dirs.push(e), q) == has_dir_entry(
                    dirs.drop_first().push(e),
                    q,
                ));
                assert(has_dir_entry(dirs, q) == has_dir_entry(dirs.drop_first(), q));
            }
        }
    }
}

proof fn lemma_dir_remove(dirs: Seq<DirEntry>, i: int)
    requires
        0 <= i < dirs.len(),
        forall|j: int|
            0 <= j < dirs.len() && j != i ==> dirs[j].path.deep_view() != dirs[i].path.deep_view(),
    ensures
        !has_dir_entry(dirs.remove(i), dirs[i].path.deep_view()),
        forall|q: Seq<Seq<char>>|
            q != dirs[i].path.deep_view() ==> has_dir_entry(dirs.remove(i), q) == has_dir_entry(
                dirs,
                q,
            ),
    decreases i,
{
    let p = dirs[i].path.deep_view();
    let rem = dirs.remove(i);
    if i == 0 {
        assert(rem =~= dirs.drop_first());
        lemma_dir_at_none(dirs.drop_first(), p);
    } else {
        assert(rem[0] == dirs[0]);
        assert(rem.drop_first() =~= dirs.drop_first().remove(i - 1));
        lemma_dir_remove(dirs.drop_first(), i - 1);
        assert(dirs.drop_first()[i - 1] == dirs[i]);
        assert forall|q: Seq<Seq<char>>| q != p implies has_dir_entry(rem, q) == has_dir_entry(
            dirs,
            q,
        ) by {
            if dirs[0].path.deep_view() != q {
                assert(has_dir_entry(rem, q) == has_dir_entry(rem.drop_first(), q));
                assert(has_dir_entry(dirs, q) == has_dir_entry(dirs.drop_first(), q));
            }
        }
    }
}

/// Whether path `q` lies strictly below path `p`.
pub fn path_strictly_under(q: &Vec<String>, p: &Vec<String>) -> (r: bool)
    ensures
        r == is_strictly_under(q.deep_view(), p.deep_view()),
{
    if q.len() <= p.len() {
        proof {
            assert(q.deep_view().len() == q@.len());
            assert(p.deep_view().len() == p@.len());
        }
        return false;
    }
    let mut i: usize = 0;
    while i < p.len()
        invariant
            0 <= i <= p@.len() < q@.len(),
            q.deep_view().len() == q@.len(),
            p.deep_view().len() == p@.len(),
            forall|j: int| 0 <= j < i ==> q.deep_view()[j] == p.deep_view()[j],
        decreases p@.len() - i,
    {
        if !q[i].eq(&p[i]) {
            proof {
                assert(q.deep_view()[i as int] != p.deep_view()[i as int]);
                assert(q.deep_view().subrange(0, p.deep_view().len() as int)[i as int]
                    == q.deep_view()[i as int]);
            }
            return false;
        }
        i = i + 1;
    }
    proof {
        assert(q.deep_view().subrange(0, p.deep_view().len() as int) =~= p.deep_view());
    }
    true
}

/// The served file tree of one directory jail.
pub struct FsModel {
    pub files: Vec<FileEntry>,
    pub dirs: Vec<DirEntry>,
}

impl FsModel {
    pub open spec fn wf(&self) -> bool {
        wf_files(self.files@) && wf_dirs(self.dirs@)
    }

    /// Bytes stored at path `q`, if a file is there.
    pub open spec fn content(&self, q: Seq<Seq<char>>) -> Option<Seq<u8>> {
        file_content_at(self.files@, q)
    }

    pub open spec fn has_file(&self, q: Seq<Seq<char>>) -> bool {
        self.content(q) is Some
    }

    /// The root of the jail always exists as a directory.
    pub open spec fn has_dir(&self, q: Seq<Seq<char>>) -> bool {
        q.len() == 0 || has_dir_entry(self.dirs@, q)
    }

    pub open spec fn exists_at(&self, q: Seq<Seq<char>>) -> bool {
        self.has_file(q) || self.has_dir(q)
    }

    /// Something (file or directory) lies strictly below `p`.
    pub open spec fn has_child(&self, p: Seq<Seq<char>>) -> bool {
        (exists|j: int|
            0 <= j < self.files@.len() && is_strictly_under(
                #[trigger] self.files@[j].path.deep_view(),
                p,
            )) || (exists|j: int|
            0 <= j < self.dirs@.len() && is_strictly_under(
                #[trigger] self.dirs@[j].path.deep_view(),
                p,
            ))
    }

    /// An empty tree: no files, no directories but the root.
    pub fn new() -> (r: FsModel)
        ensures
            r.wf(),
            r.files@.len() == 0,
            r.dirs@.len() == 0,
    {
        FsModel { files: Vec::new(), dirs: Vec::new() }
    }

    fn find_file_idx(&self, p: &Vec<String>) -> (r: Option<usize>)
        ensures
            r matches Some(i) ==> i < self.files@.len() && self.files@[i as int].path.deep_view()
                == p.deep_view() && (forall|j: int|
                0 <= j < i ==> self.files@[j].path.deep_view() != p.deep_view()),
            r is None ==> forall|j: int|
                0 <= j < self.files@.len() ==> self.files@[j].path.deep_view() != p.deep_view(),
    {
        let mut i: usize = 0;
        while i < self.files.len()
            invariant
                0 <= i <= self.files@.len(),
                forall|j: int| 0 <= j < i ==> self.files@[j].path.deep_view() != p.deep_view(),
            decreases self.files@.len() - i,
        {
            if path_eq(&self.files[i].path, p) {
                return Some(i);
            }
            i = i + 1;
        }
        None
    }

    fn find_dir_idx(&self, p: &Vec<String>) -> (r: Option<usize>)
        ensures
            r matches Some(i) ==> i < self.dirs@.len() && self.dirs@[i as int].path.deep_view()
                == p.deep_view(),
            r is None ==> forall|j: int|
                0 <= j < self.dirs@.len() ==> self.dirs@[j].path.deep_view() != p.deep_view(),
    {
        let mut i: usize = 0;
        while i < self.dirs.len()
            invariant
                0 <= i <= self.dirs@.len(),
                forall|j: int| 0 <= j < i ==> self.dirs@[j].path.deep_view() != p.deep_view(),
            decreases self.dirs@.len() - i,
        {
            if path_eq(&self.dirs[i].path, p) {
                return Some(i);
            }
            i = i + 1;
        }
        None
    }

    /// Whether a file is stored at `p`.
    pub fn is_file_at(&self, p: &Vec<String>) -> (r: bool)
        ensures
            r == self.has_file(p.deep_view()),
    {
        match self.find_file_idx(p) {
            Some(i) => {
                proof {
                    lemma_content_at_idx(self.files@, p.deep_view(), i as int);
                }
                true
            },
            None => {
                proof {
                    lemma_content_at_none(self.files@, p.deep_view());
                }
                false
            },
        }
    }

    /// Whether `p` names a directory (the root always does).
    pub fn is_dir_at(&self, p: &Vec<String>) -> (r: bool)
        ensures
            r == self.has_dir(p.deep_view()),
    {
        if p.len() == 0 {
            proof {
                assert(p.deep_view().len() == 0);
            }
            return true;
        }
        proof {
            assert(p.deep_view().len() == p@.len());
        }
        match self.find_dir_idx(p) {
            Some(i) => {
                proof {
                    lemma_dir_at_idx(self.dirs@, p.deep_view(), i as int);
                }
                true
            },
            None => {
                proof {
                    lemma_dir_at_none(self.dirs@, p.deep_view());
                }
                false
            },
        }
    }

    /// Whether anything (file or directory) is at `p`.
    pub fn exists_path(&self, p: &Vec<String>) -> (r: bool)
        ensures
            r == self.exists_at(p.deep_view()),
    {
        self.is_file_at(p) || self.is_dir_at(p)
    }

    /// Whether `p` has its own directory entry (the implicit root has none).
    pub fn is_dir_entry_at(&self, p: &Vec<String>) -> (r: bool)
        ensures
            r == has_dir_entry(self.dirs@, p.deep_view()),
    {
        match self.find_dir_idx(p) {
            Some(i) => {
                proof {
                    lemma_dir_at_idx(self.dirs@, p.deep_view(), i as int);
                }
                true
            },
            None => {
                proof {
                    lemma_dir_at_none(self.dirs@, p.deep_view());
                }
                false
            },
        }
    }

    /// Whether any entry lies strictly below `p`.
    pub fn has_child_at(&self, p: &Vec<String>) -> (r: bool)
        ensures
            r == self.has_child(p.deep_view()),
    {
        let mut i: usize = 0;
        while i < self.files.len()
            invariant
                0 <= i <= self.files@.len(),
                forall|j: int|
                    0 <= j < i ==> !is_strictly_under(
                        #[trigger] self.files@[j].path.deep_view(),
                        p.deep_view(),
                    ),
            decreases self.files@.len() - i,
        {
            if path_strictly_under(&self.files[i].path, p) {
                return true;
            }
            i = i + 1;
        }
        let mut k: usize = 0;
        while k < self.dirs.len()
            invariant
                0 <= k <= self.dirs@.len(),
                forall|j: int|
                    0 <= j < self.files@.len() ==> !is_strictly_under(
                        #[trigger] self.files@[j].path.deep_view(),
                        p.deep_view(),
                    ),
                forall|j: int|
                    0 <= j < k ==> !is_strictly_under(
                        #[trigger] self.dirs@[j].path.deep_view(),
                        p.deep_view(),
                    ),
            decreases self.dirs@.len() - k,
        {
            if path_strictly_under(&self.dirs[k].path, p) {
                return true;
            }
            k = k + 1;
        }
        false
    }

    /// The stored bytes at `p`, exactly when a file is there.
    pub fn read_file(&self, p: &Vec<String>) -> (r: Option<Vec<u8>>)
        ensures
            r matches Some(d) ==> self.content(p.deep_view()) == Some(d@),
            r is None ==> self.content(p.deep_view()) is None,
    {
        match self.find_file_idx(p) {
            Some(i) => {
                proof {
                    lemma_content_at_idx(self.files@, p.deep_view(), i as int);
                }
                Some(copy_bytes(&self.files[i].data))
            },
            None => {
                proof {
                    lemma_content_at_none(self.files@, p.deep_view());
                }
                None
            },
        }
    }

    /// Creates or truncates the file at `p` with the given bytes, touching
    /// no other path and no directory.
    pub fn store(&mut self, p: &Vec<String>, data: Vec<u8>)
        requires
            old(self).wf(),
        ensures
            final(self).wf(),
            final(self).dirs == old(self).dirs,
            final(self).content(p.deep_view()) == Some(data@),
            forall|q: Seq<Seq<char>>|
                q != p.deep_view() ==> final(self).content(q) == old(self).content(q),
    {
        let ghost pdv = p.deep_view();
        let ghost old_files = self.files@;
        match self.find_file_idx(p) {
            Some(i) => {
                let mode = self.files[i].mode;
                let path2 = copy_segs(&self.files[i].path);
                let e = FileEntry { path: path2, data, mode };
                self.files.set(i, e);
                proof {
                    lemma_content_update(old_files, i as int, e);
                    assert(forall|k: int|
                        0 <= k < self.files@.len() ==> self.files@[k].path.deep_view()
                            == old_files[k].path.deep_view());
                }
            },
            None => {
                let e = FileEntry { path: copy_segs(p), data, mode: DEFAULT_FILE_MODE };
                self.files.push(e);
                proof {
                    lemma_content_push(old_files, e);
                    assert forall|a: int, b: int|
                        0 <= a < b < self.files@.len() implies self.files@[a].path.deep_view()
                        != self.files@[b].path.deep_view() by {
                        if b < old_files.len() {
                            assert(self.files@[a] == old_files[a]);
                            assert(self.files@[b] == old_files[b]);
                        } else {
                            assert(self.files@[a] == old_files[a]);
                            assert(self.files@[b] == e);
                        }
                    }
                }
            },
        }
    }

    /// Appends bytes to the file at `p`, creating it when absent.
    pub fn append_file(&mut self, p: &Vec<String>, data: &Vec<u8>)
        requires
            old(self).wf(),
        ensures
            final(self).wf(),
            final(self).dirs == old(self).dirs,
            old(self).content(p.deep_view()) matches Some(c) ==> final(self).content(
                p.deep_view(),
            ) == Some(c + data@),
            old(self).content(p.deep_view()) is None ==> final(self).content(p.deep_view())
                == Some(data@),
            forall|q: Seq<Seq<char>>|
                q != p.deep_view() ==> final(self).content(q) == old(self).content(q),
    {
        let ghost pdv = p.deep_view();
        let ghost old_files = self.files@;
        match self.find_file_idx(p) {
            Some(i) => {
                proof {
                    lemma_content_at_idx(old_files, pdv, i as int);
                }
                let ghost c = self.files@[i as int].data@;
                let mut nd = copy_bytes(&self.files[i].data);
                let mut j: usize = 0;
                while j < data.len()
                    invariant
                        0 <= j <= data@.len(),
                        nd@ =~= c + data@.subrange(0, j as int),
                    decreases data@.len() - j,
                {
                    nd.push(data[j]);
                    proof {
                        assert(nd@ =~= c + data@.subrange(0, j as int + 1));
                    }
                    j = j + 1;
                }
                proof {
                    assert(nd@ =~= c + data@);
                }
                let mode = self.files[i].mode;
                let path2 = copy_segs(&self.files[i].path);
                let e = FileEntry { path: path2, data: nd, mode };
                self.files.set(i, e);
                proof {
                    lemma_content_update(old_files, i as int, e);
                    assert(forall|k: int|
                        0 <= k < self.files@.len() ==> self.files@[k].path.deep_view()
                            == old_files[k].path.deep_view());
                }
            },
            None => {
                proof {
                    lemma_content_at_none(old_files, pdv);
                }
                let e = FileEntry {
                    path: copy_segs(p),
                    data: copy_bytes(data),
                    mode: DEFAULT_FILE_MODE,
                };
                self.files.push(e);
                proof {
                    lemma_content_push(old_files, e);
                    assert forall|a: int, b: int|
                        0 <= a < b < self.files@.len() implies self.files@[a].path.deep_view()
                        != self.files@[b].path.deep_view() by {
                        if b < old_files.len() {
                            assert(self.files@[a] == old_files[a]);
                            assert(self.files@[b] == old_files[b]);
                        } else {
                            assert(self.files@[a] == old_files[a]);
                            assert(self.files@[b] == e);
                        }
                    }
                }
            },
        }
    }

    /// Deletes the file at `p` if one is there; afterwards none is, and no
    /// other path changed.
    pub fn remove_file(&mut self, p: &Vec<String>)
        requires
            old(self).wf(),
        ensures
            final(self).wf(),
            final(self).dirs == old(self).dirs,
            final(self).content(p.deep_view()) is None,
            forall|q: Seq<Seq<char>>|
                q != p.deep_view() ==> final(self).content(q) == old(self).content(q),
    {
        let ghost pdv = p.deep_view();
        let ghost old_files = self.files@;
        match self.find_file_idx(p) {
            Some(i) => {
                self.files.remove(i);
                proof {
                    assert forall|j: int|
                        0 <= j < old_files.len() && j != i implies old_files[j].path.deep_view()
                        != old_files[i as int].path.deep_view() by {
                        if j > i {
                            assert(old_files[i as int].path.deep_view()
                                != old_files[j].path.deep_view());
                        }
                    }
                    lemma_content_remove(old_files, i as int);
                    assert forall|a: int, b: int|
                        0 <= a < b < self.files@.len() implies self.files@[a].path.deep_view()
                        != self.files@[b].path.deep_view() by {
                        let a0: int = if a < i { a } else { a + 1 };
                        let b0: int = if b < i { b } else { b + 1 };
                        assert(self.files@[a] == old_files[a0]);
                        assert(self.files@[b] == old_files[b0]);
                    }
                }
            },
            None => {
                proof {
                    lemma_content_at_none(old_files, pdv);
                }
            },
        }
    }

    /// Creates the directory at `p` together with every missing parent, as
    /// MKD does; files and unrelated directories are untouched.
    pub fn mkdir_all(&mut self, p: &Vec<String>)
        requires
            old(self).wf(),
        ensures
            final(self).wf(),
            final(self).files == old(self).files,
            forall|q: Seq<Seq<char>>| old(self).has_dir(q) ==> final(self).has_dir(q),
            forall|q: Seq<Seq<char>>|
                final(self).has_dir(q) ==> old(self).has_dir(q) || is_prefix_of(q, p.deep_view()),
            forall|m: int|
                0 <= m <= p.deep_view().len() ==> final(self).has_dir(
                    p.deep_view().subrange(0, m),
                ),
            final(self).has_dir(p.deep_view()),
    {
        let ghost pdv = p.deep_view();
        let ghost old_dirs = self.dirs@;
        let mut pref: Vec<String> = Vec::new();
        let mut k: usize = 0;
        proof {
            assert(pref.deep_view() =~= pdv.subrange(0, 0));
        }
        while k < p.len()
            invariant
                0 <= k <= p@.len(),
                pdv == p.deep_view(),
                pref.deep_view() =~= pdv.subrange(0, k as int),
                self.files == old(self).files,
                self.wf(),
                forall|q: Seq<Seq<char>>|
                    has_dir_entry(old_dirs, q) ==> has_dir_entry(self.dirs@, q),
                forall|q: Seq<Seq<char>>|
                    has_dir_entry(self.dirs@, q) ==> has_dir_entry(old_dirs, q) || is_prefix_of(
                        q,
                        pdv,
                    ),
                forall|m: int|
                    0 < m <= k ==> has_dir_entry(self.dirs@, pdv.subrange(0, m)),
            decreases p@.len() - k,
        {
            let ghost prev_pref = pref.deep_view();
            proof {
                assert(prev_pref.len() == pref@.len());
            }
            pref.push(p[k].clone());
            proof {
                assert(pref@.len() == prev_pref.len() + 1);
                assert(pref.deep_view() =~= pdv.subrange(0, k as int + 1));
            }
            let ghost dirs_before = self.dirs@;
            match self.find_dir_idx(&pref) {
                Some(i) => {
                    proof {
                        lemma_dir_at_idx(self.dirs@, pref.deep_view(), i as int);
                    }
                },
                None => {
                    let e = DirEntry { path: copy_segs(&pref), mode: DEFAULT_DIR_MODE };
                    self.dirs.push(e);
                    proof {
                        lemma_dir_push(dirs_before, e);
                        assert forall|a: int, b: int|
                            0 <= a < b < self.dirs@.len() implies self.dirs@[a].path.deep_view()
                            != self.dirs@[b].path.deep_view() by {
                            if b < dirs_before.len() {
                                assert(self.dirs@[a] == dirs_before[a]);
                                assert(self.dirs@[b] == dirs_before[b]);
                            } else {
                                assert(self.dirs@[a] == dirs_before[a]);
                                assert(self.dirs@[b] == e);
                            }
                        }
                    }
                },
            }
            proof {
                assert(has_dir_entry(self.dirs@, pref.deep_view()));
                assert forall|q: Seq<Seq<char>>|
                    has_dir_entry(self.dirs@, q) implies has_dir_entry(old_dirs, q)
                    || is_prefix_of(q, pdv) by {
                    if q == pref.deep_view() {
                        assert(is_prefix_of(q, pdv));
                    } else {
                        assert(has_dir_entry(self.dirs@, q) == has_dir_entry(dirs_before, q));
                    }
                }
                assert forall|q: Seq<Seq<char>>|
                    has_dir_entry(dirs_before, q) implies has_dir_entry(self.dirs@, q) by {
                    if q != pref.deep_view() {
                        assert(has_dir_entry(self.dirs@, q) == has_dir_entry(dirs_before, q));
                    }
                }
                assert forall|m: int| 0 < m <= k + 1 implies has_dir_entry(
                    self.dirs@,
                    pdv.subrange(0, m),
                ) by {
                    if m <= k {
                        assert(has_dir_entry(dirs_before, pdv.subrange(0, m)));
                    } else {
                        assert(pdv.subrange(0, m) == pref.deep_view());
                    }
                }
            }
            k = k + 1;
        }
        proof {
            assert(pdv.subrange(0, pdv.len() as int) =~= pdv);
            assert forall|m: int| 0 <= m <= pdv.len() implies self.has_dir(
                pdv.subrange(0, m),
            ) by {
                if m > 0 {
                    assert(has_dir_entry(self.dirs@, pdv.subrange(0, m)));
                }
            }
            assert forall|q: Seq<Seq<char>>|
                self.has_dir(q) implies old(self).has_dir(q) || is_prefix_of(q, pdv) by {
                if q.len() > 0 && !has_dir_entry(old_dirs, q) && has_dir_entry(self.dirs@, q) {
                    assert(is_prefix_of(q, pdv));
                }
            }
        }
    }

    /// Removes the directory entry at `p`; afterwards only the root would
    /// remain if `p` is the root, and no other directory changed.
    pub fn remove_dir(&mut self, p: &Vec<String>)
        requires
            old(self).wf(),
        ensures
            final(self).wf(),
            final(self).files == old(self).files,
            !has_dir_entry(final(self).dirs@, p.deep_view()),
            forall|q: Seq<Seq<char>>|
                q != p.deep_view() ==> has_dir_entry(final(self).dirs@, q) == has_dir_entry(
                    old(self).dirs@,
                    q,
                ),
    {
        let ghost pdv = p.deep_view();
        let ghost old_dirs = self.dirs@;
        match self.find_dir_idx(p) {
            Some(i) => {
                self.dirs.remove(i);
                proof {
                    assert forall|j: int|
                        0 <= j < old_dirs.len() && j != i implies old_dirs[j].path.deep_view()
                        != old_dirs[i as int].path.deep_view() by {
                        if j > i {
                            assert(old_dirs[i as int].path.deep_view()
                                != old_dirs[j].path.deep_view());
                        }
                    }
                    lemma_dir_remove(old_dirs, i as int);
                    assert forall|a: int, b: int|
                        0 <= a < b < self.dirs@.len() implies self.dirs@[a].path.deep_view()
                        != self.dirs@[b].path.deep_view() by {
                        let a0: int = if a < i { a } else { a + 1 };
                        let b0: int = if b < i { b } else { b + 1 };
                        assert(self.dirs@[a] == old_dirs[a0]);
                        assert(self.dirs@[b] == old_dirs[b0]);
                    }
                }
            },
            None => {
                proof {
                    lemma_dir_at_none(old_dirs, pdv);
                }
            },
        }
    }

    /// Renames the whole subtree at `from` to sit at `to`, as a rename of
    /// a directory does: every file and directory entry at or below `from`
    /// is re-rooted at `to`, everything else keeps its place, content and
    /// modes unchanged. The destination must be free (nothing at or below
    /// `to`) and must not lie inside the source.
    pub fn rename_tree(&mut self, from: &Vec<String>, to: &Vec<String>)
        requires
            old(self).wf(),
            from.deep_view().len() > 0,
            to.deep_view().len() > 0,
            !is_prefix_of(from.deep_view(), to.deep_view()),
            !old(self).has_file(to.deep_view()),
            !has_dir_entry(old(self).dirs@, to.deep_view()),
            !old(self).has_child(to.deep_view()),
        ensures
            final(self).wf(),
            final(self).files@.len() == old(self).files@.len(),
            final(self).dirs@.len() == old(self).dirs@.len(),
            forall|i: int|
                #![trigger final(self).files@[i]]
                0 <= i < old(self).files@.len() ==> {
                    &&& final(self).files@[i].path.deep_view() == remap_path(
                        old(self).files@[i].path.deep_view(),
                        from.deep_view(),
                        to.deep_view(),
                    )
                    &&& final(self).files@[i].data@ == old(self).files@[i].data@
                    &&& final(self).files@[i].mode == old(self).files@[i].mode
                },
            forall|i: int|
                #![trigger final(self).dirs@[i]]
                0 <= i < old(self).dirs@.len() ==> {
                    &&& final(self).dirs@[i].path.deep_view() == remap_path(
                        old(self).dirs@[i].path.deep_view(),
                        from.deep_view(),
                        to.deep_view(),
                    )
                    &&& final(self).dirs@[i].mode == old(self).dirs@[i].mode
                },
    {
        let ghost fdv = from.deep_view();
        let ghost tdv = to.deep_view();
        let ghost old_files = self.files@;
        let ghost old_dirs = self.dirs@;
        let mut i: usize = 0;
        while i < self.files.len()
            invariant
                0 <= i <= self.files@.len() == old_files.len(),
                fdv == from.deep_view(),
                tdv == to.deep_view(),
                self.dirs@ == old_dirs,
                forall|j: int|
                    #![trigger self.files@[j]]
                    0 <= j < i ==> {
                        &&& self.files@[j].path.deep_view() == remap_path(
                            old_files[j].path.deep_view(),
                            fdv,
                            tdv,
                        )
                        &&& self.files@[j].data@ == old_files[j].data@
                        &&& self.files@[j].mode == old_files[j].mode
                    },
                forall|j: int| i <= j < old_files.len() ==> self.files@[j] == old_files[j],
            decreases self.files@.len() - i,
        {
            let ghost snap = self.files@;
            let moved = prefix_check(from, &self.files[i].path);
            if moved {
                let np = remap_exec(&self.files[i].path, from, to);
                let data = copy_bytes(&self.files[i].data);
                let mode = self.files[i].mode;
                self.files.set(i, FileEntry { path: np, data, mode });
            }
            proof {
                assert forall|j: int| #![trigger self.files@[j]] 0 <= j < i + 1 implies {
                    &&& self.files@[j].path.deep_view() == remap_path(
                        old_files[j].path.deep_view(),
                        fdv,
                        tdv,
                    )
                    &&& self.files@[j].data@ == old_files[j].data@
                    &&& self.files@[j].mode == old_files[j].mode
                } by {
                    if j < i {
                        assert(self.files@[j] == snap[j]);
                    } else {
                        assert(snap[j] == old_files[j]);
                    }
                }
            }
            i = i + 1;
        }
        let mut k: usize = 0;
        while k < self.dirs.len()
            invariant
                0 <= k <= self.dirs@.len() == old_dirs.len(),
                fdv == from.deep_view(),
                tdv == to.deep_view(),
                self.files@.len() == old_files.len(),
                forall|j: int|
                    #![trigger self.files@[j]]
                    0 <= j < old_files.len() ==> {
                        &&& self.files@[j].path.deep_view() == remap_path(
                            old_files[j].path.deep_view(),
                            fdv,
                            tdv,
                        )
                        &&& self.files@[j].data@ == old_files[j].data@
                        &&& self.files@[j].mode == old_files[j].mode
                    },
                forall|j: int|
                    #![trigger self.dirs@[j]]
                    0 <= j < k ==> {
                        &&& self.dirs@[j].path.deep_view() == remap_path(
                            old_dirs[j].path.deep_view(),
                            fdv,
                            tdv,
                        )
                        &&& self.dirs@[j].mode == old_dirs[j].mode
                    },
                forall|j: int| k <= j < old_dirs.len() ==> self.dirs@[j] == old_dirs[j],
            decreases self.dirs@.len() - k,
        {
            let ghost snap = self.dirs@;
            let moved = prefix_check(from, &self.dirs[k].path);
            if moved {
                let np = remap_exec(&self.dirs[k].path, from, to);
                let mode = self.dirs[k].mode;
                self.dirs.set(k, DirEntry { path: np, mode });
            }
            proof {
                assert forall|j: int| #![trigger self.dirs@[j]] 0 <= j < k + 1 implies {
                    &&& self.dirs@[j].path.deep_view() == remap_path(
                        old_dirs[j].path.deep_view(),
                        fdv,
                        tdv,
                    )
                    &&& self.dirs@[j].mode == old_dirs[j].mode
                } by {
                    if j < k {
                        assert(self.dirs@[j] == snap[j]);
                    } else {
                        assert(snap[j] == old_dirs[j]);
                    }
                }
            }
            k = k + 1;
        }
        proof {
            assert forall|j: int|
                0 <= j < old_files.len() implies !is_prefix_of(
                tdv,
                old_files[j].path.deep_view(),
            ) by {
                let q = old_files[j].path.deep_view();
                if is_prefix_of(tdv, q) {
                    if q.len() == tdv.len() {
                        assert(q =~= tdv);
                        lemma_entry_gives_content(old_files, j);
                    } else {
                        assert(is_strictly_under(q, tdv));
                        assert(old(self).has_child(tdv));
                    }
                }
            }
            assert forall|j: int|
                0 <= j < old_dirs.len() implies !is_prefix_of(
                tdv,
                old_dirs[j].path.deep_view(),
            ) by {
                let q = old_dirs[j].path.deep_view();
                if is_prefix_of(tdv, q) {
                    if q.len() == tdv.len() {
                        assert(q =~= tdv);
                        lemma_dir_at_idx(old_dirs, tdv, j);
                    } else {
                        assert(is_strictly_under(q, tdv));
                        assert(old(self).has_child(tdv));
                    }
                }
            }
            assert forall|a: int, b: int|
                0 <= a < b < self.files@.len() implies self.files@[a].path.deep_view()
                != self.files@[b].path.deep_view() by {
                lemma_remap_distinct(
                    old_files[a].path.deep_view(),
                    old_files[b].path.deep_view(),
                    fdv,
                    tdv,
                );
            }
            assert forall|a: int, b: int|
                0 <= a < b < self.dirs@.len() implies self.dirs@[a].path.deep_view()
                != self.dirs@[b].path.deep_view() by {
                lemma_remap_distinct(
                    old_dirs[a].path.deep_view(),
                    old_dirs[b].path.deep_view(),
                    fdv,
                    tdv,
                );
            }
        }
    }
}

/// Whether `from` is a prefix of `q`: `q` names `from` itself or
/// something below it.
fn prefix_check(from: &Vec<String>, q: &Vec<String>) -> (r: bool)
    ensures
        r == is_prefix_of(from.deep_view(), q.deep_view()),
{
    let at = path_eq(q, from);
    let under = path_strictly_under(q, from);
    proof {
        let fdv = from.deep_view();
        let qdv = q.deep_view();
        if is_prefix_of(fdv, qdv) && qdv.len() == fdv.len() {
            assert(qdv =~= qdv.subrange(0, qdv.len() as int));
            assert(qdv == fdv);
        }
        if is_prefix_of(fdv, qdv) && qdv.len() > fdv.len() {
            assert(is_strictly_under(qdv, fdv));
        }
        if at {
            assert(fdv =~= qdv.subrange(0, fdv.len() as int));
        }
    }
    at || under
}

/// Re-roots a path at `to`: the part of `q` below `from` is kept, the
/// `from` prefix is replaced.
fn remap_exec(q: &Vec<String>, from: &Vec<String>, to: &Vec<String>) -> (r: Vec<String>)
    requires
        is_prefix_of(from.deep_view(), q.deep_view()),
    ensures
        r.deep_view() == remap_path(q.deep_view(), from.deep_view(), to.deep_view()),
{
    let ghost fdv = from.deep_view();
    let ghost qdv = q.deep_view();
    let ghost tdv = to.deep_view();
    let mut r = copy_segs(to);
    proof {
        assert(fdv.len() == from@.len() && qdv.len() == q@.len());
        assert(r.deep_view() =~= tdv + qdv.subrange(fdv.len() as int, fdv.len() as int));
    }
    let mut j: usize = from.len();
    while j < q.len()
        invariant
            from@.len() <= j <= q@.len(),
            fdv == from.deep_view(),
            qdv == q.deep_view(),
            tdv == to.deep_view(),
            fdv.len() == from@.len(),
            qdv.len() == q@.len(),
            r.deep_view() =~= tdv + qdv.subrange(fdv.len() as int, j as int),
        decreases q@.len() - j,
    {
        let ghost prev = r.deep_view();
        proof {
            assert(prev.len() == r@.len());
        }
        r.push(q[j].clone());
        proof {
            assert(r@.len() == prev.len() + 1);
            assert(r.deep_view() =~= prev.push(qdv[j as int]));
            assert(qdv.subrange(fdv.len() as int, j as int + 1) =~= qdv.subrange(
                fdv.len() as int,
                j as int,
            ).push(qdv[j as int]));
            assert(r.deep_view() =~= tdv + qdv.subrange(fdv.len() as int, j as int + 1));
        }
        j = j + 1;
    }
    proof {
        assert(r.deep_view() =~= tdv + qdv.subrange(fdv.len() as int, qdv.len() as int));
    }
    r
}

} // verus!
