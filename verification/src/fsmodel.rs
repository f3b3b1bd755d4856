//! A model of the filesystem collaborator: which directories and files
//! exist, each file with its content. The collaborator itself is outside
//! this library; the model states the documented effect of the requests
//! the work units make, and the laws below prove what the units'
//! parent-creation policy achieves on any such filesystem.

use vstd::prelude::*;
use crate::scope::parent_raw;

verus! {

/// The filesystem as the units see it: a set of existing directories
/// and a map from existing files to their contents.
#[verifier::ext_equal]
pub struct FsModel {
    pub dirs: Set<Seq<char>>,
    pub files: Map<Seq<char>, Seq<u8>>,
}

/// The directories that recursive creation builds besides the path
/// itself: every prefix of the path that ends just before a separator.
pub open spec fn ancestors(p: Seq<char>) -> Set<Seq<char>> {
    Set::new(|q: Seq<char>| exists|j: int| 0 <= j < p.len() && p[j] == '/' && q == p.take(j))
}

/// The effect of the collaborator's recursive directory creation: the
/// path and all its missing ancestors exist afterwards; files are
/// untouched and nothing is ever removed. An already existing tree is
/// left as it is — creation over it succeeds.
pub open spec fn apply_create_dir_all(fs: FsModel, p: Seq<char>) -> FsModel {
    FsModel { dirs: fs.dirs.union(ancestors(p)).insert(p), files: fs.files }
}

/// The effect of creating a file: the file exists and is empty
/// afterwards (creation truncates an existing file); directories are
/// untouched.
pub open spec fn apply_create_file(fs: FsModel, p: Seq<char>) -> FsModel {
    FsModel { dirs: fs.dirs, files: fs.files.insert(p, Seq::empty()) }
}

/// The file-creating unit's whole effect: probe the enclosing
/// directory, create it with all its missing ancestors when the probe
/// did not confirm it, then create the file itself regardless.
pub open spec fn apply_create_file_unit(fs: FsModel, p: Seq<char>) -> FsModel {
    let parent = parent_raw(p);
    let fs1 = if fs.dirs.contains(parent) {
        fs
    } else {
        apply_create_dir_all(fs, parent)
    };
    apply_create_file(fs1, p)
}

/// Recursive directory creation is idempotent: creating the same tree a
/// second time succeeds and changes nothing.
pub proof fn lemma_create_dir_idempotent(fs: FsModel, p: Seq<char>)
    ensures
        apply_create_dir_all(apply_create_dir_all(fs, p), p) == apply_create_dir_all(fs, p),
{
    assert(apply_create_dir_all(apply_create_dir_all(fs, p), p).dirs =~= apply_create_dir_all(
        fs,
        p,
    ).dirs);
    assert(apply_create_dir_all(apply_create_dir_all(fs, p), p) =~= apply_create_dir_all(fs, p));
}

/// After the file-creating unit runs on a path whose enclosing
/// directory was missing, that directory and all its missing ancestors
/// exist, and the file exists and is empty.
pub proof fn lemma_create_file_builds_parents(fs: FsModel, p: Seq<char>)
    requires
        !fs.dirs.contains(parent_raw(p)),
    ensures
        apply_create_file_unit(fs, p).dirs.contains(parent_raw(p)),
        forall|q: Seq<char>|
            ancestors(parent_raw(p)).contains(q) ==> apply_create_file_unit(fs, p).dirs.contains(
                q,
            ),
        apply_create_file_unit(fs, p).files.contains_key(p),
        apply_create_file_unit(fs, p).files[p] == Seq::<u8>::empty(),
{
}

/// A coherent filesystem: every existing directory's ancestors exist
/// too.
pub open spec fn dirs_closed(fs: FsModel) -> bool {
    forall|d: Seq<char>| fs.dirs.contains(d) ==> #[trigger] ancestors(d).subset_of(fs.dirs)
}

/// An ancestor's own ancestors are ancestors of the longer path too.
proof fn lemma_ancestors_nested(p: Seq<char>, q: Seq<char>)
    requires
        ancestors(p).contains(q),
    ensures
        ancestors(q).subset_of(ancestors(p)),
{
    let j = choose|j: int| 0 <= j < p.len() && p[j] == '/' && q == p.take(j);
    assert forall|r: Seq<char>| ancestors(q).contains(r) implies ancestors(p).contains(r) by {
        let k = choose|k: int| 0 <= k < q.len() && q[k] == '/' && r == q.take(k);
        assert(q[k] == p[k]);
        assert(p.take(j).take(k) =~= p.take(k));
        assert(0 <= k < p.len() && p[k] == '/' && r == p.take(k));
    };
}

/// Recursive creation keeps the filesystem coherent: nothing it builds
/// is left without its own ancestors.
pub proof fn lemma_create_dir_keeps_closure(fs: FsModel, p: Seq<char>)
    requires
        dirs_closed(fs),
    ensures
        dirs_closed(apply_create_dir_all(fs, p)),
{
    let r = apply_create_dir_all(fs, p);
    assert forall|d: Seq<char>| r.dirs.contains(d) implies #[trigger] ancestors(d).subset_of(
        r.dirs,
    ) by {
        if fs.dirs.contains(d) {
            assert(ancestors(d).subset_of(fs.dirs));
        } else if ancestors(p).contains(d) {
            lemma_ancestors_nested(p, d);
        } else {
            assert(d == p);
        }
    };
}

/// Creating a file never removes a directory: whatever existed before
/// the unit ran still exists afterwards.
pub proof fn lemma_create_file_preserves_dirs(fs: FsModel, p: Seq<char>, d: Seq<char>)
    requires
        fs.dirs.contains(d),
    ensures
        apply_create_file_unit(fs, p).dirs.contains(d),
{
}

} // verus!
