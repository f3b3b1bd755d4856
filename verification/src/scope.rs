//! The path scope guard: purely syntactic validation of path strings
//! against a base directory. A `ScopedPath` can only be constructed for a
//! path that equals the base or lies below it, so an out-of-scope path
//! never exists as a value. `parent` drops the last path segment and
//! clamps to the base, so it never escapes the scope and never errors.

use vstd::prelude::*;

verus! {

/// Why a raw path was rejected by the guard.
#[derive(Debug, PartialEq, Eq, Structural)]
pub enum PathError {
    OutOfScope,
}

/// Whether `p` lies in the scope of `base`: it equals the base, or it
/// starts with the base followed by the path separator.
pub open spec fn in_scope(p: Seq<char>, base: Seq<char>) -> bool {
    ||| p == base
    ||| (p.len() > base.len() && p.take(base.len() as int) == base && p[base.len() as int] == '/')
}

/// The index of the last path separator in `p`, or -1 when there is none.
pub open spec fn last_sep(p: Seq<char>) -> int
    decreases p.len(),
{
    if p.len() == 0 {
        -1
    } else if p[p.len() - 1] == '/' {
        p.len() - 1
    } else {
        last_sep(p.drop_last())
    }
}

/// The enclosing directory of `p` within the scope of `base`: everything
/// before the last separator, clamped to the base itself when `p` is the
/// base or when dropping the last segment would not reach below it.
pub open spec fn parent_of(p: Seq<char>, base: Seq<char>) -> Seq<char> {
    if p == base || last_sep(p) <= base.len() {
        base
    } else {
        p.take(last_sep(p))
    }
}

/// The last separator never points past the end, and where it points a
/// separator stands.
proof fn lemma_last_sep_bounds(p: Seq<char>)
    ensures
        -1 <= last_sep(p) < p.len(),
        last_sep(p) >= 0 ==> p[last_sep(p)] == '/',
    decreases p.len(),
{
    if p.len() > 0 && p[p.len() - 1] != '/' {
        lemma_last_sep_bounds(p.drop_last());
        assert(forall|k: int| 0 <= k < p.len() - 1 ==> p.drop_last()[k] == p[k]);
    }
}

/// A separator at index `k` bounds the last separator from below.
proof fn lemma_last_sep_ge(p: Seq<char>, k: int)
    requires
        0 <= k < p.len(),
        p[k] == '/',
    ensures
        last_sep(p) >= k,
    decreases p.len(),
{
    if p[p.len() - 1] != '/' {
        assert(k < p.len() - 1);
        assert(p.drop_last()[k] == p[k]);
        lemma_last_sep_ge(p.drop_last(), k);
    }
}

/// The guard's central law: taking the parent of a path in scope yields a
/// path that is still in scope — never empty, never outside the base.
pub proof fn lemma_parent_never_escapes(p: Seq<char>, base: Seq<char>)
    requires
        in_scope(p, base),
    ensures
        in_scope(parent_of(p, base), base),
{
    if p != base {
        let bl = base.len() as int;
        lemma_last_sep_ge(p, bl);
        lemma_last_sep_bounds(p);
        let j = last_sep(p);
        if j > bl {
            assert(p.take(j).take(bl) =~= p.take(bl));
            assert(p.take(j)[bl] == p[bl]);
        }
    }
}

/// Taking the parent of the base directory itself returns the base
/// directory unchanged: the operation is idempotent at the root.
pub proof fn lemma_parent_of_base(base: Seq<char>)
    ensures
        parent_of(base, base) == base,
{
}

/// The enclosing directory of a raw, unscoped path: everything before
/// the last separator, or the empty path when the path holds none.
pub open spec fn parent_raw(p: Seq<char>) -> Seq<char> {
    if last_sep(p) < 0 {
        Seq::empty()
    } else {
        p.take(last_sep(p))
    }
}

/// Finds the last separator of a path: whether one exists, and where.
fn find_last_sep(p: &str) -> (r: (bool, usize))
    ensures
        r.0 == (last_sep(p@) >= 0),
        r.0 ==> r.1 as int == last_sep(p@) && r.1 < p@.len(),
{
    proof {
        lemma_last_sep_bounds(p@);
    }
    let n = p.unicode_len();
    let mut j: usize = 0;
    let mut found: bool = false;
    let mut i: usize = 0;
    while i < n
        invariant
            0 <= i <= n,
            n == p@.len(),
            found ==> j as int == last_sep(p@.take(i as int)) && j < i,
            !found ==> last_sep(p@.take(i as int)) == -1,
        decreases n - i,
    {
        proof {
            assert(p@.take(i as int + 1).drop_last() =~= p@.take(i as int));
        }
        if p.get_char(i) == '/' {
            j = i;
            found = true;
        }
        i += 1;
    }
    proof {
        assert(p@.take(n as int) =~= p@);
    }
    (found, j)
}

/// Drops the last segment of a raw, unscoped path, as `parent_raw`
/// states. Used by the file-creating work unit, whose parent probe does
/// not consult a base directory.
pub fn parent_component(p: &str) -> (r: String)
    ensures
        r@ == parent_raw(p@),
{
    let (found, j) = find_last_sep(p);
    if found {
        p.substring_char(0, j).to_owned()
    } else {
        String::new()
    }
}

/// A path value that provably lies within the scope of its base
/// directory. Built only through `resolve`, so the invariant always
/// holds.
pub struct ScopedPath {
    base: String,
    path: String,
}

impl ScopedPath {
    /// The base directory this path was validated against.
    pub closed spec fn base_spec(self) -> Seq<char> {
        self.base@
    }

    /// The path itself.
    pub closed spec fn path_spec(self) -> Seq<char> {
        self.path@
    }

    /// The invariant: the path lies in the scope of the base.
    pub open spec fn wf(self) -> bool {
        in_scope(self.path_spec(), self.base_spec())
    }

    /// The path as a string slice, for the caller that performs the
    /// filesystem effect.
    pub fn as_str(&self) -> (r: &str)
        ensures
            r@ == self.path_spec(),
    {
        self.path.as_str()
    }

    /// The base directory as a string slice.
    pub fn base_str(&self) -> (r: &str)
        ensures
            r@ == self.base_spec(),
    {
        self.base.as_str()
    }

    /// Validates a raw path against a base directory: accepted exactly
    /// when it equals the base or starts with the base followed by the
    /// separator; everything else is out of scope.
    pub fn resolve(base: &str, raw: &str) -> (r: Result<ScopedPath, PathError>)
        ensures
            match r {
                Ok(p) => {
                    &&& in_scope(raw@, base@)
                    &&& p.wf()
                    &&& p.path_spec() == raw@
                    &&& p.base_spec() == base@
                },
                Err(e) => !in_scope(raw@, base@) && e == PathError::OutOfScope,
            },
    {
        let bl = base.unicode_len();
        let n = raw.unicode_len();
        if crate::strutil::str_eq(base, raw) {
            return Ok(ScopedPath { base: base.to_owned(), path: raw.to_owned() });
        }
        if n <= bl {
            return Err(PathError::OutOfScope);
        }
        if raw.get_char(bl) != '/' {
            return Err(PathError::OutOfScope);
        }
        let mut i: usize = 0;
        while i < bl
            invariant
                0 <= i <= bl,
                bl == base@.len(),
                n == raw@.len(),
                n > bl,
                forall|k: int| 0 <= k < i ==> raw@[k] == base@[k],
            decreases bl - i,
        {
            if raw.get_char(i) != base.get_char(i) {
                proof {
                    assert(raw@.take(bl as int)[i as int] != base@[i as int]);
                }
                return Err(PathError::OutOfScope);
            }
            i += 1;
        }
        proof {
            assert(raw@.take(bl as int) =~= base@);
        }
        Ok(ScopedPath { base: base.to_owned(), path: raw.to_owned() })
    }

    /// The enclosing directory: drops the last path segment, clamping to
    /// the base directory so the result never leaves the scope.
    pub fn parent(&self) -> (r: ScopedPath)
        requires
            self.wf(),
        ensures
            r.wf(),
            r.base_spec() == self.base_spec(),
            r.path_spec() == parent_of(self.path_spec(), self.base_spec()),
    {
        proof {
            lemma_parent_never_escapes(self.path_spec(), self.base_spec());
            lemma_last_sep_bounds(self.path_spec());
        }
        let bl = self.base.as_str().unicode_len();
        if crate::strutil::str_eq(self.path.as_str(), self.base.as_str()) {
            return ScopedPath { base: self.base.clone(), path: self.base.clone() };
        }
        let (found, j) = find_last_sep(self.path.as_str());
        if !found || j <= bl {
            ScopedPath { base: self.base.clone(), path: self.base.clone() }
        } else {
            ScopedPath {
                base: self.base.clone(),
                path: self.path.as_str().substring_char(0, j).to_owned(),
            }
        }
    }
}

} // verus!
