use vstd::prelude::*;

use crate::text::{push_all, SLASH};

verus! {

/// Why a client path could not be resolved inside the server root.
#[derive(Clone, Copy, Debug, PartialEq, Eq, Structural)]
pub enum PathError {
    /// The path does not exist on disk.
    NotFound,
    /// The path exists but lies outside the server root.
    PermissionDenied,
}

/// Whether a path is absolute, that is anchored at `/`.
pub open spec fn is_absolute(p: Seq<u8>) -> bool {
    p.len() > 0 && p[0] == SLASH
}

/// `p` joined onto `base`: `p` itself when it is absolute, else `base`, a
/// separator where `base` does not already end in one, then `p`.
pub open spec fn join(base: Seq<u8>, p: Seq<u8>) -> Seq<u8> {
    if is_absolute(p) {
        p
    } else if base.len() > 0 && base.last() == SLASH {
        base + p
    } else {
        base + seq![SLASH] + p
    }
}

/// `p` without its leading separators, which makes it relative.
pub open spec fn strip_root(p: Seq<u8>) -> Seq<u8>
    decreases p.len(),
{
    if p.len() > 0 && p[0] == SLASH {
        strip_root(p.drop_first())
    } else {
        p
    }
}

/// The filesystem path that a client path names under the server root,
/// before canonicalization.
pub open spec fn under_root(root: Seq<u8>, client: Seq<u8>) -> Seq<u8> {
    join(root, strip_root(client))
}

/// Whether path `c` is `root` itself or lies below it, compared component
/// by component.
pub open spec fn within(root: Seq<u8>, c: Seq<u8>) -> bool {
    c == root || (c.len() > root.len() && c.subrange(0, root.len() as int) == root && ((root.len()
        > 0 && root.last() == SLASH) || c[root.len() as int] == SLASH))
}

/// The byte sequence held by an optional vector.
pub open spec fn bytes_opt(o: Option<Vec<u8>>) -> Option<Seq<u8>> {
    match o {
        Some(v) => Some(v@),
        None => None,
    }
}

/// The outcome of confining a canonicalized path to the root.
pub open spec fn confined(canonical: Option<Seq<u8>>, root: Seq<u8>) -> Result<
    Seq<u8>,
    PathError,
> {
    match canonical {
        None => Err(PathError::NotFound),
        Some(c) => if within(root, c) {
            Ok(c)
        } else {
            Err(PathError::PermissionDenied)
        },
    }
}

/// The client's view of a path below the root: `/` for the root itself,
/// otherwise `/` followed by the part below the root.
pub open spec fn relative_form(root: Seq<u8>, c: Seq<u8>) -> Seq<u8> {
    if c.len() <= root.len() {
        seq![SLASH]
    } else if root.len() > 0 && root.last() == SLASH {
        seq![SLASH] + c.subrange(root.len() as int, c.len() as int)
    } else {
        c.subrange(root.len() as int, c.len() as int)
    }
}

/// The index of the last separator in `s`, or -1 when it has none.
pub open spec fn last_slash(s: Seq<u8>) -> int
    decreases s.len(),
{
    if s.len() == 0 {
        -1
    } else if s.last() == SLASH {
        s.len() - 1
    } else {
        last_slash(s.drop_last())
    }
}

/// The parent of a client directory: everything before its last separator,
/// or `/` where that would be empty. The root and paths of at most one byte
/// are their own parent.
pub open spec fn parent_of(p: Seq<u8>) -> Seq<u8> {
    if p.len() <= 1 {
        p
    } else if last_slash(p) <= 0 {
        seq![SLASH]
    } else {
        p.subrange(0, last_slash(p))
    }
}

/// `p` without its trailing separators and `.` components, which name the
/// directory before them.
pub open spec fn trim_end(p: Seq<u8>) -> Seq<u8>
    decreases p.len(),
{
    if p.len() > 0 && p.last() == SLASH {
        trim_end(p.drop_last())
    } else if ends_with_dot_component(p) {
        trim_end(p.drop_last())
    } else {
        p
    }
}

/// Whether a path ends with a `.` component (a separator, then a dot).
pub open spec fn ends_with_dot_component(p: Seq<u8>) -> bool {
    p.len() >= 2 && p.last() == 46u8 && p[p.len() - 2] == SLASH
}

/// Whether a name is `.` or `..`, which name no new entry.
pub open spec fn is_dot_name(n: Seq<u8>) -> bool {
    n == seq![46u8] || n == seq![46u8, 46u8]
}

/// A path split into its parent directory and its last component, for
/// creating that component. `None` when the path has no separator or its
/// last component is empty, `.` or `..`.
pub open spec fn leaf_split(p: Seq<u8>) -> Option<(Seq<u8>, Seq<u8>)> {
    let t = trim_end(p);
    let i = last_slash(t);
    let leaf = t.subrange(i + 1, t.len() as int);
    if i < 0 || leaf.len() == 0 || is_dot_name(leaf) {
        None
    } else if i == 0 {
        Some((seq![SLASH], leaf))
    } else {
        Some((t.subrange(0, i), leaf))
    }
}

/// The bytes `s[lo..hi]` as a vector.
pub fn sub_bytes(s: &Vec<u8>, lo: usize, hi: usize) -> (r: Vec<u8>)
    requires
        lo <= hi <= s@.len(),
    ensures
        r@ == s@.subrange(lo as int, hi as int),
{
    let mut out: Vec<u8> = Vec::new();
    let mut i: usize = lo;
    while i < hi
        invariant
            lo <= i <= hi <= s@.len(),
            out@ == s@.subrange(lo as int, i as int),
        decreases hi - i,
    {
        out.push(s[i]);
        i = i + 1;
        proof {
            assert(out@ =~= s@.subrange(lo as int, i as int));
        }
    }
    out
}

/// Joins `p` onto `base` as a path.
pub fn join_path(base: &Vec<u8>, p: &Vec<u8>) -> (r: Vec<u8>)
    ensures
        r@ == join(base@, p@),
{
    if p.len() > 0 && p[0] == SLASH {
        return p.clone();
    }
    let mut out = base.clone();
    if !(base.len() > 0 && base[base.len() - 1] == SLASH) {
        out.push(SLASH);
    }
    push_all(&mut out, p);
    out
}

/// Removes the leading separators of a client path.
pub fn strip_root_of(p: &Vec<u8>) -> (r: Vec<u8>)
    ensures
        r@ == strip_root(p@),
{
    let mut i: usize = 0;
    proof {
        assert(p@.subrange(0, p@.len() as int) =~= p@);
    }
    while i < p.len() && p[i] == SLASH
        invariant
            i <= p@.len(),
            strip_root(p@) == strip_root(p@.subrange(i as int, p@.len() as int)),
        decreases p@.len() - i,
    {
        proof {
            assert(p@.subrange(i as int, p@.len() as int).drop_first() =~= p@.subrange(
                i + 1,
                p@.len() as int,
            ));
        }
        i = i + 1;
    }
    proof {
        assert(p@.subrange(0, p@.len() as int) =~= p@);
    }
    sub_bytes(p, i, p.len())
}

/// The filesystem path that a client path names under the server root,
/// ready to be canonicalized.
pub fn path_under_root(root: &Vec<u8>, client: &Vec<u8>) -> (r: Vec<u8>)
    ensures
        r@ == under_root(root@, client@),
{
    let rel = strip_root_of(client);
    join_path(root, &rel)
}

/// Whether the canonical path `c` is the root or lies below it.
pub fn is_within(root: &Vec<u8>, c: &Vec<u8>) -> (r: bool)
    ensures
        r == within(root@, c@),
{
    if c.len() < root.len() {
        return false;
    }
    let mut i: usize = 0;
    while i < root.len()
        invariant
            root@.len() <= c@.len(),
            i <= root@.len(),
            forall|j: int| 0 <= j < i ==> c@[j] == root@[j],
        decreases root@.len() - i,
    {
        if c[i] != root[i] {
            proof {
                assert(c@.subrange(0, root@.len() as int)[i as int] != root@[i as int]);
            }
            return false;
        }
        i = i + 1;
    }
    proof {
        assert(c@.subrange(0, root@.len() as int) =~= root@);
    }
    if c.len() == root.len() {
        proof {
            assert(c@ =~= root@);
        }
        return true;
    }
    assert(c@ != root@);
    (root.len() > 0 && root[root.len() - 1] == SLASH) || c[root.len()] == SLASH
}

/// Confines a canonicalized path to the server root. `canonical` is what
/// canonicalization of the joined path gave: `None` where the path does not
/// exist. A path outside the root is refused.
pub fn confine(canonical: Option<Vec<u8>>, root: &Vec<u8>) -> (r: Result<Vec<u8>, PathError>)
    ensures
        match r {
            Ok(c) => confined(bytes_opt(canonical), root@) == Ok::<Seq<u8>, PathError>(c@),
            Err(e) => confined(bytes_opt(canonical), root@) == Err::<Seq<u8>, PathError>(e),
        },
        r matches Ok(c) ==> within(root@, c@),
{
    match canonical {
        None => Err(PathError::NotFound),
        Some(c) => {
            if is_within(root, &c) {
                Ok(c)
            } else {
                Err(PathError::PermissionDenied)
            }
        },
    }
}

/// The client's view of a canonical path that lies within the root.
pub fn relative_to_root(root: &Vec<u8>, c: &Vec<u8>) -> (r: Vec<u8>)
    ensures
        r@ == relative_form(root@, c@),
{
    if c.len() <= root.len() {
        let mut out: Vec<u8> = Vec::new();
        out.push(SLASH);
        proof {
            assert(out@ =~= seq![SLASH]);
        }
        return out;
    }
    let tail = sub_bytes(c, root.len(), c.len());
    if root.len() > 0 && root[root.len() - 1] == SLASH {
        let mut out: Vec<u8> = Vec::new();
        out.push(SLASH);
        push_all(&mut out, &tail);
        proof {
            assert(out@ =~= seq![SLASH] + tail@);
        }
        out
    } else {
        tail
    }
}

/// The index of the last separator in `s`, if it has one.
fn find_last_slash(s: &Vec<u8>) -> (r: Option<usize>)
    ensures
        match r {
            Some(i) => i as int == last_slash(s@),
            None => last_slash(s@) == -1,
        },
{
    let mut i: usize = s.len();
    proof {
        assert(s@.subrange(0, s@.len() as int) =~= s@);
    }
    while i > 0
        invariant
            i <= s@.len(),
            last_slash(s@) == last_slash(s@.subrange(0, i as int)),
        decreases i,
    {
        if s[i - 1] == SLASH {
            return Some(i - 1);
        }
        proof {
            assert(s@.subrange(0, i as int).drop_last() =~= s@.subrange(0, i - 1));
        }
        i = i - 1;
    }
    None
}

/// The parent of a client directory (the root is its own parent).
pub fn parent_dir(p: &Vec<u8>) -> (r: Vec<u8>)
    ensures
        r@ == parent_of(p@),
{
    if p.len() <= 1 {
        return p.clone();
    }
    let found = find_last_slash(p);
    if found.is_none() || found == Some(0usize) {
        let mut out: Vec<u8> = Vec::new();
        out.push(SLASH);
        proof {
            assert(out@ =~= seq![SLASH]);
        }
        out
    } else {
        proof {
            assert(last_slash(p@) < p@.len()) by {
                lemma_last_slash_bound(p@);
            }
        }
        sub_bytes(p, 0, found.unwrap())
    }
}

/// The last separator lies inside the path.
pub proof fn lemma_last_slash_bound(s: Seq<u8>)
    ensures
        -1 <= last_slash(s) < s.len(),
        last_slash(s) >= 0 ==> s[last_slash(s)] == SLASH,
    decreases s.len(),
{
    if s.len() > 0 && s.last() != SLASH {
        lemma_last_slash_bound(s.drop_last());
    }
}

/// Removes the trailing separators and `.` components of a path.
fn trim_end_of(p: &Vec<u8>) -> (r: Vec<u8>)
    ensures
        r@ == trim_end(p@),
{
    let mut i: usize = p.len();
    proof {
        assert(p@.subrange(0, p@.len() as int) =~= p@);
    }
    while i > 0 && (p[i - 1] == SLASH || (i >= 2 && p[i - 1] == 46u8 && p[i - 2] == SLASH))
        invariant
            i <= p@.len(),
            trim_end(p@) == trim_end(p@.subrange(0, i as int)),
        decreases i,
    {
        proof {
            assert(p@.subrange(0, i as int).drop_last() =~= p@.subrange(0, i - 1));
        }
        i = i - 1;
    }
    sub_bytes(p, 0, i)
}

/// Splits a path into its parent directory and its last component.
pub fn split_leaf(p: &Vec<u8>) -> (r: Option<(Vec<u8>, Vec<u8>)>)
    ensures
        match r {
            Some((d, n)) => leaf_split(p@) == Some((d@, n@)),
            None => leaf_split(p@) is None,
        },
{
    let t = trim_end_of(p);
    proof {
        lemma_trim_end_len(p@);
        lemma_last_slash_bound(t@);
    }
    let found = find_last_slash(&t);
    if found.is_none() {
        return None;
    }
    let i = found.unwrap();
    let leaf = sub_bytes(&t, i + 1, t.len());
    if leaf.len() == 0 || (leaf.len() == 1 && leaf[0] == 46u8) || (leaf.len() == 2 && leaf[0]
        == 46u8 && leaf[1] == 46u8) {
        proof {
            assert(leaf@.len() == 1 && leaf@[0] == 46u8 ==> leaf@ =~= seq![46u8]);
            assert(leaf@.len() == 2 && leaf@[0] == 46u8 && leaf@[1] == 46u8 ==> leaf@ =~= seq![46u8, 46u8]);
        }
        return None;
    }
    proof {
        assert(!is_dot_name(leaf@)) by {
            if leaf@ == seq![46u8] {
                assert(leaf@.len() == 1 && leaf@[0] == 46u8);
            }
            if leaf@ == seq![46u8, 46u8] {
                assert(leaf@.len() == 2 && leaf@[0] == 46u8 && leaf@[1] == 46u8);
            }
        }
    }
    if i == 0 {
        let mut d: Vec<u8> = Vec::new();
        d.push(SLASH);
        proof {
            assert(d@ =~= seq![SLASH]);
        }
        Some((d, leaf))
    } else {
        Some((sub_bytes(&t, 0, i), leaf))
    }
}

/// Trimming separators never lengthens a path.
proof fn lemma_trim_end_len(p: Seq<u8>)
    ensures
        trim_end(p).len() <= p.len(),
    decreases p.len(),
{
    if (p.len() > 0 && p.last() == SLASH) || ends_with_dot_component(p) {
        lemma_trim_end_len(p.drop_last());
    }
}

/// Whether a path is a normalized absolute directory: it starts with a
/// separator, has no empty component (no two separators in a row) and,
/// unless it is `/`, does not end with a separator.
pub open spec fn normal_dir(p: Seq<u8>) -> bool {
    &&& is_absolute(p)
    &&& (p.len() == 1 || p.last() != SLASH)
    &&& forall|i: int| 0 <= i < p.len() - 1 ==> !(#[trigger] p[i] == SLASH && p[i + 1] == SLASH)
}

/// Whether a client directory is normalized.
pub fn is_normal_dir(p: &Vec<u8>) -> (r: bool)
    ensures
        r == normal_dir(p@),
{
    if p.len() == 0 || p[0] != SLASH {
        return false;
    }
    if p.len() > 1 && p[p.len() - 1] == SLASH {
        return false;
    }
    let mut i: usize = 0;
    while i < p.len() - 1
        invariant
            p@.len() >= 1,
            i < p@.len(),
            forall|j: int| 0 <= j < i ==> !(#[trigger] p@[j] == SLASH && p@[j + 1] == SLASH),
        decreases p@.len() - i,
    {
        if p[i] == SLASH && p[i + 1] == SLASH {
            return false;
        }
        i = i + 1;
    }
    true
}

/// The parent of a normalized directory is normalized.
pub proof fn lemma_parent_normal(p: Seq<u8>)
    requires
        normal_dir(p),
    ensures
        normal_dir(parent_of(p)),
{
    lemma_last_slash_bound(p);
    let i = last_slash(p);
    if p.len() > 1 && i <= 0 {
        assert(parent_of(p) =~= seq![SLASH]);
    } else if p.len() > 1 {
        let q = parent_of(p);
        assert(q == p.subrange(0, i));
        if i == 1 {
            assert(p[0] == SLASH && p[1] == SLASH);
        }
        assert(p[i - 1] != SLASH) by {
            if p[i - 1] == SLASH {
                assert(p[i - 1] == SLASH && p[i] == SLASH);
            }
        }
        assert(q.last() == p[i - 1]);
        assert forall|j: int| 0 <= j < q.len() - 1 implies !(#[trigger] q[j] == SLASH && q[j + 1]
            == SLASH) by {
            assert(q[j] == p[j] && q[j + 1] == p[j + 1]);
        }
    }
}

} // verus!
