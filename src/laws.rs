use vstd::prelude::*;

use crate::path::{
    confined, ends_with_dot_component, is_absolute, is_dot_name, join, last_slash, leaf_split,
    normal_dir, parent_of, relative_form, strip_root, trim_end, under_root, within,
};
use crate::reply::ResultCode;
use crate::session::{after_accept, after_cdup, after_cwd, after_list, pasv_outcome, session_wf, SessionView};
use crate::text::SLASH;

verus! {

/// Whether `n` is one plain path component: not empty, without separator.
pub open spec fn plain_name(n: Seq<u8>) -> bool {
    n.len() > 0 && forall|i: int| 0 <= i < n.len() ==> n[i] != SLASH
}

/// A confined path always lies within the server root: whatever the
/// canonicalization gave, a successful resolution is the root or below it.
pub proof fn lemma_resolved_within_root(canonical: Option<Seq<u8>>, root: Seq<u8>)
    ensures
        confined(canonical, root) matches Ok(c) ==> within(root, c) && c.len() >= root.len()
            && c.subrange(0, root.len() as int) == root,
{
    if let Ok(c) = confined(canonical, root) {
        if c == root {
            assert(c.subrange(0, root.len() as int) =~= root);
        }
    }
}

/// The last separator of `p / n` is the one before `n` when `n` holds none.
proof fn lemma_last_slash_before_name(p: Seq<u8>, n: Seq<u8>)
    requires
        forall|i: int| 0 <= i < n.len() ==> n[i] != SLASH,
    ensures
        last_slash(p + seq![SLASH] + n) == p.len(),
    decreases n.len(),
{
    let s = p + seq![SLASH] + n;
    if n.len() == 0 {
        assert(s.last() == SLASH);
    } else {
        assert(s.last() == n.last());
        assert(s.drop_last() =~= p + seq![SLASH] + n.drop_last());
        lemma_last_slash_before_name(p, n.drop_last());
    }
}

/// A plain name joined onto a normalized directory is normalized.
proof fn lemma_join_normal(cwd: Seq<u8>, name: Seq<u8>)
    requires
        normal_dir(cwd),
        plain_name(name),
    ensures
        normal_dir(join(cwd, name)),
        join(cwd, name).len() > 1,
{
    let t = join(cwd, name);
    let pre = if cwd.len() == 1 {
        Seq::<u8>::empty()
    } else {
        cwd
    };
    if cwd.len() == 1 {
        assert(t =~= pre + seq![SLASH] + name);
    } else {
        assert(t =~= pre + seq![SLASH] + name);
    }
    assert(t.last() == name.last());
    assert forall|i: int| 0 <= i < t.len() - 1 implies !(#[trigger] t[i] == SLASH && t[i + 1]
        == SLASH) by {
        if i < pre.len() as int - 1 {
            assert(t[i] == cwd[i] && t[i + 1] == cwd[i + 1]);
        } else if i == pre.len() as int - 1 {
            assert(t[i + 1] == SLASH && t[i] == cwd.last());
        } else if i == pre.len() as int {
            assert(t[i + 1] == name[0]);
        } else {
            assert(t[i] == name[i - pre.len() - 1]);
        }
    }
}

/// Changing into a plain subdirectory and then going up returns to the
/// starting directory, when the subdirectory exists as itself under the root
/// (its canonical path is the joined one). Going up from the root stays at
/// the root.
pub proof fn lemma_cwd_then_cdup(v: SessionView, root: Seq<u8>, name: Seq<u8>)
    requires
        normal_dir(root),
        session_wf(v),
        plain_name(name),
    ensures
        after_cdup(
            after_cwd(v, root, Some(under_root(root, join(v.cwd, name)))),
        ).cwd == v.cwd,
        v.cwd == seq![SLASH] ==> after_cdup(v).cwd == v.cwd,
{
    let cwd = v.cwd;
    let target = join(cwd, name);
    let rel = cwd.drop_first();
    // the joined client path, and what remains once its root is stripped
    if cwd.len() == 1 {
        assert(cwd =~= seq![SLASH]);
        assert(target =~= seq![SLASH] + name);
        assert(target.drop_first() =~= name);
        assert(name[0] != SLASH);
        assert(strip_root(name) == name);
        assert(strip_root(target) == name);
    } else {
        assert(target =~= cwd + seq![SLASH] + name);
        assert(target.drop_first() =~= rel + seq![SLASH] + name);
        assert(strip_root(target.drop_first()) == target.drop_first());
        assert(strip_root(target) == rel + seq![SLASH] + name);
    }
    let tail = strip_root(target);
    assert(tail.len() > 0 && tail[0] != SLASH);
    let c = under_root(root, target);
    let below = if root.len() == 1 {
        tail
    } else {
        seq![SLASH] + tail
    };
    if root.len() == 1 {
        assert(c =~= root + tail);
    } else {
        assert(c =~= root + seq![SLASH] + tail);
    }
    assert(c =~= root + below);
    assert(c.subrange(0, root.len() as int) =~= root);
    assert(within(root, c));
    assert(relative_form(root, c) =~= target) by {
        assert(c.subrange(root.len() as int, c.len() as int) =~= below);
    }
    lemma_join_normal(cwd, name);
    let w = after_cwd(v, root, Some(c));
    assert(w.cwd == target);
    if cwd.len() == 1 {
        assert(target =~= Seq::<u8>::empty() + seq![SLASH] + name);
        lemma_last_slash_before_name(Seq::<u8>::empty(), name);
        assert(parent_of(target) =~= cwd);
    } else {
        lemma_last_slash_before_name(cwd, name);
        assert(parent_of(target) =~= cwd);
    }
}

/// A second `PASV` after one whose peer was accepted is refused, and the
/// data connection stays open.
pub proof fn lemma_second_pasv_refused(v: SessionView)
    requires
        !v.data_open,
    ensures
        pasv_outcome(v).1 == ResultCode::EnteringPassiveMode,
        pasv_outcome(after_accept(pasv_outcome(v).0, true)).1 == ResultCode::DataConnectionAlreadyOpen,
        pasv_outcome(after_accept(pasv_outcome(v).0, true)).0.data_open,
{
}

/// After any `LIST`, whether it succeeded or failed, `PASV` is accepted
/// again.
pub proof fn lemma_pasv_after_list(v: SessionView)
    ensures
        !after_list(v).data_open,
        pasv_outcome(after_list(v)).1 == ResultCode::EnteringPassiveMode,
{
}

/// `MKD` of a plain name creates that name in the current directory itself,
/// and the entry it creates, joined onto the resolved current directory, is
/// the path that `RMD` of the same name resolves.
pub proof fn lemma_mkd_rmd_same_entry(root: Seq<u8>, cwd: Seq<u8>, name: Seq<u8>)
    requires
        normal_dir(root),
        normal_dir(cwd),
        plain_name(name),
        !is_dot_name(name),
    ensures
        leaf_split(join(cwd, name)) == Some((cwd, name)),
        join(under_root(root, cwd), name) == under_root(root, join(cwd, name)),
{
    let target = join(cwd, name);
    assert(target.last() == name.last());
    assert(!ends_with_dot_component(target)) by {
        if ends_with_dot_component(target) {
            assert(name.len() == 1) by {
                if name.len() > 1 {
                    assert(target[target.len() - 2] == name[name.len() - 2]);
                }
            }
            assert(name =~= seq![46u8]);
        }
    }
    assert(trim_end(target) == target);
    assert(name[0] != SLASH);
    assert(strip_root(name) == name);
    let rel = cwd.drop_first();
    if cwd.len() == 1 {
        assert(cwd =~= seq![SLASH]);
        assert(target =~= Seq::<u8>::empty() + seq![SLASH] + name);
        lemma_last_slash_before_name(Seq::<u8>::empty(), name);
        assert(target.subrange(1, target.len() as int) =~= name);
        assert(target.drop_first() =~= name);
        assert(strip_root(target) == name);
        assert(rel =~= Seq::<u8>::empty());
        assert(cwd[0] == SLASH && cwd.drop_first() == rel);
        assert(strip_root(rel) == rel);
        assert(strip_root(cwd) == rel);
        if root.len() == 1 {
            assert(join(root, rel) =~= root);
        } else {
            assert(join(root, rel) =~= root + seq![SLASH]);
        }
        assert(join(join(root, rel), name) =~= join(root, name));
    } else {
        assert(target =~= cwd + seq![SLASH] + name);
        lemma_last_slash_before_name(cwd, name);
        assert(target.subrange(cwd.len() as int + 1, target.len() as int) =~= name);
        assert(target.subrange(0, cwd.len() as int) =~= cwd);
        assert(strip_root(rel) == rel);
        assert(strip_root(cwd) == rel);
        assert(target.drop_first() =~= rel + seq![SLASH] + name);
        assert(strip_root(target.drop_first()) == target.drop_first());
        assert(strip_root(target) =~= rel + seq![SLASH] + name);
        assert(rel.last() != SLASH);
        if root.len() == 1 {
            assert(join(root, rel) =~= root + rel);
            assert(join(root, rel + seq![SLASH] + name) =~= root + rel + seq![SLASH] + name);
        } else {
            assert(join(root, rel) =~= root + seq![SLASH] + rel);
            assert(join(root, rel + seq![SLASH] + name) =~= root + seq![SLASH] + rel + seq![SLASH]
                + name);
        }
        assert(join(root, rel).last() != SLASH);
        assert(join(join(root, rel), name) =~= join(root, rel) + seq![SLASH] + name);
    }
}

/// The canonical filesystem path of a normalized client directory: the root
/// itself for `/`, otherwise the root followed by the directory.
pub open spec fn canonical_dir(root: Seq<u8>, dir: Seq<u8>) -> Seq<u8> {
    if dir.len() <= 1 {
        root
    } else if root.len() <= 1 {
        dir
    } else {
        root + dir
    }
}

/// The canonical path of an absolute client directory lies within the root,
/// and the client's view of it is that directory again.
proof fn lemma_canonical_dir_round(root: Seq<u8>, dir: Seq<u8>)
    requires
        normal_dir(root),
        is_absolute(dir),
    ensures
        within(root, canonical_dir(root, dir)),
        relative_form(root, canonical_dir(root, dir)) == (if dir.len() <= 1 {
            seq![SLASH]
        } else {
            dir
        }),
{
    let c = canonical_dir(root, dir);
    if dir.len() > 1 {
        if root.len() <= 1 {
            assert(c.subrange(0, root.len() as int) =~= root);
            assert(relative_form(root, c) =~= dir);
        } else {
            assert(c.subrange(0, root.len() as int) =~= root);
            assert(c[root.len() as int] == dir[0]);
            assert(relative_form(root, c) =~= dir);
        }
    }
}

/// Changing into a plain subdirectory and then to `..` returns to the
/// starting directory, when canonicalization gives the plain paths of the
/// subdirectory and of its parent (no symbolic links on the way).
pub proof fn lemma_cwd_then_cwd_up(v: SessionView, root: Seq<u8>, name: Seq<u8>)
    requires
        normal_dir(root),
        session_wf(v),
        plain_name(name),
    ensures
        ({
            let w = after_cwd(v, root, Some(canonical_dir(root, join(v.cwd, name))));
            w.cwd == join(v.cwd, name) && after_cwd(w, root, Some(canonical_dir(root, v.cwd))).cwd
                == v.cwd
        }),
{
    let target = join(v.cwd, name);
    lemma_join_normal(v.cwd, name);
    lemma_canonical_dir_round(root, target);
    lemma_canonical_dir_round(root, v.cwd);
    if v.cwd.len() <= 1 {
        assert(v.cwd =~= seq![SLASH]);
    }
    let w = after_cwd(v, root, Some(canonical_dir(root, target)));
    assert(w.cwd == target);
    assert(normal_dir(relative_form(root, canonical_dir(root, v.cwd))));
}

} // verus!
