//! Safe resolution of a request path against the document root.
//!
//! The request path is treated as relative (leading separators stripped),
//! joined to the document root, and both the joined path and the root are
//! canonicalized by the filesystem. The canonical joined path must then lie
//! under the canonical root, compared component-wise so that a sibling such
//! as `/root-evil` never passes for a prefix of `/root`. Canonicalization
//! itself is filesystem work and is trusted; every decision taken on its
//! results is verified here.

use vstd::prelude::*;
use vstd::string::StrSliceExecFns;
use vstd::string::StringExecFns;

verus! {

/// The `/`-separated components of `s` from position `i` on, with `cur` the
/// component under construction just before position `i`. Empty components
/// (from doubled, leading or trailing separators) do not count.
pub open spec fn comps_acc(s: Seq<char>, i: int, cur: Seq<char>) -> Seq<Seq<char>>
    decreases s.len() - i,
{
    if i < 0 || i >= s.len() {
        if cur.len() > 0 {
            seq![cur]
        } else {
            Seq::empty()
        }
    } else if s[i] == '/' {
        if cur.len() > 0 {
            seq![cur] + comps_acc(s, i + 1, Seq::empty())
        } else {
            comps_acc(s, i + 1, Seq::empty())
        }
    } else {
        comps_acc(s, i + 1, cur.push(s[i]))
    }
}

/// The nonempty `/`-separated components of a path, in order.
pub open spec fn path_components(s: Seq<char>) -> Seq<Seq<char>> {
    comps_acc(s, 0, Seq::empty())
}

/// The canonical path `joined` lies inside the canonical path `root`:
/// every component of the root is, in order, a component of the joined
/// path, starting at the front.
pub open spec fn is_contained(joined: Seq<char>, root: Seq<char>) -> bool {
    path_components(root).is_prefix_of(path_components(joined))
}

/// Splits a path into its nonempty `/`-separated components.
pub fn split_slash(s: &str) -> (comps: Vec<String>)
    ensures
        comps.deep_view() == path_components(s@),
{
    let n = s.unicode_len();
    let mut comps: Vec<String> = Vec::new();
    let mut cur_start: usize = 0;
    let mut in_comp: bool = false;
    let mut i: usize = 0;
    while i < n
        invariant
            n == s@.len(),
            i <= n,
            in_comp ==> cur_start < i,
            path_components(s@) =~= comps.deep_view() + comps_acc(
                s@,
                i as int,
                if in_comp {
                    s@.subrange(cur_start as int, i as int)
                } else {
                    Seq::<char>::empty()
                },
            ),
        decreases n - i,
    {
        let ghost cur: Seq<char> = if in_comp {
            s@.subrange(cur_start as int, i as int)
        } else {
            Seq::<char>::empty()
        };
        let c = s.get_char(i);
        if c == '/' {
            if in_comp {
                let t = s.substring_char(cur_start, i).to_owned();
                proof {
                    assert(comps_acc(s@, i as int, cur) =~= seq![cur] + comps_acc(
                        s@,
                        i + 1,
                        Seq::<char>::empty(),
                    ));
                }
                let ghost old_views = comps.deep_view();
                comps.push(t);
                proof {
                    assert(comps.deep_view() =~= old_views.push(cur));
                    assert(old_views.push(cur) + comps_acc(s@, i + 1, Seq::<char>::empty())
                        =~= old_views + (seq![cur] + comps_acc(s@, i + 1, Seq::<char>::empty())));
                }
                in_comp = false;
            } else {
                proof {
                    assert(comps_acc(s@, i as int, cur) =~= comps_acc(
                        s@,
                        i + 1,
                        Seq::<char>::empty(),
                    ));
                }
            }
        } else {
            if !in_comp {
                cur_start = i;
                in_comp = true;
            }
            proof {
                assert(comps_acc(s@, i as int, cur) =~= comps_acc(s@, i + 1, cur.push(s@[
                    i as int])));
                assert(s@.subrange(cur_start as int, i + 1) =~= cur.push(s@[i as int]));
            }
        }
        i += 1;
    }
    if in_comp {
        let t = s.substring_char(cur_start, n).to_owned();
        proof {
            let cur = s@.subrange(cur_start as int, n as int);
            assert(comps_acc(s@, n as int, cur) =~= seq![cur]);
        }
        let ghost old_views = comps.deep_view();
        comps.push(t);
        proof {
            assert(comps.deep_view() =~= old_views.push(s@.subrange(cur_start as int, n as int)));
            assert(path_components(s@) =~= comps.deep_view());
        }
    } else {
        proof {
            assert(comps_acc(s@, n as int, Seq::<char>::empty()) =~= Seq::<Seq<char>>::empty());
            assert(path_components(s@) =~= comps.deep_view());
        }
    }
    comps
}

/// Decides whether the canonical path `joined` lies inside the canonical
/// path `root`, component-wise.
pub fn check_containment(joined: &str, root: &str) -> (ok: bool)
    ensures
        ok == is_contained(joined@, root@),
{
    let cj = split_slash(joined);
    let cr = split_slash(root);
    if cr.len() > cj.len() {
        proof {
            assert(!path_components(root@).is_prefix_of(path_components(joined@)));
        }
        return false;
    }
    let mut i: usize = 0;
    while i < cr.len()
        invariant
            cr.deep_view() == path_components(root@),
            cj.deep_view() == path_components(joined@),
            cr@.len() <= cj@.len(),
            i <= cr@.len(),
            forall|k: int| 0 <= k < i ==> cr.deep_view()[k] == cj.deep_view()[k],
        decreases cr@.len() - i,
    {
        if !(cr[i] == cj[i]) {
            proof {
                assert(cr.deep_view()[i as int] != cj.deep_view()[i as int]);
                let pr = path_components(root@);
                let pj = path_components(joined@);
                assert(pr.is_prefix_of(pj) ==> pr[i as int] == pj.subrange(0, pr.len() as int)[
                    i as int]);
            }
            return false;
        }
        i += 1;
    }
    proof {
        let pr = path_components(root@);
        let pj = path_components(joined@);
        assert(pr =~= pj.subrange(0, pr.len() as int));
    }
    true
}

/// A path inside the root never escapes it: containment means the joined
/// path's components literally extend the root's, so every resolved path
/// lies at or below the root and never beside or above it.
pub proof fn lemma_contained_extends_root(joined: Seq<char>, root: Seq<char>)
    requires
        is_contained(joined, root),
    ensures
        path_components(joined) =~= path_components(root) + path_components(joined).subrange(
            path_components(root).len() as int,
            path_components(joined).len() as int,
        ),
{
    let cj = path_components(joined);
    let cr = path_components(root);
    assert(cr =~= cj.subrange(0, cr.len() as int));
}

/// A canonical path whose components do not extend the root's components is
/// outside the root, and the resolver refuses it: escaping paths are never
/// contained.
pub proof fn lemma_escape_not_contained(joined: Seq<char>, root: Seq<char>)
    requires
        !path_components(root).is_prefix_of(path_components(joined)),
    ensures
        !is_contained(joined, root),
{
}

/// An absolute, symlink-resolved filesystem path together with the
/// canonical document root it was checked against. Containment of the path
/// in that root is the type's invariant: the resolver functions below are
/// the only places the library builds one.
#[derive(Debug)]
pub struct ResolvedPath {
    pub path: String,
    pub root: String,
}

/// The invariant of a resolved path: its components extend the canonical
/// root's components, so it lies at or below that root, never beside or
/// above it.
pub open spec fn resolved_wf(rp: ResolvedPath) -> bool {
    is_contained(rp.path@, rp.root@)
}

/// Decides resolution from the two canonical paths alone: success exactly
/// when the joined path lies inside the root, carrying both paths in the
/// result, and a fixed refusal otherwise.
pub fn resolve_under_root(canonical_joined: &str, canonical_root: &str) -> (r: Result<
    ResolvedPath,
    String,
>)
    ensures
        is_contained(canonical_joined@, canonical_root@) <==> (r matches Ok(rp) && rp.path@
            == canonical_joined@ && rp.root@ == canonical_root@),
        !is_contained(canonical_joined@, canonical_root@) <==> (r matches Err(e) && e@
            == "Access denied: directory traversal attempt detected."@),
        r matches Ok(rp) ==> resolved_wf(rp),
{
    if check_containment(canonical_joined, canonical_root) {
        Ok(ResolvedPath { path: canonical_joined.to_owned(), root: canonical_root.to_owned() })
    } else {
        Err("Access denied: directory traversal attempt detected.".to_owned())
    }
}

/// Relies on std's `Path::canonicalize`: resolves `.`, `..` and symlinks
/// against the live filesystem, returning the canonical absolute path, and
/// fails when the path does not exist or cannot be read. The outcome
/// depends on what is on disk, so nothing more is assumed of it than that
/// an absolute path is nonempty; `Err` carries the failure's text (or
/// names a non-UTF-8 result) and nothing at all is assumed of that.
#[verifier::external_body]
fn canonicalize_str(p: &str) -> (r: Result<String, String>)
    ensures
        r matches Ok(c) ==> c@.len() > 0,
{
    match std::path::Path::new(p).canonicalize() {
        Ok(pb) => match pb.to_str() {
            Some(s) => Ok(s.to_owned()),
            None => Err("canonical path is not valid UTF-8".to_owned()),
        },
        Err(e) => Err(format!("{}", e)),
    }
}

/// Maps a request path to a canonical filesystem path contained in the
/// document root, or refuses it. The request path is joined under the
/// root, both are canonicalized by the filesystem, and the canonical
/// joined path must lie inside the canonical root component-wise. A
/// successful result carries the canonical root it was checked against,
/// and containment in that root is its invariant. Canonicalization failure
/// and containment failure are both refusals; in particular a request for
/// a path that names no filesystem entry fails canonicalization and is
/// refused here, before anything is probed or read.
pub fn safe_path(document_root: &str, request_path: &str) -> (r: Result<ResolvedPath, String>)
    ensures
        r matches Ok(rp) ==> resolved_wf(rp),
        r matches Err(e) ==> e@ == "Access denied: directory traversal attempt detected."@
            || "Error canonicalizing path: "@.is_prefix_of(e@)
            || "Error canonicalizing document root: "@.is_prefix_of(e@),
{
    let joined = join_under_root(document_root, request_path);
    let canonical_joined = match canonicalize_str(joined.as_str()) {
        Ok(c) => c,
        Err(detail) => {
            let mut msg = "Error canonicalizing path: ".to_owned();
            msg.append(detail.as_str());
            proof {
                assert(msg@.subrange(0, "Error canonicalizing path: "@.len() as int)
                    =~= "Error canonicalizing path: "@);
            }
            return Err(msg);
        },
    };
    let canonical_root = match canonicalize_str(document_root) {
        Ok(c) => c,
        Err(detail) => {
            let mut msg = "Error canonicalizing document root: ".to_owned();
            msg.append(detail.as_str());
            proof {
                assert(msg@.subrange(0, "Error canonicalizing document root: "@.len() as int)
                    =~= "Error canonicalizing document root: "@);
            }
            return Err(msg);
        },
    };
    resolve_under_root(canonical_joined.as_str(), canonical_root.as_str())
}

/// `s` without its leading `/` characters.
pub open spec fn strip_leading_slashes(s: Seq<char>) -> Seq<char>
    decreases s.len(),
{
    if s.len() > 0 && s[0] == '/' {
        strip_leading_slashes(s.drop_first())
    } else {
        s
    }
}

/// The join of `root` and the relative path `rel`: the two with a single
/// separator between them, and `root` alone if `rel` is empty.
pub open spec fn spec_joined(root: Seq<char>, rel: Seq<char>) -> Seq<char> {
    if rel.len() == 0 {
        root
    } else if root.len() > 0 && root[root.len() - 1] == '/' {
        root + rel
    } else {
        root + seq!['/'] + rel
    }
}

/// Strips every leading separator from `request_path` and joins the rest
/// under `root`.
pub fn join_under_root(root: &str, request_path: &str) -> (j: String)
    ensures
        j@ == spec_joined(root@, strip_leading_slashes(request_path@)),
{
    let n = request_path.unicode_len();
    let mut i: usize = 0;
    proof {
        assert(request_path@.subrange(0, n as int) =~= request_path@);
    }
    while i < n && request_path.get_char(i) == '/'
        invariant
            n == request_path@.len(),
            i <= n,
            strip_leading_slashes(request_path@) =~= strip_leading_slashes(
                request_path@.subrange(i as int, n as int),
            ),
        decreases n - i,
    {
        proof {
            let tail = request_path@.subrange(i as int, n as int);
            assert(tail.drop_first() =~= request_path@.subrange(i + 1, n as int));
        }
        i += 1;
    }
    let rel = request_path.substring_char(i, n);
    proof {
        let tail = request_path@.subrange(i as int, n as int);
        assert(strip_leading_slashes(tail) =~= tail);
    }
    if rel.unicode_len() == 0 {
        root.to_owned()
    } else {
        let rn = root.unicode_len();
        if rn > 0 && root.get_char(rn - 1) == '/' {
            let mut j = root.to_owned();
            j.append(rel);
            j
        } else {
            let mut j = root.to_owned();
            j.append("/");
            j.append(rel);
            proof {
                reveal_strlit("/");
                assert(j@ =~= root@ + seq!['/'] + rel@);
            }
            j
        }
    }
}

} // verus!
