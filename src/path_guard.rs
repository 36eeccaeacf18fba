//! Resolution of request paths against the served root. Canonicalizing a
//! path reads the file system, so the caller does it; this module decides
//! what to look up and whether a canonical path may be served.

use vstd::prelude::*;
use vstd::string::*;
use crate::text::chars_of;

verus! {

/// The page served for a directory.
pub open spec fn index_html() -> Seq<char> {
    seq!['i', 'n', 'd', 'e', 'x', '.', 'h', 't', 'm', 'l']
}

/// `s` without its leading slashes.
pub open spec fn strip_slashes(s: Seq<char>) -> Seq<char>
    decreases s.len(),
{
    if s.len() > 0 && s[0] == '/' {
        strip_slashes(s.drop_first())
    } else {
        s
    }
}

/// The path, relative to the root, that a request for `tail` looks up: the
/// index page for the empty path and `/`, otherwise `tail` made relative.
pub open spec fn relative_target(tail: Seq<char>) -> Seq<char> {
    if tail.len() == 0 || tail == seq!['/'] {
        index_html()
    } else {
        strip_slashes(tail)
    }
}

/// `rel` appended to `base` with one separator between them.
pub open spec fn join(base: Seq<char>, rel: Seq<char>) -> Seq<char> {
    if base.len() > 0 && base.last() != '/' {
        base + seq!['/'] + rel
    } else {
        base + rel
    }
}

/// The canonical path `p` is `root` or lies beneath it, comparing whole
/// components: `/srv/site-old` does not lie beneath `/srv/site`.
pub open spec fn path_within(root: Seq<char>, p: Seq<char>) -> bool {
    &&& root.len() <= p.len()
    &&& p.subrange(0, root.len() as int) == root
    &&& (p.len() == root.len() || (root.len() > 0 && root.last() == '/') || p[root.len() as int]
        == '/')
}

/// What is served for the canonical form of the target (none where
/// canonicalization failed): the path itself where it lies within `root`,
/// nothing otherwise.
pub open spec fn served(root: Seq<char>, canonical: Option<Seq<char>>) -> Option<Seq<char>> {
    match canonical {
        Some(p) => if path_within(root, p) {
            Some(p)
        } else {
            None
        },
        None => None,
    }
}

proof fn lemma_strip_step(s: Seq<char>, i: int)
    requires
        0 <= i < s.len(),
        s[i] == '/',
    ensures
        strip_slashes(s.subrange(i, s.len() as int)) == strip_slashes(s.subrange(i + 1, s.len() as int)),
{
    assert(s.subrange(i, s.len() as int).drop_first() =~= s.subrange(i + 1, s.len() as int));
}

/// `base` and `rel` joined by one separator.
fn join_path(base: &str, rel: &str) -> (r: String)
    ensures
        r@ == join(base@, rel@),
{
    let bc = chars_of(base);
    let mut r = base.to_owned();
    if bc.len() > 0 && bc[bc.len() - 1] != '/' {
        proof {
            reveal_strlit("/");
        }
        r.append("/");
    }
    r.append(rel);
    r
}

/// The path that a request for `tail` looks up under `root`.
pub fn target_path(root: &str, tail: &str) -> (r: String)
    ensures
        r@ == join(root@, relative_target(tail@)),
{
    let tc = chars_of(tail);
    let n = tc.len();
    if n == 0 || (n == 1 && tc[0] == '/') {
        proof {
            if n == 1 {
                assert(tail@ =~= seq!['/']);
            }
        }
        return index_path(root);
    }
    let mut i: usize = 0;
    assert(tail@.subrange(0, n as int) =~= tail@);
    while i < n && tc[i] == '/'
        invariant
            n == tc@.len(),
            tc@ == tail@,
            i <= n,
            strip_slashes(tail@) == strip_slashes(tail@.subrange(i as int, n as int)),
        decreases n - i,
    {
        proof {
            lemma_strip_step(tail@, i as int);
        }
        i = i + 1;
    }
    let rest = tail.substring_char(i, n);
    proof {
        let s = tail@.subrange(i as int, n as int);
        assert(!(s.len() > 0 && s[0] == '/'));
        assert(tail@ != seq!['/']) by {
            if n == 1 {
                assert(tail@[0] == tc@[0]);
            }
        }
    }
    join_path(root, rest)
}

/// The index page of the directory `dir`.
pub fn index_path(dir: &str) -> (r: String)
    ensures
        r@ == join(dir@, index_html()),
{
    proof {
        reveal_strlit("index.html");
        assert("index.html"@ =~= index_html());
    }
    join_path(dir, "index.html")
}

/// Whether the canonical path `p` is `root` or lies beneath it.
pub fn within_root(root: &str, p: &str) -> (r: bool)
    ensures
        r == path_within(root@, p@),
{
    let rc = chars_of(root);
    let pc = chars_of(p);
    let m = rc.len();
    if m > pc.len() {
        return false;
    }
    let mut i: usize = 0;
    while i < m
        invariant
            m == rc@.len(),
            m <= pc@.len(),
            rc@ == root@,
            pc@ == p@,
            i <= m,
            forall|j: int| 0 <= j < i ==> rc@[j] == pc@[j],
        decreases m - i,
    {
        if rc[i] != pc[i] {
            assert(p@.subrange(0, m as int)[i as int] == pc@[i as int]);
            return false;
        }
        i = i + 1;
    }
    assert(p@.subrange(0, m as int) =~= root@);
    m == pc.len() || (m > 0 && rc[m - 1] == '/') || pc[m] == '/'
}

/// The path to serve, given the canonical form of the requested target (none
/// where it could not be canonicalized): the target where it lies within the
/// canonical `root`, nothing (not found) otherwise.
pub fn confine(root: &str, canonical: Option<String>) -> (r: Option<String>)
    ensures
        match canonical {
            Some(p) => served(root@, Some(p@)) == (match r {
                Some(q) => Some(q@),
                None => None,
            }),
            None => r is None,
        },
{
    match canonical {
        Some(p) => {
            if within_root(root, p.as_str()) {
                Some(p)
            } else {
                None
            }
        },
        None => None,
    }
}

/// Every canonical target that lies outside the root, by `..` segments or
/// through a link, is not found.
pub proof fn lemma_outside_root_not_found(root: Seq<char>, target: Seq<char>)
    requires
        !path_within(root, target),
    ensures
        served(root, Some(target)) is None,
{
}

/// A sibling of the root whose name merely begins with the root's name is
/// outside it: the comparison goes by whole components.
pub proof fn lemma_name_prefix_is_outside(root: Seq<char>, rest: Seq<char>)
    requires
        root.len() > 0,
        root.last() != '/',
        rest.len() > 0,
        rest[0] != '/',
    ensures
        !path_within(root, root + rest),
        served(root, Some(root + rest)) is None,
{
    assert((root + rest)[root.len() as int] == rest[0]);
}

/// A request for the empty path or `/` looks up the index page directly
/// under the root, and that page, once canonical, is served.
pub proof fn lemma_root_request_serves_index(root: Seq<char>, tail: Seq<char>)
    requires
        root.len() > 0,
        root[0] == '/',
        tail.len() == 0 || tail == seq!['/'],
    ensures
        join(root, relative_target(tail)) == join(root, index_html()),
        served(root, Some(join(root, index_html()))) == Some(join(root, index_html())),
{
    let t = join(root, index_html());
    if root.last() != '/' {
        assert(t.subrange(0, root.len() as int) =~= root);
        assert(t[root.len() as int] == '/');
    } else {
        assert(t.subrange(0, root.len() as int) =~= root);
    }
}

} // verus!
