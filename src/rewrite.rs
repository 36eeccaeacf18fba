//! Injection of the reload client into HTML pages.

use vstd::prelude::*;
use vstd::string::*;
use crate::text::chars_of;

verus! {

/// The closing body tag before which the reload client is placed.
pub const CLOSE_BODY: &'static str = "</body>";

/// The reload client: a script that opens a push connection to the upgrade
/// endpoint, reloads the page on any message, and reloads after a short delay
/// when the connection closes (the server may have restarted).
pub const RELOAD_MARKUP: &'static str = "<script>(function(){var ws=new WebSocket('ws://localhost:3030/livereload');ws.onmessage=function(){location.reload();};ws.onclose=function(){setTimeout(function(){location.reload();},1000);};})();</script>\n";

/// The characters of the closing body tag.
pub open spec fn close_body() -> Seq<char> {
    seq!['<', '/', 'b', 'o', 'd', 'y', '>']
}

/// A closing body tag starts at index `i` of `s`.
pub open spec fn tag_at(s: Seq<char>, i: int) -> bool {
    0 <= i && i + 7 <= s.len() && s.subrange(i, i + 7) == close_body()
}

/// `s` holds a closing body tag somewhere.
pub open spec fn has_close_body(s: Seq<char>) -> bool {
    exists|i: int| tag_at(s, i)
}

/// The first index at or after `i` where a closing body tag starts, or -1.
pub open spec fn find_tag_from(s: Seq<char>, i: int) -> int
    decreases s.len() - i,
{
    if i < 0 || i + 7 > s.len() {
        -1
    } else if tag_at(s, i) {
        i
    } else {
        find_tag_from(s, i + 1)
    }
}

/// The page `t` with the reload client placed before its first closing body
/// tag, or appended where it has none.
pub open spec fn with_reload(t: Seq<char>) -> Seq<char> {
    let k = find_tag_from(t, 0);
    if k >= 0 {
        t.subrange(0, k) + RELOAD_MARKUP@ + t.subrange(k, t.len() as int)
    } else {
        t + RELOAD_MARKUP@
    }
}

proof fn lemma_find_tag_from(s: Seq<char>, i: int)
    requires
        0 <= i,
    ensures
        find_tag_from(s, i) == -1 || (i <= find_tag_from(s, i) && tag_at(s, find_tag_from(s, i))),
        forall|j: int| i <= j && (find_tag_from(s, i) == -1 || j < find_tag_from(s, i)) ==> !tag_at(s, j),
    decreases s.len() - i,
{
    if i + 7 <= s.len() && !tag_at(s, i) {
        lemma_find_tag_from(s, i + 1);
    }
}

/// What the proofs need of the two literals. `reveal_strlit` takes the
/// literal itself, so the reload client is written out again here; Verus
/// checks that the copy matches the constant.
proof fn lemma_literals()
    ensures
        CLOSE_BODY@ == close_body(),
        forall|i: int| 0 <= i < RELOAD_MARKUP@.len() ==> RELOAD_MARKUP@[i] != 'y',
        RELOAD_MARKUP@.len() > 0,
        RELOAD_MARKUP@[0] == '<',
{
    reveal_strlit("</body>");
    assert(CLOSE_BODY@ =~= close_body());
    reveal_strlit("<script>(function(){var ws=new WebSocket('ws://localhost:3030/livereload');ws.onmessage=function(){location.reload();};ws.onclose=function(){setTimeout(function(){location.reload();},1000);};})();</script>\n");
}

/// An occurrence of the tag in `x + y`, where `y` starts with `<`, lies
/// wholly in `x` or wholly in `y`.
proof fn lemma_tag_in_concat(x: Seq<char>, y: Seq<char>, i: int)
    requires
        tag_at(x + y, i),
        y.len() > 0,
        y[0] == '<',
    ensures
        i + 7 <= x.len() ==> tag_at(x, i),
        i + 7 > x.len() ==> i >= x.len() && tag_at(y, i - x.len()),
{
    let s = x + y;
    assert(s.subrange(i, i + 7)[0] == '<');
    if i + 7 <= x.len() {
        assert(s.subrange(i, i + 7) =~= x.subrange(i, i + 7));
    } else {
        if i < x.len() {
            let k = x.len() - i;
            assert(s[x.len() as int] == y[0]);
            assert(s.subrange(i, i + 7)[k] == s[x.len() as int]);
        }
        assert(s.subrange(i, i + 7) =~= y.subrange(i - x.len(), i - x.len() + 7));
    }
}

/// The reload client holds no closing body tag.
proof fn lemma_markup_has_no_tag(i: int)
    ensures
        !tag_at(RELOAD_MARKUP@, i),
{
    lemma_literals();
    if tag_at(RELOAD_MARKUP@, i) {
        assert(RELOAD_MARKUP@.subrange(i, i + 7)[5] == 'y');
    }
}

/// Finds the first closing body tag in `cs`.
fn find_close_body(cs: &Vec<char>) -> (r: Option<usize>)
    ensures
        r is Some <==> find_tag_from(cs@, 0) >= 0,
        r matches Some(k) ==> k == find_tag_from(cs@, 0) && k + 7 <= cs@.len(),
{
    let n = cs.len();
    if n < 7 {
        return None;
    }
    let mut i: usize = 0;
    while i <= n - 7
        invariant
            n == cs@.len(),
            n >= 7,
            i <= n - 6,
            find_tag_from(cs@, 0) == find_tag_from(cs@, i as int),
        decreases n - i,
    {
        if cs[i] == '<' && cs[i + 1] == '/' && cs[i + 2] == 'b' && cs[i + 3] == 'o' && cs[i + 4]
            == 'd' && cs[i + 5] == 'y' && cs[i + 6] == '>' {
            assert(cs@.subrange(i as int, i + 7) =~= close_body());
            return Some(i);
        }
        assert(!tag_at(cs@, i as int)) by {
            if tag_at(cs@, i as int) {
                let w = cs@.subrange(i as int, i + 7);
                assert(w[0] == cs@[i as int] && w[1] == cs@[i + 1] && w[2] == cs@[i + 2]);
                assert(w[3] == cs@[i + 3] && w[4] == cs@[i + 4] && w[5] == cs@[i + 5]);
                assert(w[6] == cs@[i + 6]);
            }
        }
        i = i + 1;
    }
    None
}

/// Places the reload client before the first closing body tag of `text`, or
/// appends it where the page has none.
pub fn inject_reload(text: &str) -> (r: String)
    ensures
        r@ == with_reload(text@),
{
    let cs = chars_of(text);
    let n = cs.len();
    match find_close_body(&cs) {
        Some(k) => {
            let mut r = text.substring_char(0, k).to_owned();
            r.append(RELOAD_MARKUP);
            r.append(text.substring_char(k, n));
            r
        },
        None => {
            let mut r = text.to_owned();
            r.append(RELOAD_MARKUP);
            r
        },
    }
}

/// Where `p` holds no closing body tag, neither does `p` followed by the
/// reload client.
proof fn lemma_no_tag_before_markup(p: Seq<char>, j: int)
    requires
        forall|i: int| !tag_at(p, i),
    ensures
        !tag_at(p + RELOAD_MARKUP@, j),
{
    lemma_literals();
    if tag_at(p + RELOAD_MARKUP@, j) {
        lemma_tag_in_concat(p, RELOAD_MARKUP@, j);
        if j + 7 <= p.len() {
            assert(tag_at(p, j));
        } else {
            lemma_markup_has_no_tag(j - p.len());
        }
    }
}

/// A tag that starts `s` overlaps no other occurrence in `s`.
proof fn lemma_tag_no_overlap(s: Seq<char>, q: int)
    requires
        tag_at(s, 0),
        1 <= q < 7,
    ensures
        !tag_at(s, q),
{
    assert(s.subrange(0, 7)[q] == s[q]);
    if tag_at(s, q) {
        assert(s.subrange(q, q + 7)[0] == s[q]);
    }
}

/// A page with exactly one closing body tag comes out as the page with the
/// reload client placed immediately before that tag, and the result still
/// holds the tag exactly once.
pub proof fn lemma_single_tag_rewrite(page: Seq<char>, k: int)
    requires
        tag_at(page, k),
        forall|j: int| tag_at(page, j) ==> j == k,
    ensures
        with_reload(page) == page.subrange(0, k) + RELOAD_MARKUP@ + close_body() + page.subrange(
            k + 7,
            page.len() as int,
        ),
        tag_at(with_reload(page), k + RELOAD_MARKUP@.len()),
        forall|j: int| tag_at(with_reload(page), j) ==> j == k + RELOAD_MARKUP@.len(),
{
    lemma_find_tag_from(page, 0);
    lemma_literals();
    let p = page.subrange(0, k);
    let rest = page.subrange(k, page.len() as int);
    let s = page.subrange(k + 7, page.len() as int);
    assert(rest =~= close_body() + s);
    assert(rest.subrange(0, 7) =~= close_body());
    let pm = p + RELOAD_MARKUP@;
    let out = with_reload(page);
    assert(out =~= pm + rest);
    assert(out =~= p + RELOAD_MARKUP@ + close_body() + s);
    let m = k + RELOAD_MARKUP@.len();
    assert(out.subrange(m, m + 7) =~= close_body());
    assert forall|i: int| !tag_at(p, i) by {
        if tag_at(p, i) {
            assert(page.subrange(i, i + 7) =~= p.subrange(i, i + 7));
            assert(tag_at(page, i));
        }
    }
    assert forall|j: int| tag_at(out, j) implies j == m by {
        lemma_tag_in_concat(pm, rest, j);
        if j + 7 <= pm.len() {
            lemma_no_tag_before_markup(p, j);
            assert(tag_at(pm, j));
        } else {
            let q = j - m;
            assert(pm.len() == m);
            assert(q >= 0 && tag_at(rest, q));
            if 1 <= q < 7 {
                lemma_tag_no_overlap(rest, q);
            } else if q >= 7 {
                assert(page.subrange(k + q, k + q + 7) =~= rest.subrange(q, q + 7));
                assert(tag_at(page, k + q));
            }
        }
    }
}

/// A page with no closing body tag comes out as the page followed by the
/// reload client, and the result holds no closing body tag.
pub proof fn lemma_no_tag_rewrite(page: Seq<char>)
    requires
        !has_close_body(page),
    ensures
        with_reload(page) == page + RELOAD_MARKUP@,
        !has_close_body(with_reload(page)),
{
    lemma_find_tag_from(page, 0);
    lemma_literals();
    if find_tag_from(page, 0) >= 0 {
        assert(tag_at(page, find_tag_from(page, 0)));
    }
    assert forall|j: int| !tag_at(page + RELOAD_MARKUP@, j) by {
        lemma_no_tag_before_markup(page, j);
    }
}

} // verus!
