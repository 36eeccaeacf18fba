//! What the file endpoint sends for a resolved file: HTML pages with the
//! reload client injected, every other file byte for byte.

use vstd::prelude::*;
use crate::rewrite::{inject_reload, with_reload};
use crate::text::chars_of;

verus! {

/// What `String::from_utf8_lossy` makes of `bytes`.
pub uninterp spec fn lossy_text(bytes: Seq<u8>) -> Seq<char>;

/// What mime_guess reports as the content type of `path`.
pub uninterp spec fn mime_type_of(path: Seq<char>) -> Seq<char>;

/// Relies on `String::from_utf8_lossy`: decodes UTF-8, replacing invalid
/// sequences, and never fails; the text depends on the bytes alone.
#[verifier::external_body]
fn decode_lossy(bytes: &Vec<u8>) -> (r: String)
    ensures
        r@ == lossy_text(bytes@),
{
    String::from_utf8_lossy(bytes).into_owned()
}

/// Relies on `mime_guess::from_path` and `MimeGuess::first_or_octet_stream`:
/// the content type that the extension of `path` maps to, or
/// `application/octet-stream` where it maps to none.
#[verifier::external_body]
fn guess_content_type(path: &str) -> (r: String)
    ensures
        r@ == mime_type_of(path@),
{
    mime_guess::from_path(path).first_or_octet_stream().to_string()
}

/// `c` equals the lower-case character `l`, ignoring ASCII case.
pub open spec fn ascii_ci_eq(c: char, l: char) -> bool {
    c == l || ('a' <= l <= 'z' && c as u32 + 32 == l as u32)
}

/// The file name at the end of `p` has the extension `ext` (compared without
/// ASCII case): a dot that does not start the name, then `ext`.
pub open spec fn has_extension(p: Seq<char>, ext: Seq<char>) -> bool {
    let n = p.len() as int;
    let m = ext.len() as int;
    &&& n >= m + 2
    &&& p[n - m - 1] == '.'
    &&& p[n - m - 2] != '/'
    &&& forall|i: int| 0 <= i < m ==> ascii_ci_eq(#[trigger] p[n - m + i], ext[i])
}

pub open spec fn html_ext() -> Seq<char> {
    seq!['h', 't', 'm', 'l']
}

pub open spec fn htm_ext() -> Seq<char> {
    seq!['h', 't', 'm']
}

/// The path names an HTML page: its extension is `html` or `htm`, in any case.
pub open spec fn is_html_file(p: Seq<char>) -> bool {
    has_extension(p, html_ext()) || has_extension(p, htm_ext())
}

/// The body the file endpoint sends.
pub enum Payload {
    /// An HTML page, as text with the reload client in it.
    Html(String),
    /// Any other file: its bytes unchanged, with the content type they go with.
    Raw { content_type: String, body: Vec<u8> },
}

fn ends_with_extension(cs: &Vec<char>, ext: &Vec<char>) -> (r: bool)
    requires
        forall|i: int| 0 <= i < ext@.len() ==> 'a' <= #[trigger] ext@[i] <= 'z',
    ensures
        r == has_extension(cs@, ext@),
{
    let n = cs.len();
    let m = ext.len();
    if n < m || n - m < 2 || cs[n - m - 1] != '.' || cs[n - m - 2] == '/' {
        return false;
    }
    let mut i: usize = 0;
    while i < m
        invariant
            n == cs@.len(),
            m == ext@.len(),
            n >= m + 2,
            i <= m,
            forall|j: int| 0 <= j < i ==> ascii_ci_eq(#[trigger] cs@[n - m + j], ext@[j]),
        decreases m - i,
    {
        let c = cs[n - m + i];
        let l = ext[i];
        if !(c == l || ('a' <= l && l <= 'z' && (l as u32) - 32 == c as u32)) {
            assert(!ascii_ci_eq(cs@[n - m + i], ext@[i as int]));
            return false;
        }
        i = i + 1;
    }
    true
}

/// Whether the canonical path `path` names an HTML page.
pub fn is_html_path(path: &str) -> (r: bool)
    ensures
        r == is_html_file(path@),
{
    let cs = chars_of(path);
    let html = chars_of("html");
    let htm = chars_of("htm");
    proof {
        reveal_strlit("html");
        reveal_strlit("htm");
        assert(html@ =~= html_ext());
        assert(htm@ =~= htm_ext());
    }
    ends_with_extension(&cs, &html) || ends_with_extension(&cs, &htm)
}

/// The reply for the file at canonical `path` whose bytes are `content`: an
/// HTML page is decoded (lossily) and gets the reload client; any other file
/// is passed through unchanged with the content type of its extension.
pub fn render(path: &str, content: Vec<u8>) -> (r: Payload)
    ensures
        is_html_file(path@) ==> (r matches Payload::Html(t) && t@ == with_reload(
            lossy_text(content@),
        )),
        !is_html_file(path@) ==> (r matches Payload::Raw { content_type, body } && body@
            == content@ && content_type@ == mime_type_of(path@)),
{
    if is_html_path(path) {
        let text = decode_lossy(&content);
        Payload::Html(inject_reload(text.as_str()))
    } else {
        Payload::Raw { content_type: guess_content_type(path), body: content }
    }
}

} // verus!
