//! Text-level image rewriting.
//!
//! Before tokenization, every inline image construct `![alt](path)`
//! whose target ends in a recognized raster or vector extension is
//! replaced by a literal HTML fragment: a flex-centered wrapper around
//! an `<img>` pointing at `path`, with a color-inversion style added
//! for `svg` targets.  The alt text is discarded by design: the wrapper
//! imposes a fixed visual treatment.
//!
//! Matching is leftmost-first and non-overlapping, the cursor always
//! advancing past the end of the previous match.  Within one candidate
//! start `![`, the closing `](` is the earliest one from which a target
//! can still be completed, and the target ends at the earliest `.ext)`
//! occurrence; no part of a match may span a line break.

use vstd::prelude::*;

use crate::text::str_to_chars;
use crate::text::chars_to_string;
use crate::text::copy_range;

verus! {

/// Opening of the centered image wrapper, up to the `src` value.
pub const IMG_OPEN: &'static str = r#"<div style="display: flex; justify-content: center;"><img src=""#;

/// Closing of the wrapper for a non-`svg` target.
pub const IMG_CLOSE_PLAIN: &'static str = r#"" style="width: 100%;"></div>"#;

/// Closing of the wrapper for an `svg` target, which additionally
/// inverts colors so monochrome vector art adapts to dark backgrounds.
pub const IMG_CLOSE_SVG: &'static str = r#"" style="filter: invert(100%); width: 100%;"></div>"#;

/// The HTML fragment substituted for one matched image construct.
pub open spec fn spec_img_fragment(path: Seq<char>, svg: bool) -> Seq<char> {
    if svg {
        IMG_OPEN@ + path + IMG_CLOSE_SVG@
    } else {
        IMG_OPEN@ + path + IMG_CLOSE_PLAIN@
    }
}

/// `.ext)` stands at position `m` of `s` for this particular extension.
pub open spec fn is_ext_at(s: Seq<char>, m: int, ext: Seq<char>) -> bool {
    &&& 0 <= m
    &&& m + 1 + ext.len() < s.len()
    &&& s[m] == '.'
    &&& s.subrange(m + 1, m + 1 + ext.len()) == ext
    &&& s[m + 1 + ext.len()] == ')'
}

/// The recognized extension whose `.ext)` stands at position `m`, if
/// any.  The list is fixed and case-sensitive; `jpeg` is tried before
/// `jpg`, as a greedy optional `e` would.  At most one entry can match
/// at a given position, since the closing parenthesis pins the length.
pub open spec fn ext_at(s: Seq<char>, m: int) -> Option<Seq<char>> {
    if is_ext_at(s, m, "svg"@) {
        Some("svg"@)
    } else if is_ext_at(s, m, "png"@) {
        Some("png"@)
    } else if is_ext_at(s, m, "jpeg"@) {
        Some("jpeg"@)
    } else if is_ext_at(s, m, "jpg"@) {
        Some("jpg"@)
    } else if is_ext_at(s, m, "gif"@) {
        Some("gif"@)
    } else if is_ext_at(s, m, "bmp"@) {
        Some("bmp"@)
    } else if is_ext_at(s, m, "webp"@) {
        Some("webp"@)
    } else {
        None
    }
}

/// Earliest position at or after `p` where a recognized `.ext)` stands,
/// scanning within the current line: a line break ends the search.
pub open spec fn find_dot(s: Seq<char>, p: int) -> Option<int>
    decreases s.len() - p,
{
    if p < 0 || p >= s.len() {
        None
    } else if ext_at(s, p) is Some {
        Some(p)
    } else if s[p] == '\n' {
        None
    } else {
        find_dot(s, p + 1)
    }
}

/// Earliest `](` at or after `j` from which a target still completes:
/// the pair must be followed by a `.ext)` occurrence on the same line.
/// Returns that position together with the target's dot position.
pub open spec fn find_close(s: Seq<char>, j: int) -> Option<(int, int)>
    decreases s.len() - j,
{
    if j < 0 || j + 1 >= s.len() {
        None
    } else if s[j] == ']' && s[j + 1] == '(' && find_dot(s, j + 2) is Some {
        Some((j, find_dot(s, j + 2)->0))
    } else if s[j] == '\n' {
        None
    } else {
        find_close(s, j + 1)
    }
}

/// A full image construct starting exactly at `i`: `![`, then the
/// earliest viable `](`, then the target's dot position.
pub open spec fn match_at(s: Seq<char>, i: int) -> Option<(int, int)> {
    if 0 <= i && i + 1 < s.len() && s[i] == '!' && s[i + 1] == '[' {
        find_close(s, i + 2)
    } else {
        None
    }
}

/// Leftmost image construct starting at or after `i`, as a triple of
/// start, closing-bracket position and dot position.
pub open spec fn find_image(s: Seq<char>, i: int) -> Option<(int, int, int)>
    decreases s.len() - i,
{
    if i < 0 || i >= s.len() {
        None
    } else if match_at(s, i) is Some {
        let jm = match_at(s, i)->0;
        Some((i, jm.0, jm.1))
    } else {
        find_image(s, i + 1)
    }
}

pub proof fn lemma_find_dot_bounds(s: Seq<char>, p: int)
    requires
        0 <= p,
    ensures
        find_dot(s, p) matches Some(m) ==> p <= m && ext_at(s, m) is Some,
    decreases s.len() - p,
{
    if p < s.len() && ext_at(s, p) is None && s[p] != '\n' {
        lemma_find_dot_bounds(s, p + 1);
    }
}

pub proof fn lemma_find_close_bounds(s: Seq<char>, j: int)
    requires
        0 <= j,
    ensures
        find_close(s, j) matches Some(jm) ==> {
            &&& j <= jm.0
            &&& jm.0 + 2 <= jm.1
            &&& ext_at(s, jm.1) is Some
            &&& s[jm.0] == ']'
            &&& s[jm.0 + 1] == '('
        },
    decreases s.len() - j,
{
    if j + 1 < s.len() {
        if s[j] == ']' && s[j + 1] == '(' && find_dot(s, j + 2) is Some {
            lemma_find_dot_bounds(s, j + 2);
        } else if s[j] != '\n' {
            lemma_find_close_bounds(s, j + 1);
        }
    }
}

pub proof fn lemma_find_image_bounds(s: Seq<char>, i: int)
    requires
        0 <= i,
    ensures
        find_image(s, i) matches Some(t) ==> {
            &&& i <= t.0
            &&& t.0 + 2 <= t.1
            &&& t.1 + 2 <= t.2
            &&& ext_at(s, t.2) is Some
            &&& t.2 + 2 + ext_at(s, t.2)->0.len() <= s.len()
        },
    decreases s.len() - i,
{
    if 0 <= i < s.len() {
        if match_at(s, i) is Some {
            lemma_find_close_bounds(s, i + 2);
        } else {
            lemma_find_image_bounds(s, i + 1);
        }
    }
}

/// Matching is leftmost-first: the construct found from `i` starts at
/// the least viable position at or after `i`, and when none is found,
/// no position at or after `i` starts one.
pub proof fn lemma_find_image_leftmost(s: Seq<char>, i: int)
    requires
        0 <= i,
    ensures
        find_image(s, i) matches Some(t) ==> {
            &&& match_at(s, t.0) == Some((t.1, t.2))
            &&& forall|q: int| i <= q < t.0 ==> match_at(s, q) is None
        },
        find_image(s, i) is None ==> forall|q: int| i <= q ==> match_at(s, q) is None,
    decreases s.len() - i,
{
    if i < s.len() && match_at(s, i) is None {
        lemma_find_image_leftmost(s, i + 1);
    }
}

/// The rewritten form of `s[c..]`: text outside matches is copied
/// through unchanged, and each leftmost match is replaced by its
/// wrapper fragment, the cursor advancing past the match's end.
pub open spec fn rewrite_from(s: Seq<char>, c: int) -> Seq<char>
    decreases s.len() - c,
        via rewrite_from_dec
{
    if c < 0 || c > s.len() {
        Seq::empty()
    } else {
        match find_image(s, c) {
            None => s.subrange(c, s.len() as int),
            Some(t) => {
                let ext = ext_at(s, t.2)->0;
                let path = s.subrange(t.1 + 2, t.2 + 1 + ext.len());
                s.subrange(c, t.0) + spec_img_fragment(path, ext == "svg"@) + rewrite_from(
                    s,
                    t.2 + 2 + ext.len(),
                )
            },
        }
    }
}

#[via_fn]
proof fn rewrite_from_dec(s: Seq<char>, c: int) {
    if 0 <= c <= s.len() {
        lemma_find_image_bounds(s, c);
    }
}

/// The whole document, rewritten.
pub open spec fn spec_rewrite(s: Seq<char>) -> Seq<char> {
    rewrite_from(s, 0)
}

/// Whether `w` stands in `v` at position `at`.
fn matches_word(v: &Vec<char>, at: usize, w: &Vec<char>) -> (r: bool)
    ensures
        r == (at + w@.len() <= v@.len() && v@.subrange(at as int, at + w@.len()) == w@),
{
    let n = v.len();
    let wn = w.len();
    if at > n || n - at < wn {
        return false;
    }
    let mut k: usize = 0;
    while k < wn
        invariant
            k <= wn,
            at + wn <= n == v@.len(),
            wn == w@.len(),
            forall|q: int| 0 <= q < k ==> v@[at + q] == w@[q],
        decreases wn - k,
    {
        if v[at + k] != w[k] {
            proof {
                assert(v@.subrange(at as int, at + w@.len())[k as int] != w@[k as int]);
            }
            return false;
        }
        k = k + 1;
    }
    proof {
        assert(v@.subrange(at as int, at + w@.len()) =~= w@);
    }
    true
}

/// The recognized extension standing at `m`, as its length and whether
/// it is `svg`.
fn check_ext(v: &Vec<char>, m: usize) -> (r: Option<(usize, bool)>)
    ensures
        r is Some <==> ext_at(v@, m as int) is Some,
        r matches Some(p) ==> ext_at(v@, m as int) matches Some(e) && e.len() == p.0 && (p.1 <==> e
            == "svg"@),
{
    if m >= v.len() || v[m] != '.' {
        return None;
    }
    let svg = str_to_chars("svg");
    let png = str_to_chars("png");
    let jpeg = str_to_chars("jpeg");
    let jpg = str_to_chars("jpg");
    let gif = str_to_chars("gif");
    let bmp = str_to_chars("bmp");
    let webp = str_to_chars("webp");
    if matches_word(v, m + 1, &svg) && m + 1 + svg.len() < v.len() && v[m + 1 + svg.len()] == ')' {
        return Some((svg.len(), true));
    }
    if matches_word(v, m + 1, &png) && m + 1 + png.len() < v.len() && v[m + 1 + png.len()] == ')' {
        return Some((png.len(), false));
    }
    if matches_word(v, m + 1, &jpeg) && m + 1 + jpeg.len() < v.len() && v[m + 1 + jpeg.len()]
        == ')' {
        return Some((jpeg.len(), false));
    }
    if matches_word(v, m + 1, &jpg) && m + 1 + jpg.len() < v.len() && v[m + 1 + jpg.len()] == ')' {
        return Some((jpg.len(), false));
    }
    if matches_word(v, m + 1, &gif) && m + 1 + gif.len() < v.len() && v[m + 1 + gif.len()] == ')' {
        return Some((gif.len(), false));
    }
    if matches_word(v, m + 1, &bmp) && m + 1 + bmp.len() < v.len() && v[m + 1 + bmp.len()] == ')' {
        return Some((bmp.len(), false));
    }
    if matches_word(v, m + 1, &webp) && m + 1 + webp.len() < v.len() && v[m + 1 + webp.len()]
        == ')' {
        return Some((webp.len(), false));
    }
    None
}

/// Earliest recognized `.ext)` at or after `p` on the current line.
fn scan_dot(v: &Vec<char>, p: usize) -> (r: Option<usize>)
    ensures
        r matches Some(m) ==> p <= m && find_dot(v@, p as int) == Some(m as int),
        r is None ==> find_dot(v@, p as int) is None,
{
    let n = v.len();
    let mut q: usize = p;
    while q < n
        invariant
            p <= q,
            n == v@.len(),
            find_dot(v@, p as int) == find_dot(v@, q as int),
        decreases n - q,
    {
        if check_ext(v, q).is_some() {
            return Some(q);
        }
        if v[q] == '\n' {
            return None;
        }
        q = q + 1;
    }
    None
}

/// Earliest viable `](` at or after `j` on the current line, with the
/// target's dot position.
fn scan_close(v: &Vec<char>, j: usize) -> (r: Option<(usize, usize)>)
    ensures
        r matches Some(p) ==> find_close(v@, j as int) == Some((p.0 as int, p.1 as int)),
        r is None ==> find_close(v@, j as int) is None,
{
    let n = v.len();
    let mut q: usize = j;
    while q < n
        invariant
            j <= q,
            n == v@.len(),
            find_close(v@, j as int) == find_close(v@, q as int),
        decreases n - q,
    {
        if q + 1 >= n {
            return None;
        }
        if v[q] == ']' && v[q + 1] == '(' {
            match scan_dot(v, q + 2) {
                Some(m) => {
                    return Some((q, m));
                },
                None => {},
            }
        }
        if v[q] == '\n' {
            return None;
        }
        q = q + 1;
    }
    None
}

/// Leftmost image construct starting at or after `i`.
fn scan_image(v: &Vec<char>, i: usize) -> (r: Option<(usize, usize, usize)>)
    ensures
        r matches Some(t) ==> find_image(v@, i as int) == Some(
            (t.0 as int, t.1 as int, t.2 as int),
        ),
        r is None ==> find_image(v@, i as int) is None,
{
    let n = v.len();
    let mut q: usize = i;
    while q < n
        invariant
            i <= q,
            n == v@.len(),
            find_image(v@, i as int) == find_image(v@, q as int),
        decreases n - q,
    {
        if q + 1 < n && v[q] == '!' && v[q + 1] == '[' {
            match scan_close(v, q + 2) {
                Some(p) => {
                    return Some((q, p.0, p.1));
                },
                None => {},
            }
        }
        q = q + 1;
    }
    None
}

/// Rewrite a document held as characters.
pub fn rewrite_images_chars(v: &Vec<char>) -> (r: Vec<char>)
    ensures
        r@ == spec_rewrite(v@),
{
    let n = v.len();
    let mut out: Vec<char> = Vec::new();
    let mut c: usize = 0;
    loop
        invariant_except_break
            c <= n == v@.len(),
            spec_rewrite(v@) == out@ + rewrite_from(v@, c as int),
        ensures
            out@ == spec_rewrite(v@),
        decreases n - c,
    {
        let ghost out0 = out@;
        match scan_image(v, c) {
            None => {
                let mut tail = copy_range(v, c, n);
                out.append(&mut tail);
                proof {
                    assert(out@ =~= spec_rewrite(v@));
                }
                break;
            },
            Some(t) => {
                let (i, j, m) = t;
                proof {
                    lemma_find_image_bounds(v@, c as int);
                }
                let ext = check_ext(v, m).unwrap();
                let (elen, is_svg) = ext;
                let mut head = copy_range(v, c, i);
                out.append(&mut head);
                let mut open = str_to_chars(IMG_OPEN);
                out.append(&mut open);
                let mut path = copy_range(v, j + 2, m + 1 + elen);
                out.append(&mut path);
                if is_svg {
                    let mut close = str_to_chars(IMG_CLOSE_SVG);
                    out.append(&mut close);
                } else {
                    let mut close = str_to_chars(IMG_CLOSE_PLAIN);
                    out.append(&mut close);
                }
                proof {
                    let s = v@;
                    let ghost ext_s = ext_at(s, m as int)->0;
                    let ghost pathv = s.subrange(j + 2, m + 1 + ext_s.len());
                    assert(out@ =~= out0 + s.subrange(c as int, i as int) + spec_img_fragment(
                        pathv,
                        ext_s == "svg"@,
                    ));
                }
                c = m + 2 + elen;
            },
        }
    }
    out
}

/// Build the wrapper fragment for one image target.
pub fn img_fragment(path: &str, svg: bool) -> (r: String)
    ensures
        r@ == spec_img_fragment(path@, svg),
{
    let mut out: Vec<char> = str_to_chars(IMG_OPEN);
    let mut p = str_to_chars(path);
    out.append(&mut p);
    if svg {
        let mut close = str_to_chars(IMG_CLOSE_SVG);
        out.append(&mut close);
    } else {
        let mut close = str_to_chars(IMG_CLOSE_PLAIN);
        out.append(&mut close);
    }
    chars_to_string(&out)
}

/// Rewrite a markdown document: copy it through, replacing every
/// recognized inline image construct with its wrapper fragment.
pub fn rewrite_images(s: &str) -> (r: String)
    ensures
        r@ == spec_rewrite(s@),
{
    let v = str_to_chars(s);
    let out = rewrite_images_chars(&v);
    chars_to_string(&out)
}

} // verus!
