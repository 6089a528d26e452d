//! The library's laws: properties of the pipeline stated and proved
//! over the same spec functions its contracts use.

use vstd::prelude::*;

use crate::errors::RenderError;
use crate::event::EvModel;
use crate::highlight::spec_block_ok;
use crate::highlight::spec_code_html;
use crate::math::katex_display_accepts;
use crate::math::katex_display_of;
use crate::math::katex_inline_accepts;
use crate::math::katex_inline_of;
use crate::rewrite::IMG_CLOSE_PLAIN;
use crate::rewrite::IMG_OPEN;
use crate::rewrite::ext_at;
use crate::rewrite::find_close;
use crate::rewrite::find_dot;
use crate::rewrite::find_image;
use crate::rewrite::is_ext_at;
use crate::rewrite::match_at;
use crate::rewrite::rewrite_from;
use crate::rewrite::spec_img_fragment;
use crate::rewrite::spec_rewrite;
use crate::text::spec_first_token;
use crate::transform::spec_is_svg_url;
use crate::transform::run_error;
use crate::transform::run_events;
use crate::transform::spec_transform;
use crate::transform::spec_transform_err;

verus! {

/// `n` occurs in `h` as a contiguous run.
pub open spec fn contains_seq(h: Seq<char>, n: Seq<char>) -> bool {
    exists|k: int| 0 <= k && k + n.len() <= h.len() && #[trigger] h.subrange(k, k + n.len()) == n
}

/// Inline math is replaced by inline markup — an inline-HTML event,
/// with no enclosing block-level wrapper — while display math is
/// replaced by block-level markup: a block HTML event.  The pass
/// fails on the span, with a math-render error, exactly when the
/// renderer rejects the expression.
pub proof fn lemma_math_replacement(x: Seq<char>)
    ensures
        spec_transform(seq![EvModel::MathInline(x)]) == Some(
            seq![EvModel::InlineHtml(katex_inline_of(x))],
        ),
        spec_transform(seq![EvModel::MathDisplay(x)]) == Some(
            seq![EvModel::Html(katex_display_of(x))],
        ),
        spec_transform_err(seq![EvModel::MathInline(x)]) == (if katex_inline_accepts(x) {
            None::<RenderError>
        } else {
            Some(RenderError::MathRender)
        }),
        spec_transform_err(seq![EvModel::MathDisplay(x)]) == (if katex_display_accepts(x) {
            None::<RenderError>
        } else {
            Some(RenderError::MathRender)
        }),
{
    reveal_with_fuel(run_events, 3);
    reveal_with_fuel(run_error, 3);
    let inline_evs = seq![EvModel::MathInline(x)];
    let display_evs = seq![EvModel::MathDisplay(x)];
    assert(inline_evs.drop_first() =~= Seq::<EvModel>::empty());
    assert(display_evs.drop_first() =~= Seq::<EvModel>::empty());
    assert(seq![EvModel::InlineHtml(katex_inline_of(x))] + Seq::<EvModel>::empty() =~= seq![
        EvModel::InlineHtml(katex_inline_of(x)),
    ]);
    assert(seq![EvModel::Html(katex_display_of(x))] + Seq::<EvModel>::empty() =~= seq![
        EvModel::Html(katex_display_of(x)),
    ]);
}

/// A fenced code block with any info string transforms into exactly
/// one HTML event: the fixed shell around its buffered content's
/// lines, in order.  The pass fails on the block, with a highlight
/// error, exactly when some buffered line fails to highlight — the
/// tag itself never raises an error, recognized or not.
pub proof fn lemma_code_block_transform(info: Seq<char>, t: Seq<char>)
    ensures
        spec_transform(seq![EvModel::FencedCode(info), EvModel::Text(t), EvModel::CodeEnd])
            == Some(seq![EvModel::Html(spec_code_html(Some(spec_first_token(info)), t))]),
        spec_transform_err(seq![EvModel::FencedCode(info), EvModel::Text(t), EvModel::CodeEnd])
            == (if spec_block_ok(Some(spec_first_token(info)), t) {
            None::<RenderError>
        } else {
            Some(RenderError::Highlight)
        }),
{
    reveal_with_fuel(run_events, 5);
    reveal_with_fuel(run_error, 5);
    let evs = seq![EvModel::FencedCode(info), EvModel::Text(t), EvModel::CodeEnd];
    let lang = Some(spec_first_token(info));
    assert(evs.drop_first() =~= seq![EvModel::Text(t), EvModel::CodeEnd]);
    assert(evs.drop_first().drop_first() =~= seq![EvModel::CodeEnd]);
    assert(evs.drop_first().drop_first().drop_first() =~= Seq::<EvModel>::empty());
    assert(Seq::<char>::empty() + t =~= t);
    let emitted = seq![EvModel::Html(spec_code_html(lang, t))];
    assert(emitted + Seq::<EvModel>::empty() =~= emitted);
    assert(Seq::<EvModel>::empty() + emitted =~= emitted);
}

/// End-of-input policy for an unterminated code block: the stream
/// ending while a block is open is no structural error; the remainder
/// counts as code and is flushed as one highlighted block, failing —
/// with a highlight error — exactly when some buffered line fails.
pub proof fn lemma_unterminated_code_flushed(info: Seq<char>, t: Seq<char>)
    ensures
        spec_transform(seq![EvModel::FencedCode(info), EvModel::Text(t)]) == Some(
            seq![EvModel::Html(spec_code_html(Some(spec_first_token(info)), t))],
        ),
        spec_transform_err(seq![EvModel::FencedCode(info), EvModel::Text(t)]) == (if spec_block_ok(
            Some(spec_first_token(info)),
            t,
        ) {
            None::<RenderError>
        } else {
            Some(RenderError::Highlight)
        }),
{
    reveal_with_fuel(run_events, 4);
    reveal_with_fuel(run_error, 4);
    let evs = seq![EvModel::FencedCode(info), EvModel::Text(t)];
    let lang = Some(spec_first_token(info));
    assert(evs.drop_first() =~= seq![EvModel::Text(t)]);
    assert(evs.drop_first().drop_first() =~= Seq::<EvModel>::empty());
    assert(Seq::<char>::empty() + t =~= t);
    let emitted = seq![EvModel::Html(spec_code_html(lang, t))];
    assert(Seq::<EvModel>::empty() + emitted =~= emitted);
}

/// An image that reaches the event pass is replaced by a wrapper
/// depending on its target URL alone; everything between the image's
/// start and end — the alt text in particular — is dropped, and the
/// pass never fails on it.
pub proof fn lemma_image_alt_dropped(u: Seq<char>, alt: Seq<char>)
    ensures
        spec_transform(seq![EvModel::ImageStart(u), EvModel::Text(alt), EvModel::ImageEnd])
            == Some(seq![EvModel::Html(spec_img_fragment(u, spec_is_svg_url(u)))]),
        spec_transform_err(seq![EvModel::ImageStart(u), EvModel::Text(alt), EvModel::ImageEnd])
            is None,
{
    reveal_with_fuel(run_events, 5);
    reveal_with_fuel(run_error, 5);
    let evs = seq![EvModel::ImageStart(u), EvModel::Text(alt), EvModel::ImageEnd];
    assert(evs.drop_first() =~= seq![EvModel::Text(alt), EvModel::ImageEnd]);
    assert(evs.drop_first().drop_first() =~= seq![EvModel::ImageEnd]);
    assert(evs.drop_first().drop_first().drop_first() =~= Seq::<EvModel>::empty());
    let emitted = seq![EvModel::Html(spec_img_fragment(u, spec_is_svg_url(u)))];
    assert(emitted + (Seq::<EvModel>::empty() + (Seq::<EvModel>::empty()
        + Seq::<EvModel>::empty())) =~= emitted);
}

/// One of the rewriter's recognized target extensions.
pub open spec fn recognized_ext(e: Seq<char>) -> bool {
    ||| e == "svg"@
    ||| e == "png"@
    ||| e == "jpeg"@
    ||| e == "jpg"@
    ||| e == "gif"@
    ||| e == "bmp"@
    ||| e == "webp"@
}

proof fn lemma_find_dot_reaches(s: Seq<char>, p: int, m: int)
    requires
        0 <= p <= m < s.len(),
        forall|q: int| p <= q < m ==> (#[trigger] ext_at(s, q)) is None && s[q] != '\n',
        ext_at(s, m) is Some,
    ensures
        find_dot(s, p) == Some(m),
    decreases m - p,
{
    if p < m {
        lemma_find_dot_reaches(s, p + 1, m);
    }
}

proof fn lemma_find_close_reaches(s: Seq<char>, j0: int, j: int, m: int)
    requires
        0 <= j0 <= j,
        j + 1 < s.len(),
        forall|q: int| j0 <= q < j ==> !(s[q] == ']' && s[q + 1] == '(') && (#[trigger] s[q])
            != '\n',
        s[j] == ']',
        s[j + 1] == '(',
        find_dot(s, j + 2) == Some(m),
    ensures
        find_close(s, j0) == Some((j, m)),
    decreases j - j0,
{
    if j0 < j {
        lemma_find_close_reaches(s, j0 + 1, j, m);
    }
}

/// A document that is exactly one image construct `![alt](path)` with
/// a recognized target extension is rewritten to the wrapper fragment
/// for the path alone: the alt text does not survive.  The alt must
/// not span lines or hold a `](` pair, and the path's base must be
/// free of dots and line breaks, so the construct parses as written.
pub proof fn lemma_single_image_rewrite(alt: Seq<char>, base: Seq<char>, ext: Seq<char>)
    requires
        recognized_ext(ext),
        forall|k: int| 0 <= k < alt.len() ==> (#[trigger] alt[k]) != '\n',
        forall|k: int| 0 <= k < alt.len() - 1 ==> !((#[trigger] alt[k]) == ']' && alt[k + 1]
            == '('),
        forall|k: int| 0 <= k < base.len() ==> (#[trigger] base[k]) != '\n' && base[k] != '.',
    ensures
        spec_rewrite(seq!['!', '['] + alt + seq![']', '('] + base + seq!['.'] + ext + seq![')'])
            == spec_img_fragment(base + seq!['.'] + ext, ext == "svg"@),
{
    reveal_strlit("svg");
    reveal_strlit("png");
    reveal_strlit("jpeg");
    reveal_strlit("jpg");
    reveal_strlit("gif");
    reveal_strlit("bmp");
    reveal_strlit("webp");
    let s = seq!['!', '['] + alt + seq![']', '('] + base + seq!['.'] + ext + seq![')'];
    let al = alt.len() as int;
    let bl = base.len() as int;
    let el = ext.len() as int;
    let j = 2 + al;
    let pstart = j + 2;
    let m = pstart + bl;
    let close = m + 1 + el;
    assert(s.len() == close + 1);
    assert(s[0] == '!');
    assert(s[1] == '[');
    assert(forall|k: int| 2 <= k < j ==> #[trigger] s[k] == alt[k - 2]);
    assert(s[j] == ']');
    assert(s[j + 1] == '(');
    assert(forall|k: int| pstart <= k < m ==> #[trigger] s[k] == base[k - pstart]);
    assert(s[m] == '.');
    assert(forall|k: int| 0 <= k < el ==> #[trigger] ext[k] == s[m + 1 + k]);
    assert(s[close] == ')');

    // the target's extension is recognized at `m`
    assert(s.subrange(m + 1, m + 1 + el) =~= ext);
    assert(is_ext_at(s, m, ext));
    if ext == "svg"@ {
        assert(ext_at(s, m) == Some(ext));
    } else if ext == "png"@ {
        assert(s.subrange(m + 1, m + 4) =~= ext);
        assert(ext_at(s, m) == Some(ext));
    } else if ext == "jpeg"@ {
        assert(s.subrange(m + 1, m + 4) =~= ext.subrange(0, 3));
        assert(ext_at(s, m) == Some(ext));
    } else if ext == "jpg"@ {
        assert(s.subrange(m + 1, m + 4) =~= ext);
        assert(ext_at(s, m) == Some(ext));
    } else if ext == "gif"@ {
        assert(s.subrange(m + 1, m + 4) =~= ext);
        assert(ext_at(s, m) == Some(ext));
    } else if ext == "bmp"@ {
        assert(s.subrange(m + 1, m + 4) =~= ext);
        assert(ext_at(s, m) == Some(ext));
    } else {
        assert(ext == "webp"@);
        assert(s.subrange(m + 1, m + 4) =~= ext.subrange(0, 3));
        assert(s.subrange(m + 1, m + 5) =~= ext);
        assert(ext_at(s, m) == Some(ext));
    }

    // the dot search from the target's start lands exactly there
    assert(forall|q: int| pstart <= q < m ==> (#[trigger] ext_at(s, q)) is None && s[q] != '\n')
        by {
        assert(forall|q: int| pstart <= q < m ==> #[trigger] s[q] != '.' && s[q] != '\n');
    }
    lemma_find_dot_reaches(s, pstart, m);

    // the close search from the alt's start lands on the real `](`
    assert(forall|q: int| 2 <= q < j ==> !(s[q] == ']' && s[q + 1] == '(') && (#[trigger] s[q])
        != '\n') by {
        assert(forall|q: int| 2 <= q < j - 1 ==> !((#[trigger] s[q]) == ']' && s[q + 1] == '('));
        assert(j - 1 >= 2 ==> s[j] == ']' && !(s[j - 1] == ']' && s[j] == '('));
    }
    lemma_find_close_reaches(s, 2, j, m);
    assert(match_at(s, 0) == Some((j, m)));
    assert(find_image(s, 0) == Some((0int, j, m)));

    // one unfolding of the rewrite: prefix, fragment, empty tail
    let path = s.subrange(j + 2, m + 1 + el);
    assert(path =~= base + seq!['.'] + ext);
    assert(find_image(s, close + 1) is None);
    assert(rewrite_from(s, close + 1) =~= Seq::<char>::empty());
    assert(rewrite_from(s, 0) == s.subrange(0, 0) + spec_img_fragment(path, ext == "svg"@)
        + rewrite_from(s, close + 1));
    assert(s.subrange(0, 0) + spec_img_fragment(path, ext == "svg"@) + rewrite_from(s, close + 1)
        =~= spec_img_fragment(path, ext == "svg"@));
}

/// The wrapper for an `svg` target carries the color-inversion style;
/// the wrapper for any other target is exactly the open shell, the
/// path and the plain closing shell, which holds no such style.
pub proof fn lemma_svg_fragment_inverts(path: Seq<char>)
    ensures
        contains_seq(spec_img_fragment(path, true), "filter: invert(100%);"@),
        spec_img_fragment(path, false) == IMG_OPEN@ + path + IMG_CLOSE_PLAIN@,
{
    reveal_strlit("filter: invert(100%);");
    reveal_strlit(r#"" style="filter: invert(100%); width: 100%;"></div>"#);
    let h = spec_img_fragment(path, true);
    let n = "filter: invert(100%);"@;
    let k = IMG_OPEN@.len() + path.len() + 9;
    assert(h.subrange(k as int, k as int + n.len() as int) =~= n);
}

/// The wrapper for a non-`svg` target carries no color-inversion
/// style, as long as the path itself does not spell one out: the open
/// shell holds no `fi` pair, the plain closing shell holds no `f` at
/// all, and the quotes fencing the path keep an occurrence from
/// spanning a boundary, since the style text holds no quote.
pub proof fn lemma_plain_fragment_no_invert(path: Seq<char>)
    requires
        !contains_seq(path, "filter: invert(100%);"@),
    ensures
        !contains_seq(spec_img_fragment(path, false), "filter: invert(100%);"@),
{
    reveal_strlit("filter: invert(100%);");
    reveal_strlit(r#"<div style="display: flex; justify-content: center;"><img src=""#);
    reveal_strlit(r#"" style="width: 100%;"></div>"#);
    let h = spec_img_fragment(path, false);
    let n = "filter: invert(100%);"@;
    let a = IMG_OPEN@.len() as int;
    let b = a + path.len() as int;
    if contains_seq(h, n) {
        let k = choose|k: int|
            0 <= k && k + n.len() <= h.len() && #[trigger] h.subrange(k, k + n.len()) == n;
        assert forall|q: int| 0 <= q < n.len() implies h[k + q] == n[q] by {
            assert(h.subrange(k, k + n.len() as int)[q] == n[q]);
        }
        assert(forall|q: int| 0 <= q < n.len() ==> #[trigger] n[q] != '"');
        if k + n.len() <= a {
            assert(forall|q: int|
                0 <= q < IMG_OPEN@.len() - 1 ==> !(#[trigger] IMG_OPEN@[q] == 'f' && IMG_OPEN@[q
                    + 1] == 'i'));
            assert(h[k] == IMG_OPEN@[k] && h[k + 1] == IMG_OPEN@[k + 1]);
            assert(h[k] == n[0] && h[k + 1] == n[1]);
            assert(false);
        } else if k < a {
            assert(h[a - 1] == IMG_OPEN@[a - 1]);
            assert(h[a - 1] == '"');
            assert(h[k + (a - 1 - k)] == n[a - 1 - k]);
            assert(false);
        } else if k + n.len() <= b {
            assert forall|q: int| 0 <= q < n.len() implies path[(k - a) + q] == n[q] by {
                assert(h[k + q] == path[k + q - a]);
            }
            assert(path.subrange(k - a, k - a + n.len() as int) =~= n);
            assert(contains_seq(path, n));
            assert(false);
        } else if k < b {
            assert(h[b] == IMG_CLOSE_PLAIN@[0]);
            assert(h[b] == '"');
            assert(h[k + (b - k)] == n[b - k]);
            assert(false);
        } else {
            assert(forall|q: int|
                0 <= q < IMG_CLOSE_PLAIN@.len() ==> #[trigger] IMG_CLOSE_PLAIN@[q] != 'f');
            assert(h[k] == IMG_CLOSE_PLAIN@[k - b]);
            assert(h[k] == n[0]);
            assert(false);
        }
    }
}

} // verus!
